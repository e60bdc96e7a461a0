use maolan_video::clip_key::{
    clip_cache_key, clip_data_key, clip_key, clip_paths_match, key_matches_clip, parse_clip_key,
};
use maolan_video::clip_map::ClipMap;
use maolan_video::types::{VideoClip, VideoClipData};

fn clip(path: &str) -> VideoClip {
    VideoClip { path: path.to_string(), start: 1, length: 20, offset: 300 }
}

fn data(path: &str) -> VideoClipData {
    VideoClipData { path: path.to_string(), start: 1, length: 20, offset: 300 }
}

#[test]
fn clip_key_lists_path_and_numbers() {
    assert_eq!(clip_key(&clip("a/b.mp4")), "a/b.mp4:1:20:300");
    assert_eq!(clip_data_key(&data("a/b.mp4")), "a/b.mp4:1:20:300");
    assert_eq!(clip_cache_key(&data("a"), 0), "a:1:20:300:0");
    assert_eq!(
        clip_cache_key(&data("a"), 48000.0f64.to_bits()),
        format!("a:1:20:300:{}", 48000.0f64.to_bits())
    );
}

#[test]
fn clip_key_is_read_back() {
    assert_eq!(parse_clip_key(&clip_key(&clip("C:\\v:1.mp4"))), Some(("C:\\v:1.mp4", 1, 20, 300)));
    assert_eq!(parse_clip_key("a:0:0:18446744073709551615"), Some(("a", 0, 0, usize::MAX)));
    assert_eq!(parse_clip_key(":1:2:3"), Some(("", 1, 2, 3)));
    assert_eq!(parse_clip_key("a:+1:2:3"), Some(("a", 1, 2, 3)));
}

#[test]
fn other_texts_are_no_clip_keys() {
    assert_eq!(parse_clip_key(""), None);
    assert_eq!(parse_clip_key("1:2:3"), None);
    assert_eq!(parse_clip_key("a:1:2:"), None);
    assert_eq!(parse_clip_key("a:1:x:3"), None);
    assert_eq!(parse_clip_key("a:1:2:-3"), None);
    assert_eq!(parse_clip_key("a:1:2:18446744073709551616"), None);
}

#[test]
fn paths_match_from_the_end() {
    assert!(clip_paths_match("a.mp4", "a.mp4"));
    assert!(clip_paths_match("/session/video/a.mp4", "video/a.mp4"));
    assert!(clip_paths_match("/session/za.mp4", "a.mp4"));
    assert!(!clip_paths_match("a.mp4", "/session/a.mp4"));
    assert!(!clip_paths_match("a.mp4", "b.mp4"));
}

#[test]
fn key_serves_the_clip_it_was_made_for() {
    assert!(key_matches_clip("a:1:20:300", &clip("a")));
    assert!(key_matches_clip("/s/a:1:20:300", &clip("a")));
    assert!(!key_matches_clip("a:2:20:300", &clip("a")));
    assert!(!key_matches_clip("a:1:21:300", &clip("a")));
    assert!(!key_matches_clip("a:1:20:301", &clip("a")));
    assert!(!key_matches_clip("a", &clip("a")));
}

#[test]
fn clip_map_holds_one_value_per_key() {
    let mut map: ClipMap<u32> = ClipMap::new();
    map.insert("a".to_string(), 1);
    map.insert("b".to_string(), 2);
    map.insert("a".to_string(), 3);
    assert_eq!(map.len(), 2);
    assert_eq!(map.get(&"a".to_string()), Some(&3));
    *map.get_mut(&"b".to_string()).unwrap() = 5;
    assert_eq!(map.get(&"b".to_string()), Some(&5));
    assert!(map.get_mut(&"c".to_string()).is_none());
    let removed = map.retain_keys(&vec!["b".to_string(), "x".to_string()]);
    assert_eq!(removed, vec![("a".to_string(), 3)]);
    assert!(!map.contains(&"a".to_string()));
    assert!(map.contains(&"b".to_string()));
}
