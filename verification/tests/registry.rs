use maolan_video::registry::{RegisteredVideoTextureSource, VideoTextureRegistry};
use maolan_video::surface::texture_upload;
use maolan_video::types::{VideoFrameMetadata, VideoTextureHandle};

fn metadata(width: u32) -> VideoFrameMetadata {
    VideoFrameMetadata { width, height: 1, pts_samples: 3 }
}

fn source(width: u32, byte: u8) -> RegisteredVideoTextureSource {
    RegisteredVideoTextureSource::Rgba8 { width, height: 1, pixels: vec![byte; 4] }
}

fn insert(registry: &mut VideoTextureRegistry, byte: u8) -> VideoTextureHandle {
    registry.insert(metadata(1), source(1, byte), "p".to_string(), None)
}

#[test]
fn handles_count_up_within_a_generation() {
    let mut registry = VideoTextureRegistry::new();
    assert_eq!(insert(&mut registry, 1), VideoTextureHandle { slot: 0, generation: 0 });
    assert_eq!(insert(&mut registry, 2), VideoTextureHandle { slot: 1, generation: 0 });
    registry.clear();
    assert_eq!(insert(&mut registry, 3), VideoTextureHandle { slot: 0, generation: 1 });
}

#[test]
fn handles_of_before_a_clearing_find_nothing() {
    let mut registry = VideoTextureRegistry::default();
    let handle = insert(&mut registry, 1);
    registry.clear();
    insert(&mut registry, 2);
    assert!(registry.get(&handle).is_none());
    assert!(registry.remove(&handle).is_none());
}

#[test]
fn replacement_needs_a_texture_and_uses_a_revision_up() {
    let mut registry = VideoTextureRegistry::new();
    let handle = insert(&mut registry, 1);
    assert_eq!(registry.get(&handle).unwrap().revision, 0);
    let missing = VideoTextureHandle { slot: 9, generation: 0 };
    assert_eq!(registry.replace(missing, metadata(1), source(1, 2), "q".to_string(), None), None);
    assert_eq!(
        registry.replace(handle, metadata(2), source(2, 2), "q".to_string(), Some("r".to_string())),
        Some(())
    );
    let texture = registry.get(&handle).unwrap();
    assert_eq!(texture.revision, 2);
    assert_eq!(texture.metadata, metadata(2));
    assert_eq!(texture.producer_label, "q");
    assert_eq!(texture.fallback_reason.as_deref(), Some("r"));
}

#[test]
fn removed_texture_is_handed_out() {
    let mut registry = VideoTextureRegistry::new();
    let handle = insert(&mut registry, 7);
    let other = insert(&mut registry, 8);
    let texture = registry.remove(&handle).unwrap();
    match texture.source {
        RegisteredVideoTextureSource::Rgba8 { pixels, .. } => assert_eq!(pixels, vec![7; 4]),
    }
    assert!(registry.get(&handle).is_none());
    assert!(registry.get(&other).is_some());
}

#[test]
fn texture_is_uploaded_once_per_revision() {
    let mut registry = VideoTextureRegistry::new();
    let handle = insert(&mut registry, 7);
    let upload = texture_upload(&registry, &handle, None).unwrap();
    assert_eq!((upload.width, upload.height), (1, 1));
    assert_eq!((upload.bytes_per_row, upload.rows_per_image), (4, 1));
    assert_eq!(*upload.pixels, vec![7; 4]);
    let revision = upload.revision;
    assert!(texture_upload(&registry, &handle, Some(revision)).is_none());
    registry.replace(handle, metadata(1), source(1, 8), "p".to_string(), None);
    let upload = texture_upload(&registry, &handle, Some(revision)).unwrap();
    assert_eq!(*upload.pixels, vec![8; 4]);
    assert_ne!(upload.revision, revision);
    let missing = VideoTextureHandle { slot: 9, generation: 0 };
    assert!(texture_upload(&registry, &missing, None).is_none());
}

#[test]
fn row_length_of_an_upload_is_limited() {
    let mut registry = VideoTextureRegistry::new();
    let wide = registry.insert(metadata(1), source(0x4000_0000, 1), "p".to_string(), None);
    let upload = texture_upload(&registry, &wide, None).unwrap();
    assert_eq!(upload.bytes_per_row, u32::MAX);
}

#[test]
fn handles_and_revisions_are_not_given_out_again() {
    let mut registry = VideoTextureRegistry::new();
    let mut handles = Vec::new();
    let mut last_revision = None;
    for round in 0..3 {
        for byte in 0..3 {
            let handle = insert(&mut registry, byte);
            assert!(!handles.contains(&handle));
            handles.push(handle);
            let revision = registry.get(&handle).unwrap().revision;
            assert!(last_revision < Some(revision));
            last_revision = Some(revision);
            if byte != round {
                registry.remove(&handle);
            }
        }
        registry.clear();
    }
    assert!(handles.iter().all(|handle| registry.get(handle).is_none()));
}
