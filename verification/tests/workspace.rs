use iced::widget::image::Handle;
use maolan_video::producer::ProducedFrame;
use maolan_video::runtime::{Served, VideoRuntime};
use maolan_video::types::{
    VideoClip, VideoClipData, VideoFrameBuffer, VideoFrameLoadState, VideoFrameMetadata,
    VideoFrameRef,
    VideoRuntimeBackend, VideoTextureHandle,
};
use maolan_video::workspace::{
    FileList, FrameContent, FrameFit, Video, VideoContent, VideoState, VideoTrack,
};

fn track(name: &str, path: Option<&str>) -> VideoTrack {
    VideoTrack {
        name: name.to_string(),
        video: path.map(|path| VideoClip { path: path.to_string(), start: 0, length: 1, offset: 0 }),
    }
}

fn view(tracks: Vec<VideoTrack>, selected: Option<&str>) -> Video {
    Video::new(VideoState { tracks, selected: selected.map(|name| name.to_string()) })
}

#[test]
fn selected_track_is_shown() {
    let video = view(
        vec![track("x", Some("x.mp4")), track("y", None), track("y", Some("y.mp4"))],
        Some("y"),
    );
    match video.view(VideoRuntimeBackend::Vulkan) {
        VideoContent::Player { clip, effects, unavailable, fit } => {
            assert_eq!(clip.path, "y.mp4");
            assert_eq!(effects, "VFX Vulkan");
            assert_eq!(unavailable, "Selected video preview unavailable");
            assert_eq!(fit, FrameFit::Fill);
        }
        _ => panic!("no player"),
    }
}

#[test]
fn first_video_is_shown_where_nothing_is_selected() {
    let video = view(vec![track("w", None), track("x", Some("x.mp4")), track("y", Some("y"))], None);
    match video.view(VideoRuntimeBackend::Cpu) {
        VideoContent::Player { clip, effects, unavailable, fit } => {
            assert_eq!(clip.path, "x.mp4");
            assert_eq!(effects, "VFX CPU");
            assert_eq!(unavailable, "Video player unavailable");
            assert_eq!(fit, FrameFit::Contain);
        }
        _ => panic!("no player"),
    }
}

#[test]
fn missing_videos_are_told() {
    let video = view(vec![track("x", Some("x.mp4")), track("y", None)], Some("y"));
    match video.view(VideoRuntimeBackend::Cpu) {
        VideoContent::FilesOnly { notice } => {
            assert_eq!(notice, "Selected track has no video subtrack")
        }
        _ => panic!("no notice"),
    }
    match view(vec![track("y", None)], None).view(VideoRuntimeBackend::Cpu) {
        VideoContent::Nothing { notice } => assert_eq!(notice, "No imported video available"),
        _ => panic!("no notice"),
    }
}

#[test]
fn load_states_are_labelled() {
    assert_eq!(Video::load_state_label(VideoRuntimeBackend::Cpu, &None), None);
    assert_eq!(
        Video::load_state_label(VideoRuntimeBackend::Cpu, &Some(VideoFrameLoadState::Loading)),
        Some("CPU • loading".to_string())
    );
    assert_eq!(
        Video::load_state_label(
            VideoRuntimeBackend::Vulkan,
            &Some(VideoFrameLoadState::Failed("no stream".to_string()))
        ),
        Some("Vulkan • no stream".to_string())
    );
}

#[test]
fn panel_shows_the_frame_or_why_it_is_missing() {
    let mut runtime = VideoRuntime::new(None, None);
    let buffer = VideoFrameBuffer { width: 1, height: 1, rgba: vec![1, 2, 3, 4], pts_samples: 0 };
    let image = Some(VideoFrameRef::Cpu(&buffer));
    match Video::frame_element(&runtime, &image, &None, "none") {
        FrameContent::Image(Handle::Rgba { pixels, .. }) => assert_eq!(&pixels[..], &[1, 2, 3, 4]),
        _ => panic!("no image"),
    }
    let handle = VideoTextureHandle { slot: 1, generation: 0 };
    let metadata = VideoFrameMetadata { width: 5, height: 6, pts_samples: 7 };
    let texture = Some(VideoFrameRef::Gpu { handle, metadata });
    match Video::frame_element(&runtime, &texture, &None, "none") {
        FrameContent::Texture { handle: shown, metadata: size } => {
            assert_eq!((shown, size), (handle, metadata))
        }
        _ => panic!("no texture"),
    }
    match Video::frame_element(&runtime, &None, &Some(VideoFrameLoadState::Loading), "none") {
        FrameContent::Notice { text, reason } => {
            assert_eq!(text, "none");
            assert_eq!(reason.as_deref(), Some("Vulkan • loading"));
        }
        _ => panic!("no notice"),
    }
    runtime.set_backend(VideoRuntimeBackend::Cpu);
    match Video::frame_element(&runtime, &texture, &None, "none") {
        FrameContent::Notice { text, reason } => assert_eq!((text.as_str(), reason), ("none", None)),
        _ => panic!("no notice"),
    }
    let blank = VideoFrameBuffer { width: 0, height: 0, rgba: Vec::new(), pts_samples: 0 };
    let blank = Some(VideoFrameRef::Cpu(&blank));
    assert!(matches!(
        Video::frame_element(&runtime, &blank, &None, "none"),
        FrameContent::Notice { .. }
    ));
}

#[test]
fn files_are_sorted_by_name() {
    let files: Vec<String> = vec!["b", "ä", "a", "", "B", "ab", "b", "\u{10000}", "\u{ffff}"]
        .into_iter()
        .map(|name| name.to_string())
        .collect();
    let mut expected = files.clone();
    expected.sort_unstable();
    assert_eq!(Video::session_video_files(&files), expected);
    assert_eq!(Video::session_video_files(&Vec::new()), Vec::<String>::new());
}

#[test]
fn selected_file_is_marked() {
    let files: Vec<String> = vec!["b.mp4".to_string(), "a.mp4".to_string()];
    match Video::video_file_list(&files, Some("b.mp4")) {
        FileList::Rows(rows) => {
            let rows: Vec<(&str, bool)> =
                rows.iter().map(|row| (row.name.as_str(), row.selected)).collect();
            assert_eq!(rows, vec![("a.mp4", false), ("b.mp4", true)]);
        }
        _ => panic!("no rows"),
    }
    match Video::video_file_list(&Vec::new(), None) {
        FileList::Notice(notice) => assert_eq!(notice, "No files in session/video"),
        _ => panic!("no notice"),
    }
}

#[test]
fn panel_of_a_clip_shows_its_current_frame_or_the_reason() {
    let mut runtime = VideoRuntime::new(None, None);
    let clip = VideoClip { path: "a".to_string(), start: 0, length: 9, offset: 0 };
    let data = VideoClipData { path: "a".to_string(), start: 0, length: 9, offset: 0 };
    let notice = |runtime: &VideoRuntime| match Video::panel_content(runtime, &clip, "none") {
        Served::ByVulkan(FrameContent::Notice { text, reason }) => (text, reason),
        _ => panic!("no notice"),
    };
    assert_eq!(notice(&runtime), ("none".to_string(), None));
    let task = match runtime.request_current_frame(&data, 0, 3) {
        Served::ByVulkan(Some(task)) => task,
        _ => panic!("no decode"),
    };
    assert_eq!(notice(&runtime), ("none".to_string(), Some("Vulkan • loading".to_string())));
    let frame = VideoFrameBuffer { width: 1, height: 2, rgba: vec![5; 8], pts_samples: 3 };
    runtime.commit_decode(&task, Ok(ProducedFrame::by_cpu(frame)));
    match Video::panel_content(&runtime, &clip, "none") {
        Served::ByVulkan(FrameContent::Texture { handle, metadata }) => {
            assert_eq!(handle, VideoTextureHandle { slot: 0, generation: 0 });
            assert_eq!((metadata.width, metadata.height, metadata.pts_samples), (1, 2, 3));
        }
        _ => panic!("no texture"),
    }
    runtime.set_backend(VideoRuntimeBackend::Cpu);
    assert!(matches!(Video::panel_content(&runtime, &clip, "none"), Served::ByCpu));
}

#[test]
fn label_of_a_clip_is_of_its_current_frame_or_its_preview() {
    let mut runtime = VideoRuntime::new(None, None);
    let clip = VideoClip { path: "a".to_string(), start: 0, length: 9, offset: 0 };
    let data = VideoClipData { path: "a".to_string(), start: 0, length: 9, offset: 0 };
    let label = |runtime: &VideoRuntime, current: bool| {
        match Video::clip_load_state_label(runtime, &clip, current) {
            Served::ByVulkan(label) => label,
            Served::ByCpu => panic!("the CPU backend serves"),
        }
    };
    assert_eq!(label(&runtime, true), None);
    let task = match runtime.request_current_frame(&data, 0, 3) {
        Served::ByVulkan(Some(task)) => task,
        _ => panic!("no decode"),
    };
    runtime.commit_decode(&task, Err("broken".to_string()));
    runtime.finish_decode(&task.task.clip_key, false, task.task.generation);
    assert_eq!(label(&runtime, true).as_deref(), Some("Vulkan • broken"));
    assert_eq!(label(&runtime, false), None);
    runtime.request_preview_frame(&data, 0);
    assert_eq!(label(&runtime, false).as_deref(), Some("Vulkan • loading"));
    runtime.set_backend(VideoRuntimeBackend::Cpu);
    assert!(matches!(Video::clip_load_state_label(&runtime, &clip, true), Served::ByCpu));
}
