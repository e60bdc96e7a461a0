use maolan_video::clip_key::clip_key;
use maolan_video::lane::DecodeTask;
use maolan_video::producer::{ProducedFrame, ProducerPlan};
use maolan_video::surface::texture_upload;
use maolan_video::types::{
    VideoClip, VideoClipData, VideoFrameBuffer, VideoFrameLoadState, VideoFrameRef,
    VideoRuntimeBackend, VideoTextureHandle,
};
use maolan_video::vulkan::{
    VulkanBackend, VulkanDeviceContext, VulkanFrameProducerKind, VulkanRuntimeConfig,
};

fn config() -> VulkanRuntimeConfig {
    VulkanRuntimeConfig {
        device: VulkanDeviceContext { device_label: "test".to_string(), queue_family_index: 1 },
        decode_queue_family_index: 2,
        presentation_queue_family_index: 3,
    }
}

fn backend() -> VulkanBackend {
    VulkanBackend::with_config(config())
}

fn data(path: &str) -> VideoClipData {
    VideoClipData { path: path.to_string(), start: 10, length: 20, offset: 5 }
}

fn clip(path: &str) -> VideoClip {
    VideoClip { path: path.to_string(), start: 10, length: 20, offset: 5 }
}

fn produced(byte: u8) -> Result<ProducedFrame, String> {
    Ok(ProducedFrame::by_cpu(VideoFrameBuffer {
        width: 1,
        height: 2,
        rgba: vec![byte; 8],
        pts_samples: 10,
    }))
}

fn handle_of(frame: Option<VideoFrameRef<'_>>) -> Option<VideoTextureHandle> {
    match frame {
        Some(VideoFrameRef::Gpu { handle, .. }) => Some(handle),
        _ => None,
    }
}

fn finish(backend: &mut VulkanBackend, task: &DecodeTask) -> Option<DecodeTask> {
    backend.finish_decode(task.clip_key.clone(), task.preview, task.generation)
}

#[test]
fn producer_kinds_are_offered_and_named() {
    let names: Vec<String> =
        VulkanFrameProducerKind::ALL.iter().map(|kind| kind.to_string()).collect();
    assert_eq!(names, vec!["Auto", "CPU Upload", "Hardware"]);
    assert_eq!(VulkanFrameProducerKind::default(), VulkanFrameProducerKind::Auto);
}

#[test]
fn setting_decides_on_the_default_producer_only() {
    let plan = |kind: VulkanFrameProducerKind, setting| {
        VulkanBackend::with_producer_kind(config(), kind, setting).plan()
    };
    assert_eq!(plan(VulkanFrameProducerKind::Auto, None), ProducerPlan::HardwarePreferred);
    assert_eq!(plan(VulkanFrameProducerKind::Auto, Some(" CPU-upload ")), ProducerPlan::CpuUpload);
    assert_eq!(
        plan(VulkanFrameProducerKind::Auto, Some("hardware")),
        ProducerPlan::HardwarePreferred
    );
    assert_eq!(
        plan(VulkanFrameProducerKind::Auto, Some("else")),
        ProducerPlan::HardwarePreferred
    );
    assert_eq!(
        plan(VulkanFrameProducerKind::Hardware, Some("cpu-upload")),
        ProducerPlan::HardwarePreferred
    );
    assert_eq!(
        plan(VulkanFrameProducerKind::CpuUpload, Some("hardware")),
        ProducerPlan::CpuUpload
    );
}

#[test]
fn backend_without_device_serves_nothing() {
    let mut backend = VulkanBackend::new();
    assert!(!backend.is_available());
    assert!(backend.config().is_none());
    assert_eq!(backend.kind(), VideoRuntimeBackend::Vulkan);
    assert!(backend.request_preview_frame(data("a"), 0).is_none());
    assert!(backend.request_current_frame(data("a"), 0, 12).is_none());
    assert!(backend.preview_frame(&clip("a")).is_none());
    assert!(backend.current_load_state(&clip("a")).is_none());
}

#[test]
fn backend_keeps_its_configuration() {
    let backend = VulkanBackend::with_frame_producer(config(), ProducerPlan::HardwarePreferred);
    assert!(backend.is_available());
    assert_eq!(backend.producer_kind(), VulkanFrameProducerKind::CpuUpload);
    assert_eq!(backend.plan(), ProducerPlan::HardwarePreferred);
    let config = backend.config().unwrap();
    assert_eq!(config.device.device_label, "test");
    assert_eq!(config.device.queue_family_index, 1);
    assert_eq!(config.decode_queue_family_index, 2);
    assert_eq!(config.presentation_queue_family_index, 3);
}

#[test]
fn preview_decodes_from_the_start_of_the_clip() {
    let mut backend = backend();
    let task = backend.request_preview_frame(data("a"), 7).unwrap();
    assert_eq!(task.clip_key, "a:10:20:5");
    assert_eq!(task.clip.path, "a");
    assert_eq!(task.sample_rate, 7);
    assert_eq!(task.sample, 10);
    assert_eq!(task.generation, 1);
    assert!(task.preview);
}

#[test]
fn requests_during_a_decode_lead_to_one_more() {
    let mut backend = backend();
    let first = backend.request_current_frame(data("a"), 7, 11).unwrap();
    assert!(backend.request_current_frame(data("a"), 7, 12).is_none());
    assert!(backend.request_current_frame(data("a"), 8, 13).is_none());
    assert!(backend.request_current_frame(data("b"), 7, 11).is_some());
    assert!(backend.request_preview_frame(data("a"), 7).is_some());

    let second = finish(&mut backend, &first).unwrap();
    assert_eq!((second.sample, second.sample_rate, second.generation), (13, 8, 3));
    assert!(!second.preview);
    assert!(finish(&mut backend, &first).is_none());
    assert!(matches!(
        backend.current_load_state(&clip("a")),
        Some(VideoFrameLoadState::Loading)
    ));
    assert!(finish(&mut backend, &second).is_none());
    assert_eq!(backend.request_current_frame(data("a"), 7, 14).unwrap().generation, 4);
}

#[test]
fn frames_replace_each_other_in_one_texture() {
    let mut backend = backend();
    let task = backend.request_preview_frame(data("a"), 7).unwrap();
    assert!(backend.preview_frame(&clip("a")).is_none());
    assert!(backend.commit_decode(&task, produced(1)));
    let handle = handle_of(backend.preview_frame(&clip("a"))).unwrap();
    assert_eq!(backend.texture_registry().get(&handle).unwrap().revision, 0);
    assert!(backend.preview_load_state(&clip("a")).is_none());
    assert!(backend.current_frame(&clip("a")).is_none());

    assert!(backend.commit_decode(&task, produced(2)));
    assert_eq!(handle_of(backend.preview_frame(&clip("a"))), Some(handle));
    let texture = backend.texture_registry().get(&handle).unwrap();
    assert_eq!(texture.revision, 1);
    assert_eq!(texture.producer_label, "cpu-upload");
    assert_eq!((texture.metadata.width, texture.metadata.height), (1, 2));
    assert_eq!(texture.metadata.pts_samples, 10);
}

#[test]
fn result_of_a_decode_that_is_over_is_dropped() {
    let mut backend = backend();
    let task = backend.request_preview_frame(data("a"), 7).unwrap();
    assert!(finish(&mut backend, &task).is_none());
    assert!(!backend.commit_decode(&task, produced(1)));
    assert!(backend.preview_frame(&clip("a")).is_none());
}

#[test]
fn failures_are_told_until_the_next_request() {
    let mut backend = backend();
    let task = backend.request_preview_frame(data("a"), 7).unwrap();
    assert!(backend.commit_decode(&task, Err("no stream".to_string())));
    assert!(matches!(
        backend.preview_load_state(&clip("a")),
        Some(VideoFrameLoadState::Loading)
    ));
    finish(&mut backend, &task);
    match backend.preview_load_state(&clip("a")) {
        Some(VideoFrameLoadState::Failed(reason)) => assert_eq!(reason, "no stream"),
        _ => panic!("no failure"),
    }
    match backend.current_load_state(&clip("a")) {
        Some(VideoFrameLoadState::Failed(reason)) => assert_eq!(reason, "no stream"),
        _ => panic!("no failure of the preview"),
    }
    backend.request_preview_frame(data("a"), 7);
    assert!(matches!(
        backend.preview_load_state(&clip("a")),
        Some(VideoFrameLoadState::Loading)
    ));
}

#[test]
fn frame_without_pixels_is_a_failure() {
    let mut backend = backend();
    let task = backend.request_current_frame(data("a"), 7, 12).unwrap();
    let blank = VideoFrameBuffer { width: 0, height: 2, rgba: vec![1], pts_samples: 0 };
    assert!(backend.commit_decode(&task, Ok(ProducedFrame::by_cpu(blank))));
    finish(&mut backend, &task);
    match backend.current_load_state(&clip("a")) {
        Some(VideoFrameLoadState::Failed(reason)) => {
            assert_eq!(reason, "decoded video frame was empty")
        }
        _ => panic!("no failure"),
    }
}

#[test]
fn retaining_keeps_the_named_clips_only() {
    let mut backend = backend();
    let a = backend.request_preview_frame(data("a"), 7).unwrap();
    let b = backend.request_preview_frame(data("b"), 7).unwrap();
    backend.commit_decode(&a, produced(1));
    backend.commit_decode(&b, produced(2));
    let kept = handle_of(backend.preview_frame(&clip("b"))).unwrap();
    let dropped = handle_of(backend.preview_frame(&clip("a"))).unwrap();

    backend.retain_clip_keys(&vec![clip_key(&clip("b"))]);
    assert!(backend.preview_frame(&clip("a")).is_none());
    assert_eq!(handle_of(backend.preview_frame(&clip("b"))), Some(kept));
    assert!(backend.texture_registry().get(&dropped).is_none());
    assert!(backend.texture_registry().get(&kept).is_some());
    assert!(!backend.commit_decode(&a, produced(3)));
    assert!(finish(&mut backend, &a).is_none());
    assert!(backend.preview_frame(&clip("a")).is_none());
    assert!(backend.commit_decode(&b, produced(3)));
}

#[test]
fn frame_of_a_session_path_serves_the_clip() {
    let mut backend = backend();
    let task = backend.request_current_frame(data("/session/video/a.mp4"), 7, 12).unwrap();
    backend.commit_decode(&task, produced(1));
    assert!(backend.current_frame(&clip("video/a.mp4")).is_some());
    assert!(backend.current_frame(&clip("video/b.mp4")).is_none());
    let mut later = clip("video/a.mp4");
    later.start = 11;
    assert!(backend.current_frame(&later).is_none());
}

#[test]
fn every_decoded_frame_is_uploaded_again() {
    let mut backend = backend();
    let task = backend.request_preview_frame(data("a"), 7).unwrap();
    backend.commit_decode(&task, produced(1));
    let handle = handle_of(backend.preview_frame(&clip("a"))).unwrap();
    let upload = texture_upload(backend.texture_registry(), &handle, None).unwrap();
    assert_eq!(*upload.pixels, vec![1; 8]);
    let revision = upload.revision;
    assert!(texture_upload(backend.texture_registry(), &handle, Some(revision)).is_none());
    backend.commit_decode(&task, produced(2));
    let upload = texture_upload(backend.texture_registry(), &handle, Some(revision)).unwrap();
    assert_eq!(*upload.pixels, vec![2; 8]);
}

#[test]
fn frames_of_other_clips_stay_as_they_are() {
    let mut backend = backend();
    let a = backend.request_preview_frame(data("a"), 7).unwrap();
    let b = backend.request_current_frame(data("a"), 7, 12).unwrap();
    backend.commit_decode(&a, produced(1));
    backend.commit_decode(&b, produced(2));
    let preview = handle_of(backend.preview_frame(&clip("a"))).unwrap();
    let current = handle_of(backend.current_frame(&clip("a"))).unwrap();
    assert_ne!(preview, current);
    let upload = texture_upload(backend.texture_registry(), &preview, None).unwrap();
    assert_eq!(*upload.pixels, vec![1; 8]);
    let upload = texture_upload(backend.texture_registry(), &current, None).unwrap();
    assert_eq!(*upload.pixels, vec![2; 8]);
}

#[test]
fn reason_is_told_only_where_no_frame_is_shown() {
    let mut backend = backend();
    let first = backend.request_current_frame(data("/s/a"), 7, 12).unwrap();
    let second = backend.request_current_frame(data("/t/a"), 7, 12).unwrap();
    let own = backend.request_current_frame(data("a"), 7, 12).unwrap();
    assert!(backend.current_frame(&clip("a")).is_none());
    assert!(matches!(backend.current_load_state(&clip("a")), Some(VideoFrameLoadState::Loading)));
    backend.commit_decode(&first, produced(1));
    backend.commit_decode(&second, produced(2));
    let shown = handle_of(backend.current_frame(&clip("a")));
    assert!(shown.is_some());
    assert!(backend.current_load_state(&clip("a")).is_none());
    assert_eq!(handle_of(backend.current_frame(&clip("a"))), shown);
    backend.commit_decode(&own, produced(3));
    assert_ne!(handle_of(backend.current_frame(&clip("a"))), shown);
}
