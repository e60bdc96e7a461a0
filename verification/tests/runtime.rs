use maolan_video::producer::{ProducedFrame, ProducerPlan};
use maolan_video::runtime::{RuntimeTask, Served, VideoRuntime};
use maolan_video::types::{
    VideoClip, VideoClipData, VideoFrameBuffer, VideoFrameLoadState, VideoFrameRef,
    VideoRuntimeBackend, VideoRuntimeBackendPreference,
};
use maolan_video::vulkan::{VulkanDeviceContext, VulkanFrameProducerKind, VulkanRuntimeConfig};

fn data(path: &str) -> VideoClipData {
    VideoClipData { path: path.to_string(), start: 100, length: 200, offset: 7 }
}

fn clip(path: &str) -> VideoClip {
    VideoClip { path: path.to_string(), start: 100, length: 200, offset: 7 }
}

fn frame(byte: u8) -> VideoFrameBuffer {
    VideoFrameBuffer { width: 1, height: 1, rgba: vec![byte; 4], pts_samples: 100 }
}

fn rate() -> u64 {
    48000.0f64.to_bits()
}

fn vulkan_runtime() -> VideoRuntime {
    VideoRuntime::new_with_preferences(
        VideoRuntimeBackendPreference::Auto,
        VulkanFrameProducerKind::CpuUpload,
        None,
    )
}

fn task_of(served: Served<Option<RuntimeTask>>) -> Option<RuntimeTask> {
    match served {
        Served::ByVulkan(task) => task,
        Served::ByCpu => panic!("the CPU backend serves"),
    }
}

#[test]
fn resolve_backend_preference_defaults_to_cpu() {
    assert_eq!(
        VideoRuntime::resolve_backend_preference(VideoRuntimeBackendPreference::Cpu, true),
        VideoRuntimeBackend::Cpu
    );
}

#[test]
fn resolve_backend_preference_uses_auto_when_vulkan_available() {
    assert_eq!(
        VideoRuntime::resolve_backend_preference(VideoRuntimeBackendPreference::Auto, true),
        VideoRuntimeBackend::Vulkan
    );
}

#[test]
fn resolve_backend_preference_auto_falls_back_to_cpu_when_unavailable() {
    assert_eq!(
        VideoRuntime::resolve_backend_preference(VideoRuntimeBackendPreference::Auto, false),
        VideoRuntimeBackend::Cpu
    );
}

#[test]
fn resolve_backend_preference_vulkan_falls_back_to_cpu_when_unavailable() {
    assert_eq!(
        VideoRuntime::resolve_backend_preference(VideoRuntimeBackendPreference::Vulkan, false),
        VideoRuntimeBackend::Cpu
    );
}

#[test]
fn backend_preference_from_env_parses_known_values() {
    assert_eq!(
        "auto".parse::<VideoRuntimeBackendPreference>().ok(),
        Some(VideoRuntimeBackendPreference::Auto)
    );
    assert_eq!(
        "cpu".parse::<VideoRuntimeBackendPreference>().ok(),
        Some(VideoRuntimeBackendPreference::Cpu)
    );
    assert_eq!(
        "vulkan".parse::<VideoRuntimeBackendPreference>().ok(),
        Some(VideoRuntimeBackendPreference::Vulkan)
    );
}

#[test]
fn unknown_backend_names_are_refused() {
    assert!("".parse::<VideoRuntimeBackendPreference>().is_err());
    assert!("gpu".parse::<VideoRuntimeBackendPreference>().is_err());
    assert_eq!(VideoRuntime::backend_preference_from_env(Some("gpu")), None);
    assert_eq!(VideoRuntime::backend_preference_from_env(None), None);
    assert_eq!(
        VideoRuntime::backend_preference_from_env(Some("cpu")),
        Some(VideoRuntimeBackendPreference::Cpu)
    );
}

#[test]
fn runtime_follows_its_settings() {
    let runtime = VideoRuntime::new(None, None);
    assert_eq!(runtime.backend(), VideoRuntimeBackend::Vulkan);
    assert_eq!(runtime.backend_preference(), VideoRuntimeBackendPreference::Auto);
    assert_eq!(runtime.vulkan_producer_kind(), VulkanFrameProducerKind::Auto);
    assert_eq!(runtime.vulkan_plan(), ProducerPlan::HardwarePreferred);

    let runtime = VideoRuntime::new(Some("cpu"), Some("  CPU-Upload \n"));
    assert_eq!(runtime.backend(), VideoRuntimeBackend::Cpu);
    assert_eq!(runtime.vulkan_producer_kind(), VulkanFrameProducerKind::CpuUpload);
    assert_eq!(runtime.vulkan_plan(), ProducerPlan::CpuUpload);

    let runtime = VideoRuntime::new(Some("nonsense"), Some("Hardware"));
    assert_eq!(runtime.backend_preference(), VideoRuntimeBackendPreference::Auto);
    assert_eq!(runtime.vulkan_producer_kind(), VulkanFrameProducerKind::Hardware);
}

#[test]
fn cpu_backend_is_left_to_the_caller() {
    let mut runtime = vulkan_runtime();
    runtime.set_backend(VideoRuntimeBackend::Cpu);
    assert_eq!(runtime.backend(), VideoRuntimeBackend::Cpu);
    assert!(runtime.texture_registry().is_none());
    assert!(matches!(runtime.preview_frame(&clip("a")), Served::ByCpu));
    assert!(matches!(runtime.current_frame(&clip("a")), Served::ByCpu));
    assert!(matches!(runtime.preview_load_state(&clip("a")), Served::ByCpu));
    assert!(matches!(runtime.current_load_state(&clip("a")), Served::ByCpu));
    assert!(matches!(runtime.request_preview_frame(&data("a"), rate()), Served::ByCpu));
    assert!(matches!(runtime.request_current_frame(&data("a"), rate(), 3), Served::ByCpu));
    assert!(matches!(runtime.finish_decode(&"a".to_string(), true, 1), Served::ByCpu));
    assert!(matches!(runtime.retain_clip_keys(&Vec::new()), Served::ByCpu));

    runtime.set_backend(VideoRuntimeBackend::Vulkan);
    assert_eq!(runtime.backend(), VideoRuntimeBackend::Vulkan);
    assert!(runtime.texture_registry().is_some());
    runtime.set_backend_preference(VideoRuntimeBackendPreference::Cpu);
    assert_eq!(runtime.backend(), VideoRuntimeBackend::Cpu);
}

#[test]
fn decoded_frame_tells_its_producer() {
    let mut runtime = vulkan_runtime();
    let task = task_of(runtime.request_current_frame(&data("a.mp4"), rate(), 150)).unwrap();
    let mut produced = ProducedFrame::by_cpu(frame(9));
    produced.fallback_reason = Some("vaapi-upload -> no device".to_string());
    assert!(runtime.commit_decode(&task, Ok(produced)));
    let shown = clip("a.mp4");
    let found = match runtime.current_frame(&shown) {
        Served::ByVulkan(Some(found)) => found,
        _ => panic!("no frame"),
    };
    let info = runtime.frame_debug_info(&found).unwrap();
    assert_eq!(info.producer_label, "cpu-upload");
    assert_eq!(info.fallback_reason.as_deref(), Some("vaapi-upload -> no device"));

    let buffer = frame(1);
    let info = runtime.frame_debug_info(&VideoFrameRef::Cpu(&buffer)).unwrap();
    assert_eq!(info.producer_label, "cpu");
    assert_eq!(info.fallback_reason, None);

    runtime.set_backend(VideoRuntimeBackend::Cpu);
    assert_eq!(runtime.frame_debug_info(&found), None);
}

#[test]
fn decode_for_an_earlier_backend_is_dropped() {
    let mut runtime = vulkan_runtime();
    let task = task_of(runtime.request_preview_frame(&data("a.mp4"), rate())).unwrap();
    runtime.set_preferences(
        VideoRuntimeBackendPreference::Auto,
        VulkanFrameProducerKind::CpuUpload,
        None,
    );
    let again = task_of(runtime.request_preview_frame(&data("a.mp4"), rate())).unwrap();
    assert_eq!(again.task.generation, task.task.generation);
    assert!(!runtime.commit_decode(&task, Ok(ProducedFrame::by_cpu(frame(1)))));
    let shown = clip("a.mp4");
    assert!(matches!(runtime.preview_frame(&shown), Served::ByVulkan(None)));
    assert!(runtime.commit_decode(&again, Ok(ProducedFrame::by_cpu(frame(2)))));
    assert!(matches!(runtime.preview_frame(&shown), Served::ByVulkan(Some(_))));
}

#[test]
fn configured_backend_starts_without_frames() {
    let mut runtime = vulkan_runtime();
    let task = task_of(runtime.request_preview_frame(&data("a.mp4"), rate())).unwrap();
    assert!(runtime.commit_decode(&task, Err("broken".to_string())));
    assert!(task_of(runtime.finish_decode(&task.task.clip_key, true, 1)).is_none());
    let shown = clip("a.mp4");
    match runtime.current_load_state(&shown) {
        Served::ByVulkan(Some(VideoFrameLoadState::Failed(reason))) => assert_eq!(reason, "broken"),
        _ => panic!("no failure"),
    }
    runtime.configure_vulkan_backend(
        VulkanRuntimeConfig {
            device: VulkanDeviceContext {
                device_label: "other".to_string(),
                queue_family_index: 2,
            },
            decode_queue_family_index: 3,
            presentation_queue_family_index: 4,
        },
        VulkanFrameProducerKind::Hardware,
        None,
    );
    assert_eq!(runtime.backend(), VideoRuntimeBackend::Vulkan);
    assert_eq!(runtime.vulkan_producer_kind(), VulkanFrameProducerKind::Hardware);
    assert!(matches!(runtime.current_load_state(&shown), Served::ByVulkan(None)));
}
