use maolan_video::clip_key::clip_data_key;
use maolan_video::decode::FoundFrame;
use maolan_video::hwaccel::{
    codec_supports_hwdevice, find_hwdevice_decoder, has_hwdevice_support, missing_hwdevice,
    select_pixel_format, CodecCandidate, DeviceQuery, HardwareConfig, HardwareDevice,
    PixelFormatChoice,
};
use maolan_video::producer::{
    CapabilityAwareFrameProducer, DecoderCache, HardwareDecodeRoute, ProducedFrame,
    ProducerAction, ProducerEvent, ProducerPlan,
};
use maolan_video::types::{VideoClipData, VideoFrameBuffer};

fn query() -> DeviceQuery {
    DeviceQuery { device: HardwareDevice::Vaapi, device_type: 3, device_method: 1, frames_method: 2 }
}

fn config(device_type: i32, pix_fmt: i32, methods: i32) -> HardwareConfig {
    HardwareConfig { device_type, pix_fmt, pix_fmt_name: Some(format!("fmt{pix_fmt}")), methods }
}

fn codec(name: &str, id: i32, configs: Vec<HardwareConfig>) -> CodecCandidate {
    CodecCandidate { name: name.to_string(), is_decoder: true, is_video: true, id, configs }
}

#[test]
fn last_configuration_of_the_device_gives_the_format() {
    let codec = codec("h264", 1, vec![config(3, 10, 2), config(4, 11, 3), config(3, 12, 0)]);
    let probe = codec_supports_hwdevice(&codec, query()).unwrap();
    assert_eq!(probe.codec_name, "h264");
    assert_eq!(probe.hw_pix_fmt, Some(12));
    assert_eq!(probe.hw_pix_fmt_name.as_deref(), Some("fmt12"));
    assert!(probe.frames_method && !probe.device_method);
    assert!(probe.requires_frames_ctx());
    assert_eq!(probe.missing_format(HardwareDevice::Vaapi), None);
}

#[test]
fn codec_without_configuration_is_refused() {
    let codec = codec("h264", 1, vec![config(4, 11, 3), config(3, 12, 4)]);
    assert_eq!(
        codec_supports_hwdevice(&codec, query()).unwrap_err(),
        "codec `h264` exposes no vaapi hardware configuration"
    );
}

#[test]
fn first_decoder_that_uses_the_device_is_found() {
    let mut encoder = codec("enc", 1, vec![config(3, 10, 1)]);
    encoder.is_decoder = false;
    let codecs = vec![
        encoder,
        codec("soft", 1, Vec::new()),
        codec("other", 2, vec![config(3, 10, 1)]),
        codec("hard", 1, vec![config(3, 10, 1)]),
        codec("late", 1, vec![config(3, 10, 1)]),
    ];
    let (at, probe) = find_hwdevice_decoder(&codecs, 1, "H264", query()).unwrap();
    assert_eq!((at, probe.codec_name.as_str()), (3, "hard"));
    assert!(!probe.requires_frames_ctx());
    assert_eq!(
        find_hwdevice_decoder(&codecs[..3].iter().map(copy).collect(), 1, "H264", query())
            .unwrap_err(),
        "codec `soft` exposes no vaapi hardware configuration"
    );
    assert_eq!(
        find_hwdevice_decoder(&codecs, 9, "AV1", query()).unwrap_err(),
        "no video decoder found for codec id AV1 with vaapi hardware support"
    );
}

fn copy(codec: &CodecCandidate) -> CodecCandidate {
    CodecCandidate {
        name: codec.name.clone(),
        is_decoder: codec.is_decoder,
        is_video: codec.is_video,
        id: codec.id,
        configs: codec.configs.iter().map(|c| config(c.device_type, c.pix_fmt, c.methods)).collect(),
    }
}

#[test]
fn devices_and_formats_are_looked_up() {
    assert!(has_hwdevice_support(&vec![1, 3], 3));
    assert!(!has_hwdevice_support(&vec![1, 3], 2));
    assert_eq!(missing_hwdevice(&vec![1, 3], query()), None);
    assert_eq!(
        missing_hwdevice(&vec![1, 2], query()).as_deref(),
        Some("FFmpeg was built without vaapi hwdevice support")
    );
    assert_eq!(select_pixel_format(&vec![1, 2], 2, false), PixelFormatChoice::Hardware);
    assert_eq!(select_pixel_format(&vec![1, 2], 2, true), PixelFormatChoice::HardwareWithFrames);
    assert_eq!(select_pixel_format(&vec![1, 2], 3, true), PixelFormatChoice::DecoderDefault);
}

#[test]
fn devices_have_names() {
    assert_eq!(HardwareDevice::Vulkan.producer_label(), "vulkan-hardware");
    assert_eq!(HardwareDevice::Vulkan.device_label(), "vulkan");
    assert_eq!(HardwareDevice::Vaapi.producer_label(), "vaapi-upload");
    assert_eq!(HardwareDevice::Vaapi.device_label(), "vaapi");
}

#[test]
fn missing_format_is_told() {
    let codec = codec("h264", 1, vec![config(3, 10, 1)]);
    let mut probe = codec_supports_hwdevice(&codec, query()).unwrap();
    probe.hw_pix_fmt = None;
    assert_eq!(
        probe.missing_format(HardwareDevice::Vulkan).as_deref(),
        Some("codec `h264` has no vulkan hw pixel format")
    );
}

fn data(path: &str) -> VideoClipData {
    VideoClipData { path: path.to_string(), start: 1, length: 2, offset: 3 }
}

fn frame() -> VideoFrameBuffer {
    VideoFrameBuffer { width: 1, height: 1, rgba: vec![9; 4], pts_samples: 1 }
}

fn outcome(action: ProducerAction) -> Result<ProducedFrame, String> {
    match action {
        ProducerAction::Finish(outcome) => outcome,
        _ => panic!("not finished"),
    }
}

#[test]
fn clip_is_probed_before_its_first_frame_only() {
    let mut producer = CapabilityAwareFrameProducer::probed(HardwareDevice::Vulkan);
    assert_eq!(producer.label(), "vulkan-hardware");
    let clip = data("a");
    let (mut attempt, action) = producer.begin(&clip);
    assert!(matches!(action, ProducerAction::Probe));
    let action = producer.resume(&mut attempt, ProducerEvent::Probed(Ok(())));
    assert!(matches!(action, ProducerAction::DecodePrimary));
    let produced = ProducedFrame::by_device(frame(), HardwareDevice::Vulkan);
    let produced = outcome(producer.resume(&mut attempt, ProducerEvent::Primary(Ok(produced))));
    let produced = produced.unwrap();
    assert_eq!(produced.producer_label, "vulkan-hardware");
    assert_eq!(produced.fallback_reason, None);
    assert!(matches!(producer.begin(&clip).1, ProducerAction::DecodePrimary));

    producer.retain_clip_keys(&vec![clip_data_key(&clip)]);
    assert!(matches!(producer.begin(&clip).1, ProducerAction::DecodePrimary));
    producer.retain_clip_keys(&Vec::new());
    assert!(matches!(producer.begin(&clip).1, ProducerAction::Probe));
}

#[test]
fn refused_clip_goes_to_the_second_producer() {
    let mut producer = CapabilityAwareFrameProducer::probed(HardwareDevice::Vulkan);
    let clip = data("a");
    let (mut attempt, _) = producer.begin(&clip);
    let action = producer.resume(&mut attempt, ProducerEvent::Probed(Err("none".to_string())));
    assert!(matches!(action, ProducerAction::DecodeFallback));
    let produced = ProducerEvent::Fallback(Ok(ProducedFrame::by_cpu(frame())));
    let produced = outcome(producer.resume(&mut attempt, produced)).unwrap();
    assert_eq!(produced.producer_label, "cpu-upload");
    assert_eq!(produced.fallback_reason.as_deref(), Some("vulkan-hardware probe -> none"));
    assert!(matches!(producer.begin(&clip).1, ProducerAction::DecodeFallback));
    assert!(matches!(producer.route_for_clip(&clip), Some(HardwareDecodeRoute::Fallback(_))));
    assert!(producer.route_for_clip(&data("b")).is_none());
}

#[test]
fn failed_clip_stays_with_the_second_producer() {
    let mut producer = CapabilityAwareFrameProducer::probed(HardwareDevice::Vaapi);
    let clip = data("a");
    let (mut attempt, _) = producer.begin(&clip);
    producer.resume(&mut attempt, ProducerEvent::Probed(Ok(())));
    let action = producer.resume(&mut attempt, ProducerEvent::Primary(Err("lost".to_string())));
    assert!(matches!(action, ProducerAction::DecodeFallback));
    let produced = ProducerEvent::Fallback(Ok(ProducedFrame::by_cpu(frame())));
    let produced = outcome(producer.resume(&mut attempt, produced)).unwrap();
    assert_eq!(produced.fallback_reason.as_deref(), Some("vaapi-upload -> lost"));

    let (mut later, action) = producer.begin(&clip);
    assert!(matches!(action, ProducerAction::DecodeFallback));
    let failed = ProducerEvent::Fallback(Err("worse".to_string()));
    assert_eq!(outcome(producer.resume(&mut later, failed)).unwrap_err(), "worse");
}

#[test]
fn pair_without_probes_tries_the_first_producer_every_time() {
    let mut producer = CapabilityAwareFrameProducer::new("first");
    assert_eq!(producer.label(), "capability-aware");
    let clip = data("a");
    let (mut attempt, action) = producer.begin(&clip);
    assert!(matches!(action, ProducerAction::DecodePrimary));
    producer.resume(&mut attempt, ProducerEvent::Primary(Err("lost".to_string())));
    assert!(matches!(producer.begin(&clip).1, ProducerAction::DecodePrimary));
    producer.mark_fallback(&clip, "known".to_string());
    assert!(matches!(producer.begin(&clip).1, ProducerAction::DecodeFallback));
}

#[test]
fn kept_frame_goes_by_the_name_of_hardware() {
    let kept = FoundFrame { frame: frame(), kept: true };
    assert_eq!(
        ProducedFrame::by_search(kept, HardwareDevice::Vaapi).producer_label,
        "hardware"
    );
    let fresh = FoundFrame { frame: frame(), kept: false };
    assert_eq!(
        ProducedFrame::by_search(fresh, HardwareDevice::Vaapi).producer_label,
        "vaapi-upload"
    );
}

#[test]
fn decoders_are_kept_per_clip_and_rate() {
    let mut cache: DecoderCache<u32> = DecoderCache::new();
    cache.insert(&data("a"), 1, 10);
    cache.insert(&data("a"), 2, 20);
    cache.insert(&data("b"), 1, 30);
    assert!(cache.contains(&data("a"), 2));
    assert!(!cache.contains(&data("b"), 2));
    cache.get_mut(&data("a"), 1).unwrap().decoder = 11;
    assert_eq!(cache.get_mut(&data("a"), 1).unwrap().decoder, 11);
    cache.retain_clip_keys(&vec![clip_data_key(&data("a"))]);
    assert!(cache.contains(&data("a"), 1) && cache.contains(&data("a"), 2));
    assert!(cache.get_mut(&data("b"), 1).is_none());
}

#[test]
fn plans_list_their_devices() {
    assert_eq!(ProducerPlan::CpuUpload.devices(), Vec::new());
    assert_eq!(
        ProducerPlan::HardwarePreferred.devices(),
        vec![HardwareDevice::Vulkan, HardwareDevice::Vaapi]
    );
}
