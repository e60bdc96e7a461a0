use maolan_video::decode::VideoDecoderState;
use maolan_video::frame::Thumb;
use maolan_video::hardware_preview::{
    hardware_strip, requested_preview_samples, HardwareStrip, HardwareStripAction,
    HardwareStripEvent, ScalerShape,
};
use maolan_video::preview::{strip_can_hold, KeyframeAction, KeyframeEvent, KeyframeStrip};
use maolan_video::types::{VideoClipData, VideoFrameBuffer};

fn data(start: usize, length: usize) -> VideoClipData {
    VideoClipData { path: "a".to_string(), start, length, offset: 1000 }
}

fn feed(strip: &mut KeyframeStrip, byte: u8, is_key: bool) -> KeyframeAction {
    strip.resume(KeyframeEvent::Packet(Some(2)));
    strip.resume(KeyframeEvent::Sent(Ok(())));
    let action = strip.resume(KeyframeEvent::Frame(Ok(Some((vec![byte; 4], is_key)))));
    match action {
        KeyframeAction::ReceiveFrame => strip.resume(KeyframeEvent::Frame(Ok(None))),
        other => other,
    }
}

fn strip_of(action: KeyframeAction) -> VideoFrameBuffer {
    match action {
        KeyframeAction::Finish(Ok(strip)) => strip,
        _ => panic!("no strip"),
    }
}

fn bytes_of(strip: &VideoFrameBuffer) -> Vec<u8> {
    strip.rgba.chunks(4).map(|pixel| pixel[0]).collect()
}

#[test]
fn strip_shows_key_frames_only() {
    assert!(strip_can_hold(1, 1));
    let mut strip = KeyframeStrip::new(77, 2, 1, 1);
    assert_eq!(strip.thumb_dimensions(), (1, 1));
    assert!(matches!(strip.resume(KeyframeEvent::Packet(Some(0))), KeyframeAction::ReadPacket));
    feed(&mut strip, 1, false);
    feed(&mut strip, 2, true);
    feed(&mut strip, 3, false);
    feed(&mut strip, 4, true);
    let frame = strip_of(strip.resume(KeyframeEvent::Packet(None)));
    assert_eq!((frame.width, frame.height, frame.pts_samples), (2, 1, 77));
    assert_eq!(bytes_of(&frame), vec![2, 4]);
}

#[test]
fn strip_without_key_frames_shows_the_first_frame() {
    let mut strip = KeyframeStrip::new(0, 2, 1, 1);
    feed(&mut strip, 1, false);
    feed(&mut strip, 2, false);
    let frame = strip_of(strip.resume(KeyframeEvent::Packet(None)));
    assert_eq!(bytes_of(&frame), vec![1]);
}

#[test]
fn strip_ends_with_enough_key_frames_and_spreads_them() {
    let mut strip = KeyframeStrip::new(0, 2, 1, 1);
    for byte in 0..31 {
        assert!(matches!(feed(&mut strip, byte, true), KeyframeAction::ReadPacket));
    }
    let frame = strip_of(feed(&mut strip, 31, true));
    assert_eq!(frame.width, 8);
    assert_eq!(bytes_of(&frame), vec![0, 4, 8, 12, 16, 20, 24, 28]);
}

#[test]
fn strip_of_more_key_frames_than_it_shows_starts_with_the_first() {
    let mut strip = KeyframeStrip::new(0, 2, 1, 1);
    for byte in 0..10 {
        feed(&mut strip, byte, true);
    }
    let frame = strip_of(strip.resume(KeyframeEvent::Packet(None)));
    assert_eq!(bytes_of(&frame), vec![0, 1, 2, 3, 5, 6, 7, 8]);
}

#[test]
fn strip_hands_on_what_failed() {
    let reason = |action| match action {
        KeyframeAction::Finish(Err(reason)) => reason,
        _ => panic!("no failure"),
    };
    let mut strip = KeyframeStrip::new(0, 2, 1, 1);
    assert_eq!(
        reason(strip.resume(KeyframeEvent::Packet(None))),
        "no decoded video frame available"
    );
    let mut strip = KeyframeStrip::new(0, 2, 1, 1);
    strip.resume(KeyframeEvent::Packet(Some(2)));
    assert_eq!(
        reason(strip.resume(KeyframeEvent::Sent(Err("bad".to_string())))),
        "send video packet failed: bad"
    );
    let mut strip = KeyframeStrip::new(0, 2, 1, 1);
    strip.resume(KeyframeEvent::Packet(Some(2)));
    strip.resume(KeyframeEvent::Sent(Ok(())));
    assert_eq!(reason(strip.resume(KeyframeEvent::Frame(Err("odd".to_string())))), "odd");
}

#[test]
fn strip_of_huge_pictures_is_refused() {
    assert!(strip_can_hold(1920, 1080));
    assert!(!strip_can_hold(u32::MAX, 1));
}

#[test]
fn hardware_strip_samples_are_spread_over_the_clip() {
    assert_eq!(
        requested_preview_samples(&data(100, 70)),
        vec![100, 110, 120, 130, 140, 150, 160, 170]
    );
    assert_eq!(requested_preview_samples(&data(100, 3)), vec![100, 101, 102, 103]);
    assert_eq!(requested_preview_samples(&data(100, 0)), vec![100]);
}

fn decoder(clip: &VideoClipData) -> VideoDecoderState {
    VideoDecoderState::hardware(clip.clone(), 0, 2, None)
}

fn picture(byte: u8) -> VideoFrameBuffer {
    VideoFrameBuffer { width: 1, height: 1, rgba: vec![byte; 4], pts_samples: 0 }
}

fn started(clip: &VideoClipData, decoder: &mut VideoDecoderState) -> HardwareStrip {
    let mut strip = HardwareStrip::new(clip, 2);
    assert_eq!(strip.next_local_sample(clip), 1000);
    assert!(matches!(strip.start(600_000), HardwareStripAction::Seek(100_000)));
    assert!(matches!(
        strip.resume(decoder, HardwareStripEvent::Sought(Ok(()))),
        HardwareStripAction::CollectPackets
    ));
    assert!(matches!(
        strip.resume(decoder, HardwareStripEvent::Packet(Some(2))),
        HardwareStripAction::SendPacket
    ));
    assert!(matches!(
        strip.resume(decoder, HardwareStripEvent::Sent(Ok(()))),
        HardwareStripAction::ReceiveFrame
    ));
    strip
}

#[test]
fn one_frame_shows_all_samples_up_to_its_time() {
    let clip = data(100, 1);
    let mut decoder = decoder(&clip);
    let mut strip = started(&clip, &mut decoder);
    let action = strip.resume(
        &mut decoder,
        HardwareStripEvent::Frame(Ok(Some((picture(5), 17)))),
    );
    assert!(matches!(action, HardwareStripAction::Compare(1000)));
    assert_eq!(decoder.current_seconds, Some(17));
    let job = match strip.resume(&mut decoder, HardwareStripEvent::Compared(true)) {
        HardwareStripAction::Scale(job) => job,
        _ => panic!("no thumbnail"),
    };
    assert!(job.new_scaler);
    assert_eq!(
        job.shape,
        ScalerShape { source_width: 1, source_height: 1, width: 1, height: 1 }
    );
    let action = strip.resume(&mut decoder, HardwareStripEvent::Scaled(Ok(vec![5; 4])));
    assert!(matches!(action, HardwareStripAction::Compare(1001)));
    match strip.resume(&mut decoder, HardwareStripEvent::Compared(true)) {
        HardwareStripAction::Scale(job) => assert!(!job.new_scaler),
        _ => panic!("no thumbnail"),
    }
    let thumbs = match strip.resume(&mut decoder, HardwareStripEvent::Scaled(Ok(vec![6; 4]))) {
        HardwareStripAction::Finish(Ok(thumbs)) => thumbs,
        _ => panic!("no thumbnails"),
    };
    let frame = hardware_strip(&thumbs, 100);
    assert_eq!((frame.width, frame.height, frame.pts_samples), (2, 1, 100));
    assert_eq!(bytes_of(&frame), vec![5, 6]);
}

#[test]
fn frame_without_pixels_uses_its_samples_up() {
    let clip = data(100, 0);
    let mut decoder = decoder(&clip);
    let mut strip = started(&clip, &mut decoder);
    let blank = VideoFrameBuffer { width: 0, height: 0, rgba: Vec::new(), pts_samples: 0 };
    strip.resume(&mut decoder, HardwareStripEvent::Frame(Ok(Some((blank, 17)))));
    match strip.resume(&mut decoder, HardwareStripEvent::Compared(true)) {
        HardwareStripAction::Finish(Err(reason)) => {
            assert_eq!(reason, "no decoded hardware preview frame available")
        }
        _ => panic!("no failure"),
    }
}

#[test]
fn hardware_strip_ends_with_the_input() {
    let clip = data(100, 1);
    let mut decoder = decoder(&clip);
    let mut strip = started(&clip, &mut decoder);
    strip.resume(&mut decoder, HardwareStripEvent::Frame(Ok(Some((picture(5), 17)))));
    strip.resume(&mut decoder, HardwareStripEvent::Compared(true));
    strip.resume(&mut decoder, HardwareStripEvent::Scaled(Ok(vec![5; 4])));
    assert!(matches!(
        strip.resume(&mut decoder, HardwareStripEvent::Compared(false)),
        HardwareStripAction::ReceiveFrame
    ));
    strip.resume(&mut decoder, HardwareStripEvent::Frame(Ok(None)));
    assert!(matches!(
        strip.resume(&mut decoder, HardwareStripEvent::Packet(None)),
        HardwareStripAction::SendEnd
    ));
    strip.resume(&mut decoder, HardwareStripEvent::Sent(Ok(())));
    match strip.resume(&mut decoder, HardwareStripEvent::Frame(Ok(None))) {
        HardwareStripAction::Finish(Ok(thumbs)) => assert_eq!(thumbs.len(), 1),
        _ => panic!("no thumbnails"),
    }
}

#[test]
fn hardware_strip_hands_on_what_failed() {
    let reason = |action| match action {
        HardwareStripAction::Finish(Err(reason)) => reason,
        _ => panic!("no failure"),
    };
    let clip = data(100, 1);
    let mut decoder = decoder(&clip);
    let mut strip = HardwareStrip::new(&clip, 2);
    let failed = HardwareStripEvent::Sought(Err("eof".to_string()));
    assert_eq!(reason(strip.resume(&mut decoder, failed)), "video seek failed: eof");

    let mut strip = HardwareStrip::new(&clip, 2);
    strip.resume(&mut decoder, HardwareStripEvent::Sought(Ok(())));
    strip.resume(&mut decoder, HardwareStripEvent::Packet(Some(2)));
    let failed = HardwareStripEvent::Sent(Err("bad".to_string()));
    assert_eq!(
        reason(strip.resume(&mut decoder, failed)),
        "send hardware preview packet failed: bad"
    );

    let mut strip = HardwareStrip::new(&clip, 2);
    strip.resume(&mut decoder, HardwareStripEvent::Sought(Ok(())));
    strip.resume(&mut decoder, HardwareStripEvent::Packet(None));
    let failed = HardwareStripEvent::Sent(Err("gone".to_string()));
    assert_eq!(
        reason(strip.resume(&mut decoder, failed)),
        "flush hardware preview decoder failed: gone"
    );

    let mut unusable = VideoDecoderState::hardware(clip.clone(), 0, 2, Some("no format".to_string()));
    let mut strip = HardwareStrip::new(&clip, 2);
    let sought = HardwareStripEvent::Sought(Ok(()));
    assert_eq!(reason(strip.resume(&mut unusable, sought)), "no format");
}

#[test]
fn thumbnails_of_different_widths_stand_side_by_side() {
    let thumbs = vec![
        Thumb { width: 1, height: 2, pixels: vec![1, 1, 1, 1, 2, 2, 2, 2] },
        Thumb { width: 2, height: 2, pixels: vec![3; 16] },
    ];
    let frame = hardware_strip(&thumbs, 5);
    assert_eq!((frame.width, frame.height), (3, 2));
    assert_eq!(bytes_of(&frame), vec![1, 3, 3, 2, 3, 3]);
}

#[test]
fn samples_are_shown_by_the_first_frame_that_is_due() {
    let clip = data(100, 1);
    let mut decoder = decoder(&clip);
    let mut strip = started(&clip, &mut decoder);
    let frame = |byte: u8| HardwareStripEvent::Frame(Ok(Some((picture(byte), byte as u64))));
    assert!(matches!(strip.resume(&mut decoder, frame(1)), HardwareStripAction::Compare(1000)));
    strip.resume(&mut decoder, HardwareStripEvent::Compared(false));
    assert!(matches!(strip.resume(&mut decoder, frame(2)), HardwareStripAction::Compare(1000)));
    strip.resume(&mut decoder, HardwareStripEvent::Compared(true));
    strip.resume(&mut decoder, HardwareStripEvent::Scaled(Ok(vec![2; 4])));
    strip.resume(&mut decoder, HardwareStripEvent::Compared(false));
    assert!(matches!(strip.resume(&mut decoder, frame(3)), HardwareStripAction::Compare(1001)));
    strip.resume(&mut decoder, HardwareStripEvent::Compared(true));
    match strip.resume(&mut decoder, HardwareStripEvent::Scaled(Ok(vec![3; 4]))) {
        HardwareStripAction::Finish(Ok(thumbs)) => {
            let pixels: Vec<u8> = thumbs.iter().map(|thumb| thumb.pixels[0]).collect();
            assert_eq!(pixels, vec![2, 3]);
        }
        _ => panic!("no thumbnails"),
    }
}
