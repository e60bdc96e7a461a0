use maolan_video::decode::{
    choose_frame_rate, clip_local_sample, seek_position_us, DecodedFrame, FrameRate, SearchAction,
    SearchEvent, SearchTarget, VideoDecoderState,
};
use maolan_video::types::{VideoClipData, VideoFrameBuffer};

fn data() -> VideoClipData {
    VideoClipData { path: "a".to_string(), start: 100, length: 50, offset: 1000 }
}

fn frame(byte: u8) -> VideoFrameBuffer {
    VideoFrameBuffer { width: 1, height: 1, rgba: vec![byte; 4], pts_samples: byte as usize }
}

fn decoded(byte: u8, reaches: bool) -> SearchEvent {
    SearchEvent::Frame(Ok(Some(DecodedFrame { frame: frame(byte), seconds: byte as u64, reaches })))
}

fn target() -> SearchTarget {
    SearchTarget { behind: false, far_ahead: false, target_us: 2_000_000, kept_reaches: false }
}

fn decoder() -> VideoDecoderState {
    VideoDecoderState::new(data(), 48000.0f64.to_bits(), 3)
}

fn hardware(missing_format: Option<String>) -> VideoDecoderState {
    VideoDecoderState::hardware(data(), 48000.0f64.to_bits(), 3, missing_format)
}

fn found(action: SearchAction) -> (u8, bool) {
    match action {
        SearchAction::Finish(Ok(found)) => (found.frame.rgba[0], found.kept),
        _ => panic!("no frame"),
    }
}

fn reason(action: SearchAction) -> String {
    match action {
        SearchAction::Finish(Err(reason)) => reason,
        _ => panic!("no failure"),
    }
}

#[test]
fn local_sample_follows_the_timeline_inside_the_clip() {
    assert_eq!(clip_local_sample(&data(), 100), 1000);
    assert_eq!(clip_local_sample(&data(), 130), 1030);
    assert_eq!(clip_local_sample(&data(), 150), 1050);
}

#[test]
fn local_sample_stays_inside_the_clip() {
    assert_eq!(clip_local_sample(&data(), 0), 1000);
    assert_eq!(clip_local_sample(&data(), 151), 1050);
    assert_eq!(clip_local_sample(&data(), usize::MAX), 1050);
    let huge = VideoClipData { path: String::new(), start: 0, length: usize::MAX, offset: 5 };
    assert_eq!(clip_local_sample(&huge, usize::MAX), usize::MAX);
}

#[test]
fn seek_goes_before_its_target() {
    assert_eq!(seek_position_us(2_000_000), 1_500_000);
    assert_eq!(seek_position_us(0), -500_000);
    assert_eq!(seek_position_us(i64::MIN + 1), i64::MIN);
}

#[test]
fn frame_rate_is_the_first_that_can_be_used() {
    let rate = |numerator, denominator| FrameRate { numerator, denominator };
    assert_eq!(choose_frame_rate(rate(30, 1), rate(24, 1)), rate(30, 1));
    assert_eq!(choose_frame_rate(rate(0, 1), rate(24, 1)), rate(24, 1));
    assert_eq!(choose_frame_rate(rate(30, 0), rate(-1, 1)), rate(25, 1));
}

#[test]
fn search_gives_the_first_frame_at_the_target() {
    let mut decoder = decoder();
    assert!(matches!(decoder.decode_frame_at_sample(target()), SearchAction::ReadPacket));
    assert!(matches!(decoder.resume(SearchEvent::Packet(Some(1))), SearchAction::ReadPacket));
    assert!(matches!(decoder.resume(SearchEvent::Packet(Some(3))), SearchAction::SendPacket));
    assert!(matches!(decoder.resume(SearchEvent::Sent(Ok(()))), SearchAction::ReceiveFrame));
    assert!(matches!(decoder.resume(decoded(1, false)), SearchAction::ReceiveFrame));
    assert!(matches!(decoder.resume(SearchEvent::Frame(Ok(None))), SearchAction::ReadPacket));
    assert!(matches!(decoder.resume(SearchEvent::Packet(Some(3))), SearchAction::SendPacket));
    assert!(matches!(decoder.resume(SearchEvent::Sent(Ok(()))), SearchAction::ReceiveFrame));
    assert_eq!(found(decoder.resume(decoded(2, true))), (2, false));
    assert_eq!(decoder.current_seconds, Some(2));

    let mut kept = target();
    kept.kept_reaches = true;
    assert_eq!(found(decoder.decode_frame_at_sample(kept)), (2, true));
}

#[test]
fn search_gives_the_last_frame_where_the_input_ends() {
    let mut decoder = decoder();
    decoder.decode_frame_at_sample(target());
    decoder.resume(SearchEvent::Packet(Some(3)));
    decoder.resume(SearchEvent::Sent(Ok(())));
    decoder.resume(decoded(1, false));
    decoder.resume(decoded(2, false));
    decoder.resume(SearchEvent::Frame(Ok(None)));
    assert_eq!(found(decoder.resume(SearchEvent::Packet(None))), (2, false));
}

#[test]
fn search_without_any_frame_fails() {
    let mut decoder = decoder();
    decoder.decode_frame_at_sample(target());
    assert_eq!(
        reason(decoder.resume(SearchEvent::Packet(None))),
        "no decoded video frame available"
    );
}

#[test]
fn search_hands_on_what_failed() {
    let mut decoder = decoder();
    decoder.decode_frame_at_sample(target());
    decoder.resume(SearchEvent::Packet(Some(3)));
    assert_eq!(
        reason(decoder.resume(SearchEvent::Sent(Err("bad".to_string())))),
        "send video packet failed: bad"
    );
    decoder.decode_frame_at_sample(target());
    decoder.resume(SearchEvent::Packet(Some(3)));
    decoder.resume(SearchEvent::Sent(Ok(())));
    assert_eq!(reason(decoder.resume(SearchEvent::Frame(Err("odd".to_string())))), "odd");
}

#[test]
fn search_behind_the_last_frame_seeks_and_forgets() {
    let mut decoder = decoder();
    decoder.decode_frame_at_sample(target());
    decoder.resume(SearchEvent::Packet(Some(3)));
    decoder.resume(SearchEvent::Sent(Ok(())));
    decoder.resume(decoded(9, true));
    let mut behind = target();
    behind.behind = true;
    behind.kept_reaches = true;
    assert!(matches!(decoder.decode_frame_at_sample(behind), SearchAction::Seek(1_500_000)));
    assert!(matches!(decoder.resume(SearchEvent::Sought(Ok(()))), SearchAction::ReadPacket));
    assert!(decoder.last_frame.is_none());
    assert_eq!(
        reason(decoder.resume(SearchEvent::Packet(None))),
        "no decoded video frame available"
    );
}

#[test]
fn failed_seek_ends_the_search() {
    let mut decoder = decoder();
    decoder.decode_frame_at_sample(target());
    decoder.resume(SearchEvent::Packet(Some(3)));
    decoder.resume(SearchEvent::Sent(Ok(())));
    decoder.resume(decoded(9, true));
    let mut ahead = target();
    ahead.far_ahead = true;
    assert!(matches!(decoder.decode_frame_at_sample(ahead), SearchAction::Seek(_)));
    assert_eq!(
        reason(decoder.resume(SearchEvent::Sought(Err("eof".to_string())))),
        "video seek failed: eof"
    );
}

#[test]
fn first_search_never_seeks() {
    let mut decoder = decoder();
    let mut far = target();
    far.far_ahead = true;
    far.behind = true;
    assert!(matches!(decoder.decode_frame_at_sample(far), SearchAction::ReadPacket));
}

#[test]
fn hardware_decoder_is_flushed_at_the_end() {
    let mut decoder = hardware(None);
    assert!(matches!(decoder.decode_frame_at_sample(target()), SearchAction::CollectPackets));
    assert!(matches!(decoder.resume(SearchEvent::Packet(None)), SearchAction::SendEnd));
    assert!(matches!(decoder.resume(SearchEvent::Sent(Ok(()))), SearchAction::ReceiveFrame));
    assert!(matches!(decoder.resume(decoded(4, false)), SearchAction::ReceiveFrame));
    assert_eq!(found(decoder.resume(SearchEvent::Frame(Ok(None)))), (4, false));

    let mut decoder = hardware(None);
    decoder.decode_frame_at_sample(target());
    decoder.resume(SearchEvent::Packet(None));
    assert_eq!(
        reason(decoder.resume(SearchEvent::Sent(Err("gone".to_string())))),
        "flush hardware video decoder failed: gone"
    );

    let mut decoder = hardware(None);
    decoder.decode_frame_at_sample(target());
    decoder.resume(SearchEvent::Packet(None));
    decoder.resume(SearchEvent::Sent(Ok(())));
    assert_eq!(
        reason(decoder.resume(SearchEvent::Frame(Ok(None)))),
        "no decoded hardware video frame available"
    );
}

#[test]
fn hardware_decoder_without_format_gives_the_reason() {
    let mut decoder = hardware(Some("no format".to_string()));
    assert_eq!(reason(decoder.decode_frame_at_sample(target())), "no format");
}
