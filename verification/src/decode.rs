//! Finding the frame of a clip that belongs to a place on the timeline.
use crate::pump::{Awaited, Pump, PumpEvent, PumpStep};
use crate::text::joined;
use crate::types::{VideoClipData, VideoFrameBuffer};
use vstd::prelude::*;
#[allow(unused_imports)]
use crate::pump::{outcome_view, PumpEventView, PumpStepView, PumpView};
#[allow(unused_imports)]
use crate::types::FrameView;

verus! {

/// How far before its target a seek goes, in microseconds.
pub const FRAME_SEEK_PREROLL_US: i64 = 500_000;

/// `a + b`, but no more than `usize` holds.
pub open spec fn saturating_sum(a: usize, b: usize) -> usize {
    if a + b > usize::MAX {
        usize::MAX
    } else {
        (a + b) as usize
    }
}

/// The sample of the clip's file that plays at `target_sample` of the timeline: before the clip
/// its first one, behind the clip its last one.
pub open spec fn local_sample(clip: VideoClipData, target_sample: usize) -> usize {
    let into_clip = if target_sample < clip.start {
        0
    } else {
        (target_sample - clip.start) as usize
    };
    let local = saturating_sum(into_clip, clip.offset);
    let end = saturating_sum(clip.offset, clip.length);
    if local < end {
        local
    } else {
        end
    }
}

/// The sample of the clip's file that plays at `target_sample` of the timeline.
pub fn clip_local_sample(clip: &VideoClipData, target_sample: usize) -> (local: usize)
    ensures
        local == local_sample(*clip, target_sample),
{
    let local: usize = target_sample.saturating_sub(clip.start).saturating_add(clip.offset);
    let end: usize = clip.offset.saturating_add(clip.length);
    if local < end {
        local
    } else {
        end
    }
}

/// The sample that plays never leaves the clip's part of the file, and a later place on the
/// timeline never plays an earlier one.
pub proof fn local_sample_stays_in_clip(clip: VideoClipData, earlier: usize, later: usize)
    requires
        earlier <= later,
    ensures
        clip.offset <= local_sample(clip, earlier) <= saturating_sum(clip.offset, clip.length),
        local_sample(clip, earlier) <= local_sample(clip, later),
{
}

/// The sample that plays at every place inside the clip is as far into the clip's part of the
/// file as the place is into the clip.
pub proof fn local_sample_follows_timeline(clip: VideoClipData, target_sample: usize)
    requires
        clip.start <= target_sample <= clip.start + clip.length,
        clip.offset + clip.length <= usize::MAX,
    ensures
        local_sample(clip, target_sample) - clip.offset == target_sample - clip.start,
{
}

/// Where a seek for a frame at `target_us` goes, in microseconds.
pub open spec fn seek_target(target_us: i64) -> int {
    if target_us - FRAME_SEEK_PREROLL_US < i64::MIN {
        i64::MIN as int
    } else {
        target_us - FRAME_SEEK_PREROLL_US
    }
}

/// Where a seek for a frame at `target_us` goes, in microseconds.
pub fn seek_position_us(target_us: i64) -> (seek_us: i64)
    ensures
        seek_us == seek_target(target_us),
{
    match target_us.checked_sub(FRAME_SEEK_PREROLL_US) {
        Some(seek_us) => seek_us,
        None => i64::MIN,
    }
}

/// A frame rate as a fraction.
#[derive(Debug, Clone, Copy, PartialEq, Eq, Structural)]
pub struct FrameRate {
    pub numerator: i32,
    pub denominator: i32,
}

impl FrameRate {
    /// Whether the rate can be used: both its parts are positive.
    pub open spec fn usable(self) -> bool {
        self.numerator > 0 && self.denominator > 0
    }

    /// Whether the rate can be used.
    pub fn is_usable(&self) -> (usable: bool)
        ensures
            usable == self.usable(),
    {
        self.numerator > 0 && self.denominator > 0
    }
}

/// The frame rate of a stream: its average rate, or the rate it claims where the average cannot
/// be used, or 25 frames in a second.
pub fn choose_frame_rate(average: FrameRate, nominal: FrameRate) -> (rate: FrameRate)
    ensures
        rate.usable(),
        rate == (if average.usable() {
            average
        } else if nominal.usable() {
            nominal
        } else {
            FrameRate { numerator: 25, denominator: 1 }
        }),
{
    if average.is_usable() {
        average
    } else if nominal.is_usable() {
        nominal
    } else {
        FrameRate { numerator: 25, denominator: 1 }
    }
}

/// How a target stands to what a decoder last gave. Times are floats, which the caller compares.
#[derive(Debug, Clone, Copy, PartialEq, Eq, Structural)]
pub struct SearchTarget {
    /// Whether the target is before the frame that the decoder last gave.
    pub behind: bool,
    /// Whether the target is more than a second behind that frame.
    pub far_ahead: bool,
    /// The time of the target, in microseconds.
    pub target_us: i64,
    /// Whether the frame that was kept is at the target or behind it.
    pub kept_reaches: bool,
}

/// A frame that a decoder gave.
pub struct DecodedFrame {
    pub frame: VideoFrameBuffer,
    /// The bits of the float that is the time of the frame in seconds.
    pub seconds: u64,
    /// Whether the frame is at the target or behind it.
    pub reaches: bool,
}

/// A frame that a search found.
#[derive(Debug)]
pub struct FoundFrame {
    pub frame: VideoFrameBuffer,
    /// Whether the frame was kept from an earlier search.
    pub kept: bool,
}

/// What happened during a search.
pub enum SearchEvent {
    /// The seek went well, and the decoder was flushed; or it failed with a reason.
    Sought(Result<(), String>),
    /// The input gave a packet of the stream with this index, or no more packets.
    Packet(Option<usize>),
    /// The decoder took what was sent, or failed with a reason.
    Sent(Result<(), String>),
    /// The decoder gave a frame, or none, or one that could not be converted.
    Frame(Result<Option<DecodedFrame>, String>),
}

/// What is to be done next in a search.
pub enum SearchAction {
    /// Seek to this time in microseconds, and flush the decoder.
    Seek(i64),
    /// Read the next packet of the input.
    ReadPacket,
    /// Read all packets that the input has left and take the first one of the stream. To read
    /// the next packet then means to take the next one of the stream from among these. What is
    /// left of them at the end of the search is dropped.
    CollectPackets,
    SendPacket,
    ReceiveFrame,
    SendEnd,
    /// The search is over.
    Finish(Result<FoundFrame, String>),
}

/// What a [`DecodedFrame`] holds.
#[verifier::ext_equal]
pub struct DecodedView {
    pub frame: FrameView,
    pub seconds: u64,
    pub reaches: bool,
}

impl View for DecodedFrame {
    type V = DecodedView;

    open spec fn view(&self) -> DecodedView {
        DecodedView { frame: self.frame@, seconds: self.seconds, reaches: self.reaches }
    }
}

/// What a [`FoundFrame`] holds.
#[verifier::ext_equal]
pub struct FoundView {
    pub frame: FrameView,
    pub kept: bool,
}

impl View for FoundFrame {
    type V = FoundView;

    open spec fn view(&self) -> FoundView {
        FoundView { frame: self.frame@, kept: self.kept }
    }
}

/// What a [`SearchEvent`] holds.
pub enum SearchEventView {
    Sought(Result<(), Seq<char>>),
    Packet(Option<usize>),
    Sent(Result<(), Seq<char>>),
    Frame(Result<Option<DecodedView>, Seq<char>>),
}

impl View for SearchEvent {
    type V = SearchEventView;

    open spec fn view(&self) -> SearchEventView {
        match self {
            SearchEvent::Sought(outcome) => SearchEventView::Sought(outcome_view(*outcome)),
            SearchEvent::Packet(stream) => SearchEventView::Packet(*stream),
            SearchEvent::Sent(outcome) => SearchEventView::Sent(outcome_view(*outcome)),
            SearchEvent::Frame(Ok(Some(decoded))) => SearchEventView::Frame(Ok(Some(decoded@))),
            SearchEvent::Frame(Ok(None)) => SearchEventView::Frame(Ok(None)),
            SearchEvent::Frame(Err(reason)) => SearchEventView::Frame(Err(reason@)),
        }
    }
}

/// What a [`SearchAction`] holds.
pub enum SearchActionView {
    Seek(int),
    ReadPacket,
    CollectPackets,
    SendPacket,
    ReceiveFrame,
    SendEnd,
    Finish(Result<FoundView, Seq<char>>),
}

impl View for SearchAction {
    type V = SearchActionView;

    open spec fn view(&self) -> SearchActionView {
        match self {
            SearchAction::Seek(seek_us) => SearchActionView::Seek(*seek_us as int),
            SearchAction::ReadPacket => SearchActionView::ReadPacket,
            SearchAction::CollectPackets => SearchActionView::CollectPackets,
            SearchAction::SendPacket => SearchActionView::SendPacket,
            SearchAction::ReceiveFrame => SearchActionView::ReceiveFrame,
            SearchAction::SendEnd => SearchActionView::SendEnd,
            SearchAction::Finish(Ok(found)) => SearchActionView::Finish(Ok(found@)),
            SearchAction::Finish(Err(reason)) => SearchActionView::Finish(Err(reason@)),
        }
    }
}

/// A decoder of a clip: what it keeps from one search to the next, and how far the search that
/// runs has come.
#[derive(Debug)]
pub struct VideoDecoderState {
    /// The clip.
    pub clip: VideoClipData,
    /// The bits of the float that is the sample rate of the timeline.
    pub sample_rate: u64,
    /// The bits of the float that is the time of the last frame in seconds.
    pub current_seconds: Option<u64>,
    /// The last frame.
    pub last_frame: Option<VideoFrameBuffer>,
    /// Why nothing can be decoded, where that is so.
    pub missing_format: Option<String>,
    /// The reason to give where the input has no frame.
    pub no_frame_error: &'static str,
    /// Whether all packets are read before the first is decoded.
    pub collects: bool,
    /// Whether a seek is waited for.
    pub seeking: bool,
    /// The work with the decoder.
    pub pump: Pump,
}

/// What a [`VideoDecoderState`] holds.
#[verifier::ext_equal]
pub struct DecoderView {
    pub clip: VideoClipData,
    pub sample_rate: u64,
    pub current_seconds: Option<u64>,
    pub last_frame: Option<FrameView>,
    pub missing_format: Option<Seq<char>>,
    pub no_frame_error: Seq<char>,
    pub collects: bool,
    pub seeking: bool,
    pub pump: PumpView,
}

/// What an optional text holds.
pub open spec fn text_view(text: Option<String>) -> Option<Seq<char>> {
    match text {
        Some(text) => Some(text@),
        None => None,
    }
}

/// What an optional frame holds.
pub open spec fn frame_view(frame: Option<VideoFrameBuffer>) -> Option<FrameView> {
    match frame {
        Some(frame) => Some(frame@),
        None => None,
    }
}

impl View for VideoDecoderState {
    type V = DecoderView;

    open spec fn view(&self) -> DecoderView {
        DecoderView {
            clip: self.clip,
            sample_rate: self.sample_rate,
            current_seconds: self.current_seconds,
            last_frame: frame_view(self.last_frame),
            missing_format: text_view(self.missing_format),
            no_frame_error: self.no_frame_error@,
            collects: self.collects,
            seeking: self.seeking,
            pump: self.pump@,
        }
    }
}

impl DecoderView {
    /// Whether `event` is what is waited for.
    pub open spec fn expects(self, event: SearchEventView) -> bool {
        if self.seeking {
            event is Sought
        } else {
            match self.pump.awaited {
                Awaited::Packet => event is Packet,
                Awaited::PacketSent | Awaited::EndSent => event is Sent,
                Awaited::Frame | Awaited::LateFrame => event is Frame,
            }
        }
    }

    /// Whether a search for `target` starts with a seek: the target is before the last frame, or
    /// too far behind it to decode all between.
    pub open spec fn must_seek(self, target: SearchTarget) -> bool {
        self.current_seconds is Some && (target.behind || target.far_ahead)
    }

    /// The decoder about to read packets, or the end of a search that needs none.
    pub open spec fn after_seek(self, kept_reaches: bool) -> (DecoderView, SearchActionView) {
        let ready = DecoderView { seeking: false, ..self };
        match self.last_frame {
            Some(frame) if kept_reaches => (
                ready,
                SearchActionView::Finish(Ok(FoundView { frame, kept: true })),
            ),
            _ => match self.missing_format {
                Some(reason) => (ready, SearchActionView::Finish(Err(reason))),
                None => (
                    DecoderView { pump: ready.pump.awaiting(Awaited::Packet), ..ready },
                    if self.collects {
                        SearchActionView::CollectPackets
                    } else {
                        SearchActionView::ReadPacket
                    },
                ),
            },
        }
    }

    /// The start of a search.
    pub open spec fn started(self, target: SearchTarget) -> (DecoderView, SearchActionView) {
        if self.must_seek(target) {
            (
                DecoderView { seeking: true, ..self },
                SearchActionView::Seek(seek_target(target.target_us)),
            )
        } else {
            self.after_seek(target.kept_reaches)
        }
    }

    /// The decoder with nothing kept.
    pub open spec fn forgotten(self) -> DecoderView {
        DecoderView { current_seconds: None, last_frame: None, ..self }
    }

    /// The decoder with `decoded` as its last frame.
    pub open spec fn keeping(self, decoded: DecodedView) -> DecoderView {
        DecoderView {
            current_seconds: Some(decoded.seconds),
            last_frame: Some(decoded.frame),
            ..self
        }
    }

    /// What a search without more frames comes to: the last frame, where there is one.
    pub open spec fn outcome(self) -> Result<FoundView, Seq<char>> {
        match self.last_frame {
            Some(frame) => Ok(FoundView { frame, kept: false }),
            None => Err(self.no_frame_error),
        }
    }

    /// The decoder after an event of the work with it, and what is to be done next.
    pub open spec fn pumped(self, event: PumpEventView) -> (DecoderView, SearchActionView) {
        let (pump, step) = self.pump.next(event);
        let after = DecoderView { pump, ..self };
        (
            after,
            match step {
                PumpStepView::ReadPacket => SearchActionView::ReadPacket,
                PumpStepView::SendPacket => SearchActionView::SendPacket,
                PumpStepView::ReceiveFrame => SearchActionView::ReceiveFrame,
                PumpStepView::SendEnd => SearchActionView::SendEnd,
                PumpStepView::Exhausted => SearchActionView::Finish(after.outcome()),
                PumpStepView::Fail(reason) => SearchActionView::Finish(Err(reason)),
            },
        )
    }

    /// The decoder after `event`, and what is to be done next. Every frame is kept, and the first
    /// that reaches the target ends the search.
    pub open spec fn resumed(self, event: SearchEventView) -> (DecoderView, SearchActionView) {
        match event {
            SearchEventView::Sought(Ok(_)) => self.forgotten().after_seek(false),
            SearchEventView::Sought(Err(reason)) => (
                DecoderView { seeking: false, ..self },
                SearchActionView::Finish(Err("video seek failed: "@ + reason)),
            ),
            SearchEventView::Packet(stream) => self.pumped(PumpEventView::Packet(stream)),
            SearchEventView::Sent(outcome) => self.pumped(PumpEventView::Sent(outcome)),
            SearchEventView::Frame(Err(reason)) => (self, SearchActionView::Finish(Err(reason))),
            SearchEventView::Frame(Ok(None)) => self.pumped(PumpEventView::NoFrame),
            SearchEventView::Frame(Ok(Some(decoded))) => if decoded.reaches {
                (
                    self.keeping(decoded),
                    SearchActionView::Finish(Ok(FoundView { frame: decoded.frame, kept: false })),
                )
            } else {
                self.keeping(decoded).pumped(PumpEventView::FrameTaken)
            },
        }
    }
}

impl VideoDecoderState {
    /// A decoder in software of the stream `stream_index` of a clip's file.
    pub fn new(clip: VideoClipData, sample_rate: u64, stream_index: usize) -> (decoder: Self)
        ensures
            decoder@ == (DecoderView {
                clip,
                sample_rate,
                current_seconds: None,
                last_frame: None,
                missing_format: None,
                no_frame_error: "no decoded video frame available"@,
                collects: false,
                seeking: false,
                pump: PumpView {
                    stream_index,
                    flush_at_end: false,
                    send_error: "send video packet failed: "@,
                    flush_error: ""@,
                    awaited: Awaited::Packet,
                },
            }),
    {
        VideoDecoderState {
            clip,
            sample_rate,
            current_seconds: None,
            last_frame: None,
            missing_format: None,
            no_frame_error: "no decoded video frame available",
            collects: false,
            seeking: false,
            pump: Pump::new(stream_index, false, "send video packet failed: ", ""),
        }
    }

    /// A decoder in hardware of the stream `stream_index` of a clip's file. With a
    /// `missing_format` it gives that reason in place of every frame.
    pub fn hardware(
        clip: VideoClipData,
        sample_rate: u64,
        stream_index: usize,
        missing_format: Option<String>,
    ) -> (decoder: Self)
        ensures
            decoder@ == (DecoderView {
                clip,
                sample_rate,
                current_seconds: None,
                last_frame: None,
                missing_format: text_view(missing_format),
                no_frame_error: "no decoded hardware video frame available"@,
                collects: true,
                seeking: false,
                pump: PumpView {
                    stream_index,
                    flush_at_end: true,
                    send_error: "send hardware video packet failed: "@,
                    flush_error: "flush hardware video decoder failed: "@,
                    awaited: Awaited::Packet,
                },
            }),
    {
        VideoDecoderState {
            clip,
            sample_rate,
            current_seconds: None,
            last_frame: None,
            missing_format,
            no_frame_error: "no decoded hardware video frame available",
            collects: true,
            seeking: false,
            pump: Pump::new(
                stream_index,
                true,
                "send hardware video packet failed: ",
                "flush hardware video decoder failed: ",
            ),
        }
    }

    fn after_seek(&mut self, kept_reaches: bool) -> (action: SearchAction)
        ensures
            (final(self)@, action@) == old(self)@.after_seek(kept_reaches),
    {
        self.seeking = false;
        if kept_reaches {
            match &self.last_frame {
                Some(frame) => {
                    return SearchAction::Finish(Ok(FoundFrame { frame: frame.clone(), kept: true }));
                },
                None => {},
            }
        }
        match &self.missing_format {
            Some(reason) => SearchAction::Finish(Err(reason.clone())),
            None => {
                self.pump.restart();
                if self.collects {
                    SearchAction::CollectPackets
                } else {
                    SearchAction::ReadPacket
                }
            },
        }
    }

    /// Starts the search for the frame at `target`.
    pub fn decode_frame_at_sample(&mut self, target: SearchTarget) -> (action: SearchAction)
        ensures
            (final(self)@, action@) == old(self)@.started(target),
    {
        if self.current_seconds.is_some() && (target.behind || target.far_ahead) {
            self.seeking = true;
            SearchAction::Seek(seek_position_us(target.target_us))
        } else {
            self.after_seek(target.kept_reaches)
        }
    }

    fn pumped(&mut self, event: PumpEvent) -> (action: SearchAction)
        requires
            old(self)@.pump.expects(event@),
        ensures
            (final(self)@, action@) == old(self)@.pumped(event@),
    {
        match self.pump.next(event) {
            PumpStep::ReadPacket => SearchAction::ReadPacket,
            PumpStep::SendPacket => SearchAction::SendPacket,
            PumpStep::ReceiveFrame => SearchAction::ReceiveFrame,
            PumpStep::SendEnd => SearchAction::SendEnd,
            PumpStep::Exhausted => match &self.last_frame {
                Some(frame) => SearchAction::Finish(
                    Ok(FoundFrame { frame: frame.clone(), kept: false }),
                ),
                None => SearchAction::Finish(Err(self.no_frame_error.to_owned())),
            },
            PumpStep::Fail(reason) => SearchAction::Finish(Err(reason)),
        }
    }

    /// Takes note of `event` and says what is to be done next.
    pub fn resume(&mut self, event: SearchEvent) -> (action: SearchAction)
        requires
            old(self)@.expects(event@),
        ensures
            (final(self)@, action@) == old(self)@.resumed(event@),
    {
        match event {
            SearchEvent::Sought(Ok(_)) => {
                self.current_seconds = None;
                self.last_frame = None;
                self.after_seek(false)
            },
            SearchEvent::Sought(Err(reason)) => {
                self.seeking = false;
                SearchAction::Finish(Err(joined("video seek failed: ", reason.as_str())))
            },
            SearchEvent::Packet(stream) => self.pumped(PumpEvent::Packet(stream)),
            SearchEvent::Sent(outcome) => self.pumped(PumpEvent::Sent(outcome)),
            SearchEvent::Frame(Err(reason)) => SearchAction::Finish(Err(reason)),
            SearchEvent::Frame(Ok(None)) => self.pumped(PumpEvent::NoFrame),
            SearchEvent::Frame(Ok(Some(decoded))) => {
                self.current_seconds = Some(decoded.seconds);
                if decoded.reaches {
                    self.last_frame = Some(decoded.frame.clone());
                    SearchAction::Finish(Ok(FoundFrame { frame: decoded.frame, kept: false }))
                } else {
                    self.last_frame = Some(decoded.frame);
                    self.pumped(PumpEvent::FrameTaken)
                }
            },
        }
    }
}

/// The decoder after `events`.
pub open spec fn run(decoder: DecoderView, events: Seq<SearchEventView>) -> DecoderView
    decreases events.len(),
{
    if events.len() == 0 {
        decoder
    } else {
        run(decoder, events.drop_last()).resumed(events.last()).0
    }
}

/// Whether `events` come in the order in which they are waited for, and the search goes on
/// behind all of them.
pub open spec fn runs_on(decoder: DecoderView, events: Seq<SearchEventView>) -> bool
    decreases events.len(),
{
    if events.len() == 0 {
        !decoder.seeking
    } else {
        let before = run(decoder, events.drop_last());
        &&& runs_on(decoder, events.drop_last())
        &&& before.expects(events.last())
        &&& !(before.resumed(events.last()).1 is Finish)
    }
}

/// The frames that came in `events`.
pub open spec fn frames_in(events: Seq<SearchEventView>) -> Seq<DecodedView>
    decreases events.len(),
{
    if events.len() == 0 {
        Seq::empty()
    } else {
        match events.last() {
            SearchEventView::Frame(Ok(Some(decoded))) => frames_in(events.drop_last()).push(decoded),
            _ => frames_in(events.drop_last()),
        }
    }
}

/// While a search goes on, no frame of it has reached the target, and the decoder keeps its last
/// frame, or the one of an earlier search where it has none yet.
pub proof fn search_keeps_last_frame(decoder: DecoderView, events: Seq<SearchEventView>)
    requires
        runs_on(decoder, events),
    ensures
        !run(decoder, events).seeking,
        forall|i: int|
            0 <= i < frames_in(events).len() ==> !(#[trigger] frames_in(events)[i]).reaches,
        run(decoder, events).last_frame == (if frames_in(events).len() > 0 {
            Some(frames_in(events).last().frame)
        } else {
            decoder.last_frame
        }),
        run(decoder, events).no_frame_error == decoder.no_frame_error,
    decreases events.len(),
{
    if events.len() > 0 {
        search_keeps_last_frame(decoder, events.drop_last());
    }
}

/// A search ends with the first frame that reaches the target. Where the input ends before one
/// does, it gives the last frame that was decoded, also in an earlier search; it fails only where
/// there never was a frame, or where the work with the decoder failed.
pub proof fn search_gives_first_frame_that_reaches(
    decoder: DecoderView,
    events: Seq<SearchEventView>,
    event: SearchEventView,
)
    requires
        runs_on(decoder, events),
        run(decoder, events).expects(event),
        run(decoder, events).resumed(event).1 is Finish,
    ensures
        ({
            let (after, action) = run(decoder, events).resumed(event);
            match event {
                SearchEventView::Frame(Ok(Some(decoded))) => {
                    &&& decoded.reaches
                    &&& action == SearchActionView::Finish(
                        Ok(FoundView { frame: decoded.frame, kept: false }),
                    )
                    &&& after.last_frame == Some(decoded.frame)
                    &&& after.current_seconds == Some(decoded.seconds)
                },
                SearchEventView::Frame(Err(reason)) => action == SearchActionView::Finish(
                    Err(reason),
                ),
                SearchEventView::Sent(outcome) => outcome is Err && action->Finish_0 is Err,
                SearchEventView::Packet(_) | SearchEventView::Frame(Ok(None)) => action
                    == SearchActionView::Finish(
                    if frames_in(events).len() > 0 {
                        Ok(FoundView { frame: frames_in(events).last().frame, kept: false })
                    } else {
                        match decoder.last_frame {
                            Some(frame) => Ok(FoundView { frame, kept: false }),
                            None => Err(decoder.no_frame_error),
                        }
                    },
                ),
                SearchEventView::Sought(_) => false,
            }
        }),
{
    search_keeps_last_frame(decoder, events);
}

/// A frame that reaches the target always ends the search.
pub proof fn reaching_frame_ends_search(decoder: DecoderView, decoded: DecodedView)
    requires
        decoded.reaches,
    ensures
        decoder.resumed(SearchEventView::Frame(Ok(Some(decoded)))).1 == SearchActionView::Finish(
            Ok(FoundView { frame: decoded.frame, kept: false }),
        ),
{
}

/// Whatever was kept before, a search that seeks does not give it back.
pub proof fn seek_forgets_kept_frame(decoder: DecoderView, target: SearchTarget)
    requires
        decoder.must_seek(target),
    ensures
        ({
            let (seeking, seek) = decoder.started(target);
            let (after, action) = seeking.resumed(SearchEventView::Sought(Ok(())));
            &&& seek == SearchActionView::Seek(seek_target(target.target_us))
            &&& after.last_frame is None
            &&& after.current_seconds is None
            &&& action is ReadPacket || action is CollectPackets || action is Finish
            &&& action is Finish ==> action->Finish_0 is Err
        }),
{
}

/// Whether the answer to `action` is what the decoder waits for.
pub open spec fn awaits_answer(decoder: DecoderView, action: SearchActionView) -> bool {
    match action {
        SearchActionView::Seek(_) => decoder.seeking,
        SearchActionView::ReadPacket | SearchActionView::CollectPackets => !decoder.seeking
            && decoder.pump.awaited == Awaited::Packet,
        SearchActionView::SendPacket => !decoder.seeking && decoder.pump.awaited
            == Awaited::PacketSent,
        SearchActionView::ReceiveFrame => !decoder.seeking && (decoder.pump.awaited
            == Awaited::Frame || decoder.pump.awaited == Awaited::LateFrame),
        SearchActionView::SendEnd => !decoder.seeking && decoder.pump.awaited == Awaited::EndSent,
        SearchActionView::Finish(_) => !decoder.seeking,
    }
}

/// What is to be done next is always answered by an event that is waited for, from the start of a
/// search to its end, whatever search was broken off before it.
pub proof fn search_waits_for_what_it_asks(
    decoder: DecoderView,
    target: SearchTarget,
    event: SearchEventView,
)
    ensures
        awaits_answer(decoder.started(target).0, decoder.started(target).1),
        decoder.expects(event) ==> awaits_answer(
            decoder.resumed(event).0,
            decoder.resumed(event).1,
        ),
{
}

/// The sample that plays at a place on the timeline is as far behind the offset as the place is
/// behind the start of the clip, but never behind the end of the clip's part of the file, nor behind
/// what `usize` holds.
pub proof fn local_sample_is_place_behind_offset(clip: VideoClipData, target_sample: usize)
    ensures
        target_sample <= clip.start ==> local_sample(clip, target_sample) == clip.offset,
        target_sample >= clip.start && target_sample - clip.start <= clip.length && clip.offset + (
        target_sample - clip.start) <= usize::MAX ==> local_sample(clip, target_sample)
            == clip.offset + (target_sample - clip.start),
        target_sample >= clip.start && target_sample - clip.start >= clip.length && clip.offset
            + clip.length <= usize::MAX ==> local_sample(clip, target_sample) == clip.offset
            + clip.length,
        target_sample >= clip.start && clip.offset + (target_sample - clip.start) > usize::MAX
            && clip.offset + clip.length > usize::MAX ==> local_sample(clip, target_sample)
            == usize::MAX,
{
}

/// A seek goes half a second before its target, short of the earliest time only.
pub proof fn seek_goes_half_a_second_before(target_us: i64)
    ensures
        target_us >= i64::MIN + 500_000 ==> target_us - seek_target(target_us) == 500_000,
        target_us < i64::MIN + 500_000 ==> seek_target(target_us) == i64::MIN,
{
}

/// A search seeks exactly where the decoder has given a frame and the target is before it or far
/// behind it, and then changes nothing but to wait for the seek.
pub proof fn search_seeks_where_frame_is_out_of_reach(decoder: DecoderView, target: SearchTarget)
    ensures
        ({
            let (after, action) = decoder.started(target);
            let seeks = decoder.current_seconds is Some && (target.behind || target.far_ahead);
            &&& action is Seek <==> seeks
            &&& seeks && target.target_us >= i64::MIN + 500_000 ==> action == SearchActionView::Seek(
                target.target_us - 500_000,
            )
            &&& after.seeking <==> seeks
            &&& after.clip == decoder.clip
            &&& after.sample_rate == decoder.sample_rate
            &&& after.current_seconds == decoder.current_seconds
            &&& after.last_frame == decoder.last_frame
            &&& after.missing_format == decoder.missing_format
            &&& after.pump.stream_index == decoder.pump.stream_index
        }),
{
}

/// A search without a seek gives the kept frame unchanged where that reaches the target. Else it
/// gives the reason why nothing can be decoded, where there is one, and starts with packets where
/// there is none: all of them at once in hardware, one by one in software.
pub proof fn search_starts_with_kept_frame_or_packets(decoder: DecoderView, target: SearchTarget)
    requires
        decoder.current_seconds is None || !target.behind && !target.far_ahead,
    ensures
        ({
            let (after, action) = decoder.started(target);
            let kept = decoder.last_frame is Some && target.kept_reaches;
            &&& kept ==> action == SearchActionView::Finish(
                Ok(FoundView { frame: decoder.last_frame->0, kept: true }),
            )
            &&& !kept && decoder.missing_format is Some ==> action == SearchActionView::Finish(
                Err(decoder.missing_format->0),
            )
            &&& !kept && decoder.missing_format is None ==> {
                &&& action is CollectPackets <==> decoder.collects
                &&& action is ReadPacket <==> !decoder.collects
                &&& after.pump.awaited == Awaited::Packet
            }
        }),
{
}

/// A seek that went well forgets what was kept, and then nothing is given but by decoding; one that
/// failed ends the search with the reason behind the words that name the seek, and changes nothing
/// that is kept.
pub proof fn seek_is_followed_by_decoding(decoder: DecoderView, reason: Seq<char>)
    ensures
        ({
            let (after, action) = decoder.resumed(SearchEventView::Sought(Ok(())));
            &&& after.current_seconds is None
            &&& after.last_frame is None
            &&& after.clip == decoder.clip
            &&& after.sample_rate == decoder.sample_rate
            &&& after.pump.stream_index == decoder.pump.stream_index
            &&& decoder.missing_format is None ==> {
                &&& action is CollectPackets <==> decoder.collects
                &&& action is ReadPacket <==> !decoder.collects
                &&& after.pump.awaited == Awaited::Packet
            }
            &&& decoder.missing_format is Some ==> action == SearchActionView::Finish(
                Err(decoder.missing_format->0),
            )
        }),
        ({
            let (after, action) = decoder.resumed(SearchEventView::Sought(Err(reason)));
            &&& action == SearchActionView::Finish(Err("video seek failed: "@ + reason))
            &&& after.current_seconds == decoder.current_seconds
            &&& after.last_frame == decoder.last_frame
        }),
{
}

/// What is to be done behind the event `i` of a search.
pub open spec fn asked_in_search(
    decoder: DecoderView,
    events: Seq<SearchEventView>,
    i: int,
) -> SearchActionView {
    run(decoder, events.take(i)).resumed(events[i]).1
}

/// Over a whole search the packets that are sent are exactly those of the decoder's stream, each
/// right after it is read and so in their order; a packet of another stream changes nothing and is
/// followed by the next.
pub proof fn search_sends_packets_of_its_stream(
    decoder: DecoderView,
    events: Seq<SearchEventView>,
    i: int,
)
    requires
        0 <= i < events.len(),
    ensures
        run(decoder, events).pump.stream_index == decoder.pump.stream_index,
        asked_in_search(decoder, events, i) is SendPacket <==> events[i] == SearchEventView::Packet(
            Some(decoder.pump.stream_index),
        ),
        events[i] matches SearchEventView::Packet(Some(stream)) ==> (stream
            != decoder.pump.stream_index ==> {
            &&& asked_in_search(decoder, events, i) is ReadPacket
            &&& run(decoder, events.take(i + 1)) == run(decoder, events.take(i))
        }),
{
    lemma_run_keeps_stream(decoder, events);
    lemma_run_keeps_stream(decoder, events.take(i));
    assert(events.take(i + 1).drop_last() =~= events.take(i));
}

proof fn lemma_run_keeps_stream(decoder: DecoderView, events: Seq<SearchEventView>)
    ensures
        run(decoder, events).pump.stream_index == decoder.pump.stream_index,
        run(decoder, events).pump.flush_at_end == decoder.pump.flush_at_end,
        run(decoder, events).clip == decoder.clip,
        run(decoder, events).sample_rate == decoder.sample_rate,
        run(decoder, events).missing_format == decoder.missing_format,
    decreases events.len(),
{
    if events.len() > 0 {
        lemma_run_keeps_stream(decoder, events.drop_last());
    }
}

/// Whatever happens during a search, the clip, its rate and its stream stay, and whether the decoder
/// is flushed.
pub proof fn search_keeps_its_clip(decoder: DecoderView, events: Seq<SearchEventView>)
    ensures
        run(decoder, events).clip == decoder.clip,
        run(decoder, events).sample_rate == decoder.sample_rate,
        run(decoder, events).missing_format == decoder.missing_format,
        run(decoder, events).pump.stream_index == decoder.pump.stream_index,
        run(decoder, events).pump.flush_at_end == decoder.pump.flush_at_end,
{
    lemma_run_keeps_stream(decoder, events);
}

/// What the decoder says to a packet decides on the next step: frames are received of what it took,
/// and what it did not take ends the search with the reason behind the words that name it. Behind the
/// last packet the decoder is flushed where it is one in hardware.
pub proof fn search_follows_decoder(decoder: DecoderView, reason: Seq<char>)
    ensures
        ({
            let (after, action) = decoder.resumed(SearchEventView::Sent(Ok(())));
            &&& action is ReceiveFrame
            &&& after.last_frame == decoder.last_frame
            &&& after.current_seconds == decoder.current_seconds
            &&& after.pump.awaited == if decoder.pump.awaited == Awaited::EndSent {
                Awaited::LateFrame
            } else {
                Awaited::Frame
            }
        }),
        decoder.pump.awaited == Awaited::EndSent ==> decoder.resumed(
            SearchEventView::Sent(Err(reason)),
        ).1 == SearchActionView::Finish(Err(decoder.pump.flush_error + reason)),
        decoder.pump.awaited != Awaited::EndSent ==> decoder.resumed(
            SearchEventView::Sent(Err(reason)),
        ).1 == SearchActionView::Finish(Err(decoder.pump.send_error + reason)),
        decoder.pump.flush_at_end ==> decoder.resumed(SearchEventView::Packet(None)).1 is SendEnd,
        !decoder.pump.flush_at_end && decoder.last_frame is Some ==> decoder.resumed(
            SearchEventView::Packet(None),
        ).1 == SearchActionView::Finish(
            Ok(FoundView { frame: decoder.last_frame->0, kept: false }),
        ),
        !decoder.pump.flush_at_end && decoder.last_frame is None ==> decoder.resumed(
            SearchEventView::Packet(None),
        ).1 == SearchActionView::Finish(Err(decoder.no_frame_error)),
{
}

/// Every frame that the decoder gives is kept with its time, unchanged. It ends the search where it
/// reaches the target, with the very frame, and else the next is received; without one more the next
/// packet is read, or the search ends where the decoder was flushed.
pub proof fn search_keeps_every_frame(
    decoder: DecoderView,
    decoded: DecodedView,
    reason: Seq<char>,
)
    ensures
        ({
            let (after, action) = decoder.resumed(SearchEventView::Frame(Ok(Some(decoded))));
            &&& after.last_frame == Some(decoded.frame)
            &&& after.current_seconds == Some(decoded.seconds)
            &&& after.clip == decoder.clip
            &&& after.sample_rate == decoder.sample_rate
            &&& after.missing_format == decoder.missing_format
            &&& after.pump == decoder.pump
            &&& decoded.reaches ==> action == SearchActionView::Finish(
                Ok(FoundView { frame: decoded.frame, kept: false }),
            )
            &&& !decoded.reaches ==> action is ReceiveFrame
        }),
        ({
            let (after, action) = decoder.resumed(SearchEventView::Frame(Ok(None)));
            &&& after.last_frame == decoder.last_frame
            &&& after.current_seconds == decoder.current_seconds
            &&& decoder.pump.awaited != Awaited::LateFrame ==> action is ReadPacket
                && after.pump.awaited == Awaited::Packet
            &&& decoder.pump.awaited == Awaited::LateFrame && decoder.last_frame is Some ==> action
                == SearchActionView::Finish(
                Ok(FoundView { frame: decoder.last_frame->0, kept: false }),
            )
            &&& decoder.pump.awaited == Awaited::LateFrame && decoder.last_frame is None ==> action
                == SearchActionView::Finish(Err(decoder.no_frame_error))
        }),
        decoder.resumed(SearchEventView::Frame(Err(reason))) == (
            decoder,
            SearchActionView::Finish(Err(reason)),
        ),
{
}

/// A decoder and its dialogue are seen as they are: nothing of what an event, an action, a frame or
/// a decoder holds is changed or left out.
pub proof fn search_is_seen_as_it_is(
    event: SearchEvent,
    action: SearchAction,
    decoder: VideoDecoderState,
    decoded: DecodedFrame,
    found: FoundFrame,
)
    ensures
        event matches SearchEvent::Sought(Ok(_)) ==> event@ == SearchEventView::Sought(Ok(())),
        event matches SearchEvent::Sought(Err(reason)) ==> event@ == SearchEventView::Sought(
            Err(reason@),
        ),
        event matches SearchEvent::Packet(stream) ==> event@ == SearchEventView::Packet(stream),
        event matches SearchEvent::Sent(Ok(_)) ==> event@ == SearchEventView::Sent(Ok(())),
        event matches SearchEvent::Sent(Err(reason)) ==> event@ == SearchEventView::Sent(
            Err(reason@),
        ),
        event matches SearchEvent::Frame(Ok(Some(given))) ==> event@ == SearchEventView::Frame(
            Ok(Some(given@)),
        ),
        event matches SearchEvent::Frame(Ok(None)) ==> event@ == SearchEventView::Frame(Ok(None)),
        event matches SearchEvent::Frame(Err(reason)) ==> event@ == SearchEventView::Frame(
            Err(reason@),
        ),
        action matches SearchAction::Seek(seek_us) ==> action@ is Seek && action@->Seek_0
            == seek_us,
        action is ReadPacket ==> action@ is ReadPacket,
        action is CollectPackets ==> action@ is CollectPackets,
        action is SendPacket ==> action@ is SendPacket,
        action is ReceiveFrame ==> action@ is ReceiveFrame,
        action is SendEnd ==> action@ is SendEnd,
        action matches SearchAction::Finish(Ok(given)) ==> action@ == SearchActionView::Finish(
            Ok(given@),
        ),
        action matches SearchAction::Finish(Err(reason)) ==> action@ == SearchActionView::Finish(
            Err(reason@),
        ),
        decoded@.frame == decoded.frame@,
        decoded@.seconds == decoded.seconds,
        decoded@.reaches == decoded.reaches,
        found@.frame == found.frame@,
        found@.kept == found.kept,
        decoder@.clip == decoder.clip,
        decoder@.sample_rate == decoder.sample_rate,
        decoder@.current_seconds == decoder.current_seconds,
        decoder.last_frame is None <==> decoder@.last_frame is None,
        decoder.last_frame is Some ==> decoder@.last_frame->0 == decoder.last_frame->0@,
        decoder.missing_format is None <==> decoder@.missing_format is None,
        decoder.missing_format is Some ==> decoder@.missing_format->0
            == decoder.missing_format->0@,
        decoder@.no_frame_error == decoder.no_frame_error@,
        decoder@.collects == decoder.collects,
        decoder@.seeking == decoder.seeking,
        decoder@.pump == decoder.pump@,
{
}

/// A rate can be used exactly where both its parts are at least one.
pub proof fn usable_rates_are_positive(rate: FrameRate)
    ensures
        rate.usable() <==> rate.numerator >= 1 && rate.denominator >= 1,
{
}

} // verus!
