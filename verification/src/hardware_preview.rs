//! The preview strip of a clip that is decoded in hardware: thumbnails of evenly spaced samples.
use crate::decode::{clip_local_sample, seek_position_us, VideoDecoderState};
use crate::frame::{strip_pixels, sum_widths, thumb_size, Thumb, PREVIEW_MAX_THUMBS};
use crate::pump::{Awaited, Pump, PumpEvent, PumpStep};
use crate::text::joined;
use crate::types::{VideoClipData, VideoFrameBuffer};
use vstd::prelude::*;
#[allow(unused_imports)]
use crate::decode::{local_sample, saturating_sum, seek_target, DecoderView};
#[allow(unused_imports)]
use crate::frame::{
    strip_rows, thumb_height_of, thumb_keeps_shape_of_picture, thumb_width_of, thumbs_fit,
    thumbs_only_shrink, thumbs_view, total_width, ThumbView,
};
#[allow(unused_imports)]
use crate::pump::{outcome_view, PumpEventView, PumpStepView, PumpView};
#[allow(unused_imports)]
use crate::types::FrameView;

verus! {

/// `a * b`, but no more than `usize` holds.
pub open spec fn saturating_product(a: usize, b: usize) -> usize {
    if a * b > usize::MAX {
        usize::MAX
    } else {
        (a * b) as usize
    }
}

/// The sample of the timeline that thumbnail `i` of a full strip shows: the first shows the start
/// of the clip, the last its end.
pub open spec fn wanted_sample(clip: VideoClipData, i: int) -> usize {
    let into_clip = saturating_product(clip.length, i as usize) / 7;
    let sample = saturating_sum(clip.start, into_clip);
    let end = saturating_sum(clip.start, clip.length);
    if sample < end {
        sample
    } else {
        end
    }
}

/// The first `n` samples that a strip shows, without repetitions.
pub open spec fn wanted_samples(clip: VideoClipData, n: int) -> Seq<usize>
    decreases n,
{
    if n <= 0 {
        Seq::empty()
    } else {
        let before = wanted_samples(clip, n - 1);
        let sample = wanted_sample(clip, n - 1);
        if before.len() > 0 && before.last() == sample {
            before
        } else {
            before.push(sample)
        }
    }
}

/// The samples of the timeline that the strip of `clip` shows.
pub fn requested_preview_samples(clip: &VideoClipData) -> (samples: Vec<usize>)
    ensures
        samples@ == wanted_samples(*clip, PREVIEW_MAX_THUMBS as int),
        0 < samples@.len() <= PREVIEW_MAX_THUMBS,
        samples@[0] == clip.start,
{
    let clip_end: usize = clip.start.saturating_add(clip.length);
    let mut samples: Vec<usize> = Vec::new();
    let mut index: usize = 0;
    while index < PREVIEW_MAX_THUMBS
        invariant
            index <= PREVIEW_MAX_THUMBS,
            clip_end == saturating_sum(clip.start, clip.length),
            samples@ == wanted_samples(*clip, index as int),
            samples@.len() <= index,
            index > 0 ==> samples@.len() > 0 && samples@[0] == clip.start,
        decreases PREVIEW_MAX_THUMBS - index,
    {
        let numerator: usize = match clip.length.checked_mul(index) {
            Some(numerator) => numerator,
            None => usize::MAX,
        };
        let place: usize = clip.start.saturating_add(numerator / 7);
        let sample: usize = if place < clip_end { place } else { clip_end };
        proof {
            if index == 0 {
                assert(clip.length * index == 0) by (nonlinear_arith)
                    requires
                        index == 0,
                ;
            }
        }
        assert(sample == wanted_sample(*clip, index as int));
        let repeated: bool = samples.len() > 0 && samples[samples.len() - 1] == sample;
        if !repeated {
            samples.push(sample);
        }
        index = index + 1;
    }
    samples
}

/// The samples that a strip shows lie inside the clip and grow from one to the next.
pub proof fn wanted_samples_grow(clip: VideoClipData, n: int)
    requires
        0 <= n <= PREVIEW_MAX_THUMBS,
    ensures
        forall|i: int|
            0 <= i < wanted_samples(clip, n).len() ==> clip.start <= #[trigger] wanted_samples(
                clip,
                n,
            )[i] <= saturating_sum(clip.start, clip.length),
        forall|i: int, j: int|
            0 <= i < j < wanted_samples(clip, n).len() ==> wanted_samples(clip, n)[i]
                < wanted_samples(clip, n)[j],
        n > 0 ==> wanted_samples(clip, n).len() > 0 && wanted_samples(clip, n).last()
            == wanted_sample(clip, n - 1),
    decreases n,
{
    if n > 0 {
        wanted_samples_grow(clip, n - 1);
        lemma_wanted_sample(clip, n - 1);
        if n > 1 {
            assert(clip.length * (n - 2) <= clip.length * (n - 1)) by (nonlinear_arith)
                requires
                    n >= 2,
                    clip.length >= 0,
            ;
            assert(wanted_sample(clip, n - 2) <= wanted_sample(clip, n - 1));
        }
        let before = wanted_samples(clip, n - 1);
        let after = wanted_samples(clip, n);
        assert forall|i: int, j: int| 0 <= i < j < after.len() implies after[i] < after[j] by {
            if j == before.len() && i < before.len() - 1 {
                assert(before[i] < before[before.len() - 1]);
            }
        }
    }
}

proof fn lemma_wanted_sample(clip: VideoClipData, i: int)
    requires
        0 <= i < PREVIEW_MAX_THUMBS,
    ensures
        clip.start <= wanted_sample(clip, i) <= saturating_sum(clip.start, clip.length),
{
}

/// The strip of a clip ends with the clip's end, where the arithmetic does not saturate.
pub proof fn strip_reaches_clip_end(clip: VideoClipData)
    requires
        clip.length * 7 <= usize::MAX,
        clip.start + clip.length <= usize::MAX,
    ensures
        wanted_samples(clip, PREVIEW_MAX_THUMBS as int).len() > 0,
        wanted_samples(clip, PREVIEW_MAX_THUMBS as int).first() == clip.start,
        wanted_samples(clip, PREVIEW_MAX_THUMBS as int).last() == clip.start + clip.length,
{
    wanted_samples_grow(clip, PREVIEW_MAX_THUMBS as int);
    lemma_first_wanted(clip, PREVIEW_MAX_THUMBS as int);
}

proof fn lemma_first_wanted(clip: VideoClipData, n: int)
    requires
        1 <= n <= PREVIEW_MAX_THUMBS,
    ensures
        wanted_samples(clip, n).len() > 0,
        wanted_samples(clip, n)[0] == clip.start,
    decreases n,
{
    if n == 1 {
        assert(wanted_samples(clip, 0) =~= Seq::<usize>::empty());
        assert(clip.length * 0 == 0);
    } else {
        lemma_first_wanted(clip, n - 1);
    }
}

/// The sizes between which a scaler converts.
#[derive(Debug, Clone, Copy, PartialEq, Eq, Structural)]
pub struct ScalerShape {
    pub source_width: u32,
    pub source_height: u32,
    pub width: u32,
    pub height: u32,
}

/// A thumbnail that is to be made of the last frame.
#[derive(Debug, Clone, Copy, PartialEq, Eq, Structural)]
pub struct ScaleJob {
    /// The sizes of the frame and of the thumbnail.
    pub shape: ScalerShape,
    /// Whether a new scaler is needed: there is none yet, or the one there is has another shape.
    pub new_scaler: bool,
}

/// What happened while a strip is made.
pub enum HardwareStripEvent {
    /// The seek went well, and the decoder was flushed; or it failed with a reason.
    Sought(Result<(), String>),
    /// The input gave a packet of the stream with this index, or no more packets.
    Packet(Option<usize>),
    /// The decoder took what was sent, or failed with a reason.
    Sent(Result<(), String>),
    /// The decoder gave a frame, with the bits of the float that is its time in seconds; or none;
    /// or one that could not be converted.
    Frame(Result<Option<(VideoFrameBuffer, u64)>, String>),
    /// Whether the last frame is at the sample that was asked about, or behind it.
    Compared(bool),
    /// The pixels of the thumbnail, or why it could not be made.
    Scaled(Result<Vec<u8>, String>),
}

/// What is to be done next for a strip.
pub enum HardwareStripAction {
    /// Seek to this time in microseconds, and flush the decoder.
    Seek(i64),
    /// Read all packets that the input has left and take the first one of the stream.
    CollectPackets,
    /// Take the next packet of the stream from among those that were read.
    ReadPacket,
    SendPacket,
    ReceiveFrame,
    SendEnd,
    /// Compare the time of the last frame with that of this sample of the file.
    Compare(usize),
    /// Make a thumbnail of the last frame.
    Scale(ScaleJob),
    /// All thumbnails are made.
    Finish(Result<Vec<Thumb>, String>),
}

/// What a [`HardwareStripEvent`] holds.
pub enum HardwareStripEventView {
    Sought(Result<(), Seq<char>>),
    Packet(Option<usize>),
    Sent(Result<(), Seq<char>>),
    Frame(Result<Option<(FrameView, u64)>, Seq<char>>),
    Compared(bool),
    Scaled(Result<Seq<u8>, Seq<char>>),
}

impl View for HardwareStripEvent {
    type V = HardwareStripEventView;

    open spec fn view(&self) -> HardwareStripEventView {
        match self {
            HardwareStripEvent::Sought(outcome) => HardwareStripEventView::Sought(
                outcome_view(*outcome),
            ),
            HardwareStripEvent::Packet(stream) => HardwareStripEventView::Packet(*stream),
            HardwareStripEvent::Sent(outcome) => HardwareStripEventView::Sent(
                outcome_view(*outcome),
            ),
            HardwareStripEvent::Frame(Ok(Some(frame))) => HardwareStripEventView::Frame(
                Ok(Some((frame.0@, frame.1))),
            ),
            HardwareStripEvent::Frame(Ok(None)) => HardwareStripEventView::Frame(Ok(None)),
            HardwareStripEvent::Frame(Err(reason)) => HardwareStripEventView::Frame(Err(reason@)),
            HardwareStripEvent::Compared(due) => HardwareStripEventView::Compared(*due),
            HardwareStripEvent::Scaled(Ok(pixels)) => HardwareStripEventView::Scaled(Ok(pixels@)),
            HardwareStripEvent::Scaled(Err(reason)) => HardwareStripEventView::Scaled(Err(reason@)),
        }
    }
}

/// What a [`HardwareStripAction`] holds.
pub enum HardwareStripActionView {
    Seek(int),
    CollectPackets,
    ReadPacket,
    SendPacket,
    ReceiveFrame,
    SendEnd,
    Compare(usize),
    Scale(ScaleJob),
    Finish(Result<Seq<ThumbView>, Seq<char>>),
}

impl View for HardwareStripAction {
    type V = HardwareStripActionView;

    open spec fn view(&self) -> HardwareStripActionView {
        match self {
            HardwareStripAction::Seek(seek_us) => HardwareStripActionView::Seek(*seek_us as int),
            HardwareStripAction::CollectPackets => HardwareStripActionView::CollectPackets,
            HardwareStripAction::ReadPacket => HardwareStripActionView::ReadPacket,
            HardwareStripAction::SendPacket => HardwareStripActionView::SendPacket,
            HardwareStripAction::ReceiveFrame => HardwareStripActionView::ReceiveFrame,
            HardwareStripAction::SendEnd => HardwareStripActionView::SendEnd,
            HardwareStripAction::Compare(sample) => HardwareStripActionView::Compare(*sample),
            HardwareStripAction::Scale(job) => HardwareStripActionView::Scale(*job),
            HardwareStripAction::Finish(Ok(thumbs)) => HardwareStripActionView::Finish(
                Ok(thumbs_view(thumbs@)),
            ),
            HardwareStripAction::Finish(Err(reason)) => HardwareStripActionView::Finish(
                Err(reason@),
            ),
        }
    }
}

/// What the making of a strip waits for.
#[derive(Debug, Clone, Copy, PartialEq, Eq, Structural)]
pub enum StripStage {
    Seek,
    Decoder,
    Comparison,
    Thumb(ScalerShape),
}

/// The making of a preview strip from evenly spaced samples of a clip.
pub struct HardwareStrip {
    requested: Vec<usize>,
    next_index: usize,
    thumbs: Vec<Thumb>,
    scaler: Option<ScalerShape>,
    stage: StripStage,
    pump: Pump,
}

/// What a [`HardwareStrip`] holds.
#[verifier::ext_equal]
pub struct HardwareStripView {
    /// The samples of the timeline to show.
    pub requested: Seq<usize>,
    /// How many of them are dealt with.
    pub next_index: int,
    /// The thumbnails.
    pub thumbs: Seq<ThumbView>,
    /// The shape of the scaler.
    pub scaler: Option<ScalerShape>,
    /// What is waited for.
    pub stage: StripStage,
    /// The work with the decoder.
    pub pump: PumpView,
}

impl View for HardwareStrip {
    type V = HardwareStripView;

    closed spec fn view(&self) -> HardwareStripView {
        HardwareStripView {
            requested: self.requested@,
            next_index: self.next_index as int,
            thumbs: thumbs_view(self.thumbs@),
            scaler: self.scaler,
            stage: self.stage,
            pump: self.pump@,
        }
    }
}

/// The strip, the decoder, and what is to be done next.
pub type StripStep = (HardwareStripView, DecoderView, HardwareStripActionView);

impl HardwareStripView {
    /// Whether the decoder may give another frame.
    pub open spec fn between_frames(self) -> bool {
        self.pump.awaited == Awaited::Frame || self.pump.awaited == Awaited::LateFrame
    }

    /// Whether a sample is left to show, no more thumbnails are made than samples are dealt with,
    /// a seek is waited for before the first packet only, and a comparison or a thumbnail between
    /// two frames only.
    pub open spec fn wf(self) -> bool {
        &&& 0 <= self.next_index < self.requested.len()
        &&& self.thumbs.len() <= self.next_index
        &&& self.stage is Seek ==> self.pump.awaited == Awaited::Packet
        &&& self.stage is Comparison || self.stage is Thumb ==> self.between_frames()
    }

    /// Whether `event` is what is waited for. A comparison and a thumbnail need a frame.
    pub open spec fn expects(self, decoder: DecoderView, event: HardwareStripEventView) -> bool {
        match self.stage {
            StripStage::Seek => event is Sought,
            StripStage::Comparison => event is Compared && decoder.last_frame is Some,
            StripStage::Thumb(_) => event is Scaled && decoder.last_frame is Some,
            StripStage::Decoder => match self.pump.awaited {
                Awaited::Packet => event is Packet,
                Awaited::PacketSent | Awaited::EndSent => event is Sent,
                Awaited::Frame | Awaited::LateFrame => event is Frame,
            },
        }
    }

    /// What the strip comes to: its thumbnails, where there are any.
    pub open spec fn outcome(self) -> Result<Seq<ThumbView>, Seq<char>> {
        if self.thumbs.len() == 0 {
            Err("no decoded hardware preview frame available"@)
        } else {
            Ok(self.thumbs)
        }
    }

    /// The end of the making, with the thumbnails handed out.
    pub open spec fn finished(self, decoder: DecoderView) -> StripStep {
        (
            HardwareStripView { thumbs: Seq::empty(), ..self },
            decoder,
            HardwareStripActionView::Finish(self.outcome()),
        )
    }

    /// The strip after an event of the work with the decoder.
    pub open spec fn pumped(self, decoder: DecoderView, event: PumpEventView) -> StripStep {
        let (pump, step) = self.pump.next(event);
        let after = HardwareStripView { pump, stage: StripStage::Decoder, ..self };
        match step {
            PumpStepView::ReadPacket => (after, decoder, HardwareStripActionView::ReadPacket),
            PumpStepView::SendPacket => (after, decoder, HardwareStripActionView::SendPacket),
            PumpStepView::ReceiveFrame => (after, decoder, HardwareStripActionView::ReceiveFrame),
            PumpStepView::SendEnd => (after, decoder, HardwareStripActionView::SendEnd),
            PumpStepView::Exhausted => after.finished(decoder),
            PumpStepView::Fail(reason) => (
                after,
                decoder,
                HardwareStripActionView::Finish(Err(reason)),
            ),
        }
    }

    /// The strip before it is decided whether the last frame shows the next sample.
    pub open spec fn comparing(self, decoder: DecoderView) -> StripStep {
        (
            HardwareStripView { stage: StripStage::Comparison, ..self },
            decoder,
            HardwareStripActionView::Compare(
                local_sample(decoder.clip, self.requested[self.next_index]),
            ),
        )
    }

    /// The strip with one more sample dealt with.
    pub open spec fn dealt(self, decoder: DecoderView) -> StripStep {
        let after = HardwareStripView { next_index: self.next_index + 1, ..self };
        if after.next_index >= self.requested.len() {
            HardwareStripView { stage: StripStage::Decoder, ..after }.finished(decoder)
        } else {
            after.comparing(decoder)
        }
    }

    /// The shape of the scaler that makes a thumbnail of `frame`.
    pub open spec fn shape_for(frame: FrameView) -> ScalerShape {
        ScalerShape {
            source_width: frame.width,
            source_height: frame.height,
            width: thumb_width_of(frame.width, frame.height) as u32,
            height: thumb_height_of(frame.height),
        }
    }

    /// The strip after `event`, the decoder after it, and what is to be done next. A frame shows
    /// all samples up to its time that no frame before it showed; a frame without pixels uses
    /// them up without a thumbnail.
    pub open spec fn resumed(self, decoder: DecoderView, event: HardwareStripEventView) -> StripStep {
        match event {
            HardwareStripEventView::Sought(Err(reason)) => (
                self,
                decoder,
                HardwareStripActionView::Finish(Err("video seek failed: "@ + reason)),
            ),
            HardwareStripEventView::Sought(Ok(_)) => match decoder.missing_format {
                Some(reason) => (
                    self,
                    decoder.forgotten(),
                    HardwareStripActionView::Finish(Err(reason)),
                ),
                None => (
                    HardwareStripView { stage: StripStage::Decoder, ..self },
                    decoder.forgotten(),
                    HardwareStripActionView::CollectPackets,
                ),
            },
            HardwareStripEventView::Packet(stream) => self.pumped(
                decoder,
                PumpEventView::Packet(stream),
            ),
            HardwareStripEventView::Sent(outcome) => self.pumped(
                decoder,
                PumpEventView::Sent(outcome),
            ),
            HardwareStripEventView::Frame(Err(reason)) => (
                self,
                decoder,
                HardwareStripActionView::Finish(Err(reason)),
            ),
            HardwareStripEventView::Frame(Ok(None)) => self.pumped(decoder, PumpEventView::NoFrame),
            HardwareStripEventView::Frame(Ok(Some(frame))) => self.comparing(
                DecoderView {
                    current_seconds: Some(frame.1),
                    last_frame: Some(frame.0),
                    ..decoder
                },
            ),
            HardwareStripEventView::Compared(false) => self.pumped(
                decoder,
                PumpEventView::FrameTaken,
            ),
            HardwareStripEventView::Compared(true) => {
                let frame = decoder.last_frame->0;
                if frame.is_blank() {
                    self.dealt(decoder)
                } else {
                    let shape = HardwareStripView::shape_for(frame);
                    (
                        HardwareStripView {
                            stage: StripStage::Thumb(shape),
                            scaler: Some(shape),
                            ..self
                        },
                        decoder,
                        HardwareStripActionView::Scale(
                            ScaleJob { shape, new_scaler: self.scaler != Some(shape) },
                        ),
                    )
                }
            },
            HardwareStripEventView::Scaled(Err(reason)) => (
                self,
                decoder,
                HardwareStripActionView::Finish(Err(reason)),
            ),
            HardwareStripEventView::Scaled(Ok(pixels)) => {
                let shape = self.stage->Thumb_0;
                HardwareStripView {
                    thumbs: self.thumbs.push(
                        ThumbView { width: shape.width, height: shape.height, pixels },
                    ),
                    ..self
                }.dealt(decoder)
            },
        }
    }
}

impl HardwareStrip {
    /// The making of the strip of `clip`, from the stream `stream_index` of its file.
    pub fn new(clip: &VideoClipData, stream_index: usize) -> (strip: Self)
        ensures
            strip@.wf(),
            strip@ == (HardwareStripView {
                requested: wanted_samples(*clip, PREVIEW_MAX_THUMBS as int),
                next_index: 0,
                thumbs: Seq::empty(),
                scaler: None,
                stage: StripStage::Seek,
                pump: PumpView {
                    stream_index,
                    flush_at_end: true,
                    send_error: "send hardware preview packet failed: "@,
                    flush_error: "flush hardware preview decoder failed: "@,
                    awaited: Awaited::Packet,
                },
            }),
    {
        let strip: HardwareStrip = HardwareStrip {
            requested: requested_preview_samples(clip),
            next_index: 0,
            thumbs: Vec::new(),
            scaler: None,
            stage: StripStage::Seek,
            pump: Pump::new(
                stream_index,
                true,
                "send hardware preview packet failed: ",
                "flush hardware preview decoder failed: ",
            ),
        };
        assert(strip@.thumbs =~= Seq::<ThumbView>::empty());
        strip
    }

    /// The sample of the clip's file that the next thumbnail shows.
    pub fn next_local_sample(&self, clip: &VideoClipData) -> (local: usize)
        requires
            self@.wf(),
        ensures
            local == local_sample(*clip, self@.requested[self@.next_index]),
    {
        clip_local_sample(clip, self.requested[self.next_index])
    }

    /// Starts with a seek for the first sample, whose time is `target_us` in microseconds.
    pub fn start(&self, target_us: i64) -> (action: HardwareStripAction)
        ensures
            action@ == HardwareStripActionView::Seek(seek_target(target_us)),
    {
        HardwareStripAction::Seek(seek_position_us(target_us))
    }

    fn finished(&mut self) -> (action: HardwareStripAction)
        ensures
            final(self)@ == (HardwareStripView { thumbs: Seq::empty(), ..old(self)@ }),
            action@ == HardwareStripActionView::Finish(old(self)@.outcome()),
    {
        let mut thumbs: Vec<Thumb> = Vec::new();
        assert(thumbs_view(thumbs@) =~= Seq::<ThumbView>::empty());
        std::mem::swap(&mut thumbs, &mut self.thumbs);
        if thumbs.is_empty() {
            assert(old(self)@.thumbs.len() == 0);
            HardwareStripAction::Finish(
                Err("no decoded hardware preview frame available".to_owned()),
            )
        } else {
            HardwareStripAction::Finish(Ok(thumbs))
        }
    }

    fn pumped(&mut self, decoder: &VideoDecoderState, event: PumpEvent) -> (action:
        HardwareStripAction)
        requires
            old(self)@.wf(),
            old(self)@.pump.expects(event@),
        ensures
            (final(self)@, decoder@, action@) == old(self)@.pumped(decoder@, event@),
            !(action is Finish) ==> final(self)@.wf(),
    {
        self.stage = StripStage::Decoder;
        match self.pump.next(event) {
            PumpStep::ReadPacket => HardwareStripAction::ReadPacket,
            PumpStep::SendPacket => HardwareStripAction::SendPacket,
            PumpStep::ReceiveFrame => HardwareStripAction::ReceiveFrame,
            PumpStep::SendEnd => HardwareStripAction::SendEnd,
            PumpStep::Exhausted => self.finished(),
            PumpStep::Fail(reason) => HardwareStripAction::Finish(Err(reason)),
        }
    }

    fn comparing(&mut self, decoder: &VideoDecoderState) -> (action: HardwareStripAction)
        requires
            old(self)@.wf(),
            old(self)@.between_frames(),
        ensures
            (final(self)@, decoder@, action@) == old(self)@.comparing(decoder@),
            final(self)@.wf(),
    {
        self.stage = StripStage::Comparison;
        HardwareStripAction::Compare(
            clip_local_sample(&decoder.clip, self.requested[self.next_index]),
        )
    }

    fn dealt(&mut self, decoder: &VideoDecoderState) -> (action: HardwareStripAction)
        requires
            0 <= old(self)@.next_index < old(self)@.requested.len(),
            old(self)@.thumbs.len() <= old(self)@.next_index + 1,
            old(self)@.between_frames(),
            !(old(self)@.stage is Seek),
        ensures
            (final(self)@, decoder@, action@) == old(self)@.dealt(decoder@),
            !(action is Finish) ==> final(self)@.wf(),
    {
        let len: usize = self.requested.len();
        self.next_index = self.next_index + 1;
        if self.next_index >= len {
            self.stage = StripStage::Decoder;
            self.finished()
        } else {
            self.comparing(decoder)
        }
    }

    /// Takes note of `event`, keeps a frame in `decoder`, and says what is to be done next.
    pub fn resume(&mut self, decoder: &mut VideoDecoderState, event: HardwareStripEvent) -> (action:
        HardwareStripAction)
        requires
            old(self)@.wf(),
            old(self)@.expects(old(decoder)@, event@),
        ensures
            (final(self)@, final(decoder)@, action@) == old(self)@.resumed(old(decoder)@, event@),
            !(action is Finish) ==> final(self)@.wf(),
    {
        match event {
            HardwareStripEvent::Sought(Err(reason)) => HardwareStripAction::Finish(
                Err(joined("video seek failed: ", reason.as_str())),
            ),
            HardwareStripEvent::Sought(Ok(_)) => {
                decoder.current_seconds = None;
                decoder.last_frame = None;
                match &decoder.missing_format {
                    Some(reason) => HardwareStripAction::Finish(Err(reason.clone())),
                    None => {
                        self.stage = StripStage::Decoder;
                        HardwareStripAction::CollectPackets
                    },
                }
            },
            HardwareStripEvent::Packet(stream) => self.pumped(decoder, PumpEvent::Packet(stream)),
            HardwareStripEvent::Sent(outcome) => self.pumped(decoder, PumpEvent::Sent(outcome)),
            HardwareStripEvent::Frame(Err(reason)) => HardwareStripAction::Finish(Err(reason)),
            HardwareStripEvent::Frame(Ok(None)) => self.pumped(decoder, PumpEvent::NoFrame),
            HardwareStripEvent::Frame(Ok(Some((frame, seconds)))) => {
                decoder.current_seconds = Some(seconds);
                decoder.last_frame = Some(frame);
                self.comparing(decoder)
            },
            HardwareStripEvent::Compared(false) => self.pumped(decoder, PumpEvent::FrameTaken),
            HardwareStripEvent::Compared(true) => match &decoder.last_frame {
                Some(frame) => if frame.is_blank() {
                    self.dealt(decoder)
                } else {
                    let (width, height): (u32, u32) = thumb_size(frame.width, frame.height);
                    let shape: ScalerShape = ScalerShape {
                        source_width: frame.width,
                        source_height: frame.height,
                        width,
                        height,
                    };
                    let new_scaler: bool = match self.scaler {
                        Some(scaler) => scaler != shape,
                        None => true,
                    };
                    self.scaler = Some(shape);
                    self.stage = StripStage::Thumb(shape);
                    HardwareStripAction::Scale(ScaleJob { shape, new_scaler })
                },
                None => self.dealt(decoder),
            },
            HardwareStripEvent::Scaled(Err(reason)) => HardwareStripAction::Finish(Err(reason)),
            HardwareStripEvent::Scaled(Ok(pixels)) => match self.stage {
                StripStage::Thumb(shape) => {
                    let ghost before = self@;
                    let thumb: Thumb = Thumb { width: shape.width, height: shape.height, pixels };
                    self.thumbs.push(thumb);
                    assert(self@.thumbs =~= before.thumbs.push(thumb@));
                    self.dealt(decoder)
                },
                _ => self.dealt(decoder),
            },
        }
    }
}

/// The strip in which `thumbs` stand side by side, as high as the first of them, for a clip that
/// starts at `start` of the timeline.
pub fn hardware_strip(thumbs: &Vec<Thumb>, start: usize) -> (strip: VideoFrameBuffer)
    requires
        thumbs@.len() > 0,
        thumbs_fit(thumbs_view(thumbs@), thumbs@[0].height as int),
        total_width(thumbs_view(thumbs@)) > 0,
    ensures
        strip@ == (FrameView {
            width: total_width(thumbs_view(thumbs@)) as u32,
            height: thumbs@[0].height,
            rgba: strip_rows(thumbs_view(thumbs@), thumbs@[0].height as int),
            pts_samples: start,
        }),
{
    let height: u32 = thumbs[0].height;
    let width: u32 = match sum_widths(thumbs) {
        Some(width) => width,
        None => 0,
    };
    VideoFrameBuffer { width, height, rgba: strip_pixels(thumbs, height), pts_samples: start }
}

/// Every step deals with one sample at most and makes one thumbnail at most for it, so that a
/// strip never shows more than it was asked for.
pub proof fn strip_makes_one_thumb_per_sample(
    strip: HardwareStripView,
    decoder: DecoderView,
    event: HardwareStripEventView,
)
    requires
        strip.wf(),
        strip.expects(decoder, event),
    ensures
        ({
            let (after, _, action) = strip.resumed(decoder, event);
            &&& after.requested == strip.requested
            &&& strip.next_index <= after.next_index <= strip.next_index + 1
            &&& after.next_index <= strip.requested.len()
            &&& action matches HardwareStripActionView::Finish(Ok(thumbs)) ==> 0 < thumbs.len()
                <= strip.requested.len()
        }),
{
}

/// What is to be done next is always answered by an event that is waited for, up to the end of the
/// strip.
pub proof fn strip_waits_for_what_it_asks(
    strip: HardwareStripView,
    decoder: DecoderView,
    event: HardwareStripEventView,
)
    requires
        strip.wf(),
        strip.expects(decoder, event),
    ensures
        ({
            let (after, kept, action) = strip.resumed(decoder, event);
            let decoding = after.stage is Decoder;
            match action {
                HardwareStripActionView::Seek(_) => false,
                HardwareStripActionView::CollectPackets
                | HardwareStripActionView::ReadPacket => decoding && after.pump.awaited
                    == Awaited::Packet,
                HardwareStripActionView::SendPacket => decoding && after.pump.awaited
                    == Awaited::PacketSent,
                HardwareStripActionView::ReceiveFrame => decoding && after.between_frames(),
                HardwareStripActionView::SendEnd => decoding && after.pump.awaited
                    == Awaited::EndSent,
                HardwareStripActionView::Compare(_) => after.stage is Comparison
                    && kept.last_frame is Some,
                HardwareStripActionView::Scale(job) => after.stage == StripStage::Thumb(job.shape)
                    && kept.last_frame is Some,
                HardwareStripActionView::Finish(_) => true,
            }
        }),
{
}

/// A thumbnail is always made by a scaler for the sizes of its frame, and one scaler serves as
/// long as they stay the same.
pub proof fn scaler_is_kept_while_sizes_stay(
    strip: HardwareStripView,
    decoder: DecoderView,
    frame: FrameView,
)
    requires
        decoder.last_frame == Some(frame),
        !frame.is_blank(),
    ensures
        ({
            let (after, _, action) = strip.resumed(decoder, HardwareStripEventView::Compared(true));
            let job = action->Scale_0;
            &&& action is Scale
            &&& job.shape == HardwareStripView::shape_for(frame)
            &&& job.new_scaler <==> strip.scaler != Some(job.shape)
            &&& after.scaler == Some(job.shape)
        }),
{
}

/// The strip and the decoder after `events`.
pub open spec fn hardware_strip_after(
    strip: HardwareStripView,
    decoder: DecoderView,
    events: Seq<HardwareStripEventView>,
) -> (HardwareStripView, DecoderView)
    decreases events.len(),
{
    if events.len() == 0 {
        (strip, decoder)
    } else {
        let (before, kept) = hardware_strip_after(strip, decoder, events.drop_last());
        let (after, keeping, _) = before.resumed(kept, events.last());
        (after, keeping)
    }
}

/// What is to be done behind `events`, of which there is one at least.
pub open spec fn asked_behind(
    strip: HardwareStripView,
    decoder: DecoderView,
    events: Seq<HardwareStripEventView>,
) -> HardwareStripActionView {
    let (before, kept) = hardware_strip_after(strip, decoder, events.drop_last());
    before.resumed(kept, events.last()).2
}

/// Whether `events` come in the order in which they are waited for, and the strip is not done
/// behind all of them.
pub open spec fn hardware_strip_goes_on(
    strip: HardwareStripView,
    decoder: DecoderView,
    events: Seq<HardwareStripEventView>,
) -> bool
    decreases events.len(),
{
    if events.len() == 0 {
        true
    } else {
        let (before, kept) = hardware_strip_after(strip, decoder, events.drop_last());
        &&& hardware_strip_goes_on(strip, decoder, events.drop_last())
        &&& before.expects(kept, events.last())
        &&& !(asked_behind(strip, decoder, events) is Finish)
    }
}

/// The frames that came in `events`.
pub open spec fn pictures_in(events: Seq<HardwareStripEventView>) -> Seq<FrameView>
    decreases events.len(),
{
    if events.len() == 0 {
        Seq::empty()
    } else {
        match events.last() {
            HardwareStripEventView::Frame(Ok(Some(frame))) => pictures_in(events.drop_last()).push(
                frame.0,
            ),
            _ => pictures_in(events.drop_last()),
        }
    }
}

/// The places among the frames of those that were found due in `events`, one for each time that one
/// was found due.
pub open spec fn due_in(events: Seq<HardwareStripEventView>) -> Seq<int>
    decreases events.len(),
{
    if events.len() == 0 {
        Seq::empty()
    } else if events.last() == HardwareStripEventView::Compared(true) {
        due_in(events.drop_last()).push(pictures_in(events.drop_last()).len() - 1)
    } else {
        due_in(events.drop_last())
    }
}

/// The frames that were found due in `events` and have pixels, one for each time that one was found
/// due.
pub open spec fn shown_in(events: Seq<HardwareStripEventView>) -> Seq<FrameView>
    decreases events.len(),
{
    if events.len() == 0 {
        Seq::empty()
    } else {
        let before = events.drop_last();
        let frame = pictures_in(before).last();
        if events.last() == HardwareStripEventView::Compared(true) && !frame.is_blank() {
            shown_in(before).push(frame)
        } else {
            shown_in(before)
        }
    }
}

/// The pixels of the thumbnails that were made in `events`.
pub open spec fn scaled_in(events: Seq<HardwareStripEventView>) -> Seq<Seq<u8>>
    decreases events.len(),
{
    if events.len() == 0 {
        Seq::empty()
    } else {
        match events.last() {
            HardwareStripEventView::Scaled(Ok(pixels)) => scaled_in(events.drop_last()).push(pixels),
            _ => scaled_in(events.drop_last()),
        }
    }
}

/// Whether the frame at the place `frame` was compared with the requested sample `sample`, and found
/// due or not.
pub open spec fn compared(
    strip: HardwareStripView,
    decoder: DecoderView,
    events: Seq<HardwareStripEventView>,
    frame: int,
    sample: int,
    due: bool,
) -> bool {
    exists|at: int|
        #[trigger] compared_at(strip, decoder, events, at, frame, sample, due)
}

/// Whether the event at the place `at` tells that the frame at the place `frame` is due for the
/// requested sample `sample`, or that it is not.
pub open spec fn compared_at(
    strip: HardwareStripView,
    decoder: DecoderView,
    events: Seq<HardwareStripEventView>,
    at: int,
    frame: int,
    sample: int,
    due: bool,
) -> bool {
    &&& 0 < at < events.len()
    &&& 0 <= sample < strip.requested.len()
    &&& events[at] == HardwareStripEventView::Compared(due)
    &&& pictures_in(events.take(at)).len() == frame + 1
    &&& asked_behind(strip, decoder, events.take(at)) == HardwareStripActionView::Compare(
        local_sample(decoder.clip, strip.requested[sample]),
    )
}

/// The place of the first frame that is compared with the requested sample `sample`: the one that
/// was due for the sample before it.
pub open spec fn first_compared(events: Seq<HardwareStripEventView>, sample: int) -> int {
    if sample == 0 {
        0
    } else {
        due_in(events)[sample - 1]
    }
}

/// Whether the requested sample `sample` is dealt with by the first frame that was found due for it:
/// all frames before that one, from the first that was compared with the sample on, were not.
pub open spec fn first_due_deals(
    strip: HardwareStripView,
    decoder: DecoderView,
    events: Seq<HardwareStripEventView>,
    sample: int,
) -> bool {
    let dealing = due_in(events)[sample];
    &&& 0 <= first_compared(events, sample) <= dealing < pictures_in(events).len()
    &&& compared(strip, decoder, events, dealing, sample, true)
    &&& forall|frame: int|
        first_compared(events, sample) <= frame < dealing ==> #[trigger] compared(
            strip,
            decoder,
            events,
            frame,
            sample,
            false,
        )
}

/// Whether `thumbs` are the thumbnails of the first frames that are shown, in their order, with the
/// pixels that were made for them.
pub open spec fn thumbs_show(thumbs: Seq<ThumbView>, events: Seq<HardwareStripEventView>) -> bool {
    &&& thumbs.len() == scaled_in(events).len()
    &&& thumbs.len() <= shown_in(events).len()
    &&& forall|i: int|
        0 <= i < thumbs.len() ==> #[trigger] thumbs[i] == (ThumbView {
            width: HardwareStripView::shape_for(shown_in(events)[i]).width,
            height: HardwareStripView::shape_for(shown_in(events)[i]).height,
            pixels: scaled_in(events)[i],
        })
}

/// What holds of a strip behind events that it waited for.
spec fn strip_history(
    strip: HardwareStripView,
    decoder: DecoderView,
    events: Seq<HardwareStripEventView>,
) -> bool {
    let (after, kept) = hardware_strip_after(strip, decoder, events);
    let pictures = pictures_in(events);
    let dealt = due_in(events).len();
    let making = after.stage is Thumb;
    &&& after.wf()
    &&& after.requested == strip.requested
    &&& kept.clip == decoder.clip
    &&& pictures.len() > 0 ==> !(after.stage is Seek) && kept.last_frame == Some(pictures.last())
    &&& making || after.stage is Comparison ==> pictures.len() > 0
    &&& after.next_index + (if making { 1int } else { 0 }) == dealt
    &&& after.thumbs.len() + (if making { 1int } else { 0 }) == shown_in(events).len()
    &&& thumbs_show(after.thumbs, events)
    &&& making ==> {
        &&& due_in(events).last() == pictures.len() - 1
        &&& shown_in(events).last() == pictures.last()
        &&& after.stage == StripStage::Thumb(HardwareStripView::shape_for(pictures.last()))
    }
    &&& after.stage is Comparison ==> events.len() > 0 && asked_behind(strip, decoder, events)
        == HardwareStripActionView::Compare(
        local_sample(decoder.clip, strip.requested[dealt as int]),
    )
    &&& forall|sample: int|
        0 <= sample < dealt ==> #[trigger] first_due_deals(strip, decoder, events, sample)
    &&& 0 <= first_compared(events, dealt as int) <= pictures.len()
    &&& !making ==> forall|frame: int|
        first_compared(events, dealt as int) <= frame < pictures.len() - (
        if after.stage is Comparison {
            1int
        } else {
            0
        }) ==> #[trigger] compared(strip, decoder, events, frame, dealt as int, false)
}

/// What was compared stays compared behind one more event.
proof fn lemma_compared_stays(
    strip: HardwareStripView,
    decoder: DecoderView,
    events: Seq<HardwareStripEventView>,
    event: HardwareStripEventView,
)
    ensures
        forall|frame: int, sample: int, due: bool| #[trigger]
            compared(strip, decoder, events, frame, sample, due) ==> compared(
                strip,
                decoder,
                events.push(event),
                frame,
                sample,
                due,
            ),
{
    let longer = events.push(event);
    assert forall|frame: int, sample: int, due: bool| #[trigger]
        compared(strip, decoder, events, frame, sample, due) implies compared(
        strip,
        decoder,
        longer,
        frame,
        sample,
        due,
    ) by {
        let at = choose|at: int|
            #[trigger] compared_at(strip, decoder, events, at, frame, sample, due);
        assert(longer.take(at) =~= events.take(at));
        assert(compared_at(strip, decoder, longer, at, frame, sample, due));
    }
}

/// The samples that are dealt with stay dealt with behind one more event, and one more sample is
/// where a frame was found due for it.
proof fn lemma_dealings_go_on(
    strip: HardwareStripView,
    decoder: DecoderView,
    events: Seq<HardwareStripEventView>,
    event: HardwareStripEventView,
)
    requires
        strip_history(strip, decoder, events),
        ({
            let (after, kept) = hardware_strip_after(strip, decoder, events);
            after.expects(kept, event)
        }),
    ensures
        ({
            let longer = events.push(event);
            &&& forall|sample: int|
                0 <= sample < due_in(longer).len() ==> #[trigger] first_due_deals(
                    strip,
                    decoder,
                    longer,
                    sample,
                )
            &&& 0 <= first_compared(longer, due_in(longer).len() as int) <= pictures_in(longer).len()
            &&& event == HardwareStripEventView::Compared(false) ==> compared(
                strip,
                decoder,
                longer,
                pictures_in(events).len() - 1,
                due_in(events).len() as int,
                false,
            )
        }),
{
    let longer = events.push(event);
    let dealt = due_in(events).len() as int;
    let place = pictures_in(events).len() - 1;
    assert(longer.drop_last() =~= events);
    lemma_compared_stays(strip, decoder, events, event);
    if let HardwareStripEventView::Compared(due) = event {
        let at = events.len() as int;
        assert(longer.take(at) =~= events);
        assert(compared_at(strip, decoder, longer, at, place, dealt, due));
        assert(compared(strip, decoder, longer, place, dealt, due));
    }
    assert forall|sample: int| 0 <= sample < due_in(longer).len() implies #[trigger] first_due_deals(
        strip,
        decoder,
        longer,
        sample,
    ) by {
        if sample < dealt {
            assert(first_due_deals(strip, decoder, events, sample));
            assert(due_in(longer)[sample] == due_in(events)[sample]);
            assert(first_compared(longer, sample) == first_compared(events, sample));
            let dealing = due_in(events)[sample];
            assert(compared(strip, decoder, events, dealing, sample, true));
            assert forall|frame: int|
                first_compared(longer, sample) <= frame < dealing implies #[trigger] compared(
                strip,
                decoder,
                longer,
                frame,
                sample,
                false,
            ) by {
                assert(compared(strip, decoder, events, frame, sample, false));
            }
        } else {
            assert(sample == dealt && event == HardwareStripEventView::Compared(true));
            assert(first_compared(longer, sample) == first_compared(events, sample));
            if dealt > 0 {
                assert(first_due_deals(strip, decoder, events, dealt - 1));
            }
            assert forall|frame: int|
                first_compared(longer, sample) <= frame < place implies #[trigger] compared(
                strip,
                decoder,
                longer,
                frame,
                sample,
                false,
            ) by {
                assert(compared(strip, decoder, events, frame, sample, false));
            }
        }
    }
    let next = due_in(longer).len() as int;
    if next > 0 {
        assert(first_due_deals(strip, decoder, longer, next - 1));
    }
}

proof fn lemma_strip_history(
    strip: HardwareStripView,
    decoder: DecoderView,
    events: Seq<HardwareStripEventView>,
)
    requires
        strip.wf(),
        strip.stage is Seek,
        strip.next_index == 0,
        hardware_strip_goes_on(strip, decoder, events),
    ensures
        strip_history(strip, decoder, events),
    decreases events.len(),
{
    if events.len() > 0 {
        let before = events.drop_last();
        lemma_strip_history(strip, decoder, before);
        assert(before.push(events.last()) =~= events);
        lemma_dealings_go_on(strip, decoder, before, events.last());
        lemma_compared_stays(strip, decoder, before, events.last());
        let (after, _) = hardware_strip_after(strip, decoder, events);
        let next = due_in(events).len() as int;
        let (was, _) = hardware_strip_after(strip, decoder, before);
        assert(thumbs_show(after.thumbs, events));
        assert forall|frame: int|
            !(after.stage is Thumb) && first_compared(events, next) <= frame < pictures_in(
                events,
            ).len() - (if after.stage is Comparison {
                1int
            } else {
                0
            }) implies #[trigger] compared(strip, decoder, events, frame, next, false) by {
            if !(was.stage is Thumb) && events.last() != HardwareStripEventView::Compared(true) && frame
                < pictures_in(before).len() - (if was.stage is Comparison {
                1int
            } else {
                0
            }) {
                assert(compared(strip, decoder, before, frame, next, false));
            }
        }
    }
}

/// The strip from its start to its end: every requested sample that is dealt with is so by the first
/// frame that was found due for it, sample after sample, and the thumbnails that come out are those
/// of the frames that were due and have pixels, in the order of the samples, with the pixels that
/// were made for them. All samples are dealt with, unless the input ends before; the strip fails
/// only without a thumbnail, or where the work with the decoder failed.
pub proof fn strip_shows_first_due_frames(
    strip: HardwareStripView,
    decoder: DecoderView,
    events: Seq<HardwareStripEventView>,
    event: HardwareStripEventView,
)
    requires
        strip.wf(),
        strip.stage is Seek,
        strip.next_index == 0,
        hardware_strip_goes_on(strip, decoder, events),
        ({
            let (after, kept) = hardware_strip_after(strip, decoder, events);
            after.expects(kept, event) && after.resumed(kept, event).2 is Finish
        }),
    ensures
        ({
            let (after, kept) = hardware_strip_after(strip, decoder, events);
            let outcome = after.resumed(kept, event).2->Finish_0;
            let all = events.push(event);
            let failed = match event {
                HardwareStripEventView::Sought(_) => true,
                HardwareStripEventView::Sent(outcome) => outcome is Err,
                HardwareStripEventView::Frame(outcome) => outcome is Err,
                HardwareStripEventView::Scaled(outcome) => outcome is Err,
                _ => false,
            };
            &&& due_in(all).len() <= strip.requested.len()
            &&& forall|sample: int|
                0 <= sample < due_in(all).len() ==> #[trigger] first_due_deals(
                    strip,
                    decoder,
                    all,
                    sample,
                )
            &&& outcome matches Ok(thumbs) ==> {
                &&& !failed
                &&& thumbs.len() == shown_in(all).len()
                &&& thumbs_show(thumbs, all)
            }
            &&& outcome is Err <==> failed || shown_in(all).len() == 0
            &&& !failed && due_in(all).len() < strip.requested.len() ==> event
                == HardwareStripEventView::Packet(None) || event == HardwareStripEventView::Frame(
                Ok(None),
            )
        }),
{
    lemma_strip_history(strip, decoder, events);
    lemma_dealings_go_on(strip, decoder, events, event);
    let all = events.push(event);
    assert(all.drop_last() =~= events);
}

/// The samples that a strip shows are spaced evenly: where nothing saturates, thumbnail `i` of 0 to 7
/// asks for the sample that is `i` sevenths of the clip behind its start, cut to a whole sample.
pub proof fn wanted_sample_is_sevenths_into_clip(clip: VideoClipData, i: int)
    requires
        0 <= i <= 7,
        clip.length * i <= usize::MAX,
        clip.start + clip.length <= usize::MAX,
    ensures
        clip.start <= wanted_sample(clip, i) <= clip.start + clip.length,
        7 * (wanted_sample(clip, i) - clip.start) <= clip.length * i < 7 * (wanted_sample(clip, i)
            - clip.start) + 7,
{
    assert(clip.length * i <= clip.length * 7) by (nonlinear_arith)
        requires
            i <= 7,
            clip.length >= 0,
    ;
    assert(0 <= clip.length * i) by (nonlinear_arith)
        requires
            i >= 0,
            clip.length >= 0,
    ;
}

/// Two neighbours in a strip lie a seventh of the clip apart, to one sample, so that any two gaps
/// between neighbours differ by one sample at most.
pub proof fn wanted_samples_are_evenly_spaced(clip: VideoClipData, i: int, j: int)
    requires
        0 <= i < 7,
        0 <= j < 7,
        clip.length * 7 <= usize::MAX,
        clip.start + clip.length <= usize::MAX,
    ensures
        ({
            let gap = wanted_sample(clip, i + 1) - wanted_sample(clip, i);
            let other = wanted_sample(clip, j + 1) - wanted_sample(clip, j);
            &&& clip.length / 7 <= gap <= clip.length / 7 + 1
            &&& -1 <= gap - other <= 1
        }),
{
    let n = clip.length as int;
    assert(n * i <= n * 7 && n * (i + 1) <= n * 7 && n * j <= n * 7 && n * (j + 1) <= n * 7
        && n * (i + 1) == n * i + n && n * (j + 1) == n * j + n) by (nonlinear_arith)
        requires
            0 <= i < 7,
            0 <= j < 7,
            n >= 0,
    ;
    wanted_sample_is_sevenths_into_clip(clip, i);
    wanted_sample_is_sevenths_into_clip(clip, i + 1);
    wanted_sample_is_sevenths_into_clip(clip, j);
    wanted_sample_is_sevenths_into_clip(clip, j + 1);
}

/// Where the arithmetic saturates, the sample stays the nearest that can be had: a product beyond
/// `usize` counts as its largest number, and no sample is behind the end of the clip or beyond
/// `usize`.
pub proof fn wanted_sample_saturates(clip: VideoClipData, i: int)
    requires
        0 <= i <= 7,
        clip.length * i > usize::MAX,
    ensures
        wanted_sample(clip, i) <= clip.start + clip.length,
        clip.start + usize::MAX / 7 <= usize::MAX ==> wanted_sample(clip, i) == clip.start
            + usize::MAX / 7,
        clip.start + usize::MAX / 7 > usize::MAX ==> wanted_sample(clip, i) == usize::MAX,
{
    assert(clip.length * i <= clip.length * 7) by (nonlinear_arith)
        requires
            i <= 7,
            clip.length >= 0,
    ;
}

/// A strip shows the samples of its eight thumbnails, all of them and no others.
pub proof fn strip_shows_sample_of_every_thumb(clip: VideoClipData, sample: usize)
    ensures
        wanted_samples(clip, 8).contains(sample) <==> exists|i: int|
            0 <= i < 8 && #[trigger] wanted_sample(clip, i) == sample,
{
    lemma_wanted_samples_are_those(clip, 8, sample);
}

proof fn lemma_wanted_samples_are_those(clip: VideoClipData, n: int, sample: usize)
    requires
        0 <= n,
    ensures
        wanted_samples(clip, n).contains(sample) <==> exists|i: int|
            0 <= i < n && #[trigger] wanted_sample(clip, i) == sample,
    decreases n,
{
    if n > 0 {
        let before = wanted_samples(clip, n - 1);
        let after = wanted_samples(clip, n);
        let last = wanted_sample(clip, n - 1);
        lemma_wanted_samples_are_those(clip, n - 1, sample);
        if sample == last {
            assert(after[after.len() - 1] == last);
        } else {
            if before.contains(sample) {
                let at = before.index_of(sample);
                assert(after[at] == sample);
            }
            if after.contains(sample) {
                let at = after.index_of(sample);
                assert(before[at] == sample);
            }
            if exists|i: int| 0 <= i < n && #[trigger] wanted_sample(clip, i) == sample {
                let i = choose|i: int| 0 <= i < n && #[trigger] wanted_sample(clip, i) == sample;
                assert(0 <= i < n - 1);
            }
        }
    }
}

/// A packet of the strip's stream is sent, and one of any other stream left out; nothing else of the
/// strip or of the decoder changes. Behind the last packet the decoder is flushed where that is
/// wanted, and else the strip ends.
pub proof fn hardware_strip_decodes_its_stream(
    strip: HardwareStripView,
    decoder: DecoderView,
    stream: usize,
)
    requires
        strip.stage is Decoder,
    ensures
        ({
            let (after, kept, action) = strip.resumed(
                decoder,
                HardwareStripEventView::Packet(Some(stream)),
            );
            &&& kept == decoder
            &&& action is SendPacket <==> stream == strip.pump.stream_index
            &&& stream != strip.pump.stream_index ==> action is ReadPacket && after == strip
            &&& after.requested == strip.requested
            &&& after.next_index == strip.next_index
            &&& after.thumbs == strip.thumbs
        }),
        ({
            let (after, kept, action) = strip.resumed(
                decoder,
                HardwareStripEventView::Packet(None),
            );
            &&& kept == decoder
            &&& strip.pump.flush_at_end ==> action is SendEnd && after.thumbs == strip.thumbs
            &&& !strip.pump.flush_at_end ==> action is Finish && action->Finish_0
                == strip.outcome()
        }),
{
}

/// What the decoder says decides on the next step: frames are received of what it took, what it did
/// not take ends the strip with the reason behind the words that name it, and without one more frame
/// the next packet is read, or the strip ends where the decoder was flushed.
pub proof fn hardware_strip_follows_decoder(
    strip: HardwareStripView,
    decoder: DecoderView,
    reason: Seq<char>,
)
    requires
        strip.stage is Decoder,
    ensures
        strip.resumed(decoder, HardwareStripEventView::Sent(Ok(()))).2 is ReceiveFrame,
        strip.pump.awaited == Awaited::EndSent ==> strip.resumed(
            decoder,
            HardwareStripEventView::Sent(Err(reason)),
        ).2 == HardwareStripActionView::Finish(Err(strip.pump.flush_error + reason)),
        strip.pump.awaited != Awaited::EndSent ==> strip.resumed(
            decoder,
            HardwareStripEventView::Sent(Err(reason)),
        ).2 == HardwareStripActionView::Finish(Err(strip.pump.send_error + reason)),
        ({
            let (after, kept, action) = strip.resumed(decoder, HardwareStripEventView::Frame(Ok(None)));
            &&& kept == decoder
            &&& strip.pump.awaited != Awaited::LateFrame ==> action is ReadPacket && after.thumbs
                == strip.thumbs
            &&& strip.pump.awaited == Awaited::LateFrame ==> action is Finish && action->Finish_0
                == strip.outcome()
        }),
        strip.resumed(decoder, HardwareStripEventView::Frame(Err(reason))) == (
            strip,
            decoder,
            HardwareStripActionView::Finish(Err(reason)),
        ),
        strip.resumed(decoder, HardwareStripEventView::Scaled(Err(reason))) == (
            strip,
            decoder,
            HardwareStripActionView::Finish(Err(reason)),
        ),
{
}

/// A seek that went well makes the decoder forget its frame, and then packets are read, or the strip
/// ends with the reason why nothing can be decoded; one that failed ends it with its own reason.
pub proof fn hardware_strip_starts_behind_seek(
    strip: HardwareStripView,
    decoder: DecoderView,
    reason: Seq<char>,
)
    ensures
        ({
            let (after, kept, action) = strip.resumed(
                decoder,
                HardwareStripEventView::Sought(Ok(())),
            );
            &&& kept.last_frame is None
            &&& kept.current_seconds is None
            &&& kept.clip == decoder.clip
            &&& kept.sample_rate == decoder.sample_rate
            &&& kept.missing_format == decoder.missing_format
            &&& kept.pump == decoder.pump
            &&& decoder.missing_format is None ==> action is CollectPackets
            &&& decoder.missing_format is Some ==> action == HardwareStripActionView::Finish(
                Err(decoder.missing_format->0),
            )
            &&& after.requested == strip.requested
            &&& after.next_index == strip.next_index
            &&& after.thumbs == strip.thumbs
        }),
        strip.resumed(decoder, HardwareStripEventView::Sought(Err(reason))) == (
            strip,
            decoder,
            HardwareStripActionView::Finish(Err("video seek failed: "@ + reason)),
        ),
{
}

/// Every frame of the decoder is kept with its time, unchanged, and compared with the next sample that
/// is to be shown, at its place in the clip's file. A frame before that sample is passed over.
pub proof fn hardware_strip_compares_every_frame(
    strip: HardwareStripView,
    decoder: DecoderView,
    frame: FrameView,
    seconds: u64,
)
    ensures
        ({
            let (after, kept, action) = strip.resumed(
                decoder,
                HardwareStripEventView::Frame(Ok(Some((frame, seconds)))),
            );
            &&& kept.last_frame == Some(frame)
            &&& kept.current_seconds == Some(seconds)
            &&& kept.clip == decoder.clip
            &&& kept.sample_rate == decoder.sample_rate
            &&& kept.pump == decoder.pump
            &&& action == HardwareStripActionView::Compare(
                local_sample(decoder.clip, strip.requested[strip.next_index]),
            )
            &&& after.next_index == strip.next_index
            &&& after.thumbs == strip.thumbs
        }),
        ({
            let (after, kept, action) = strip.resumed(
                decoder,
                HardwareStripEventView::Compared(false),
            );
            &&& kept == decoder
            &&& action is ReceiveFrame
            &&& after.next_index == strip.next_index
            &&& after.thumbs == strip.thumbs
        }),
{
}

/// A frame that is due is scaled to a thumbnail of its own shape: from its own size to a height of 48
/// rows at most and a width that keeps the shape to half a pixel. One without pixels uses its sample
/// up without a thumbnail.
pub proof fn due_frame_is_scaled(
    strip: HardwareStripView,
    decoder: DecoderView,
    frame: FrameView,
)
    requires
        decoder.last_frame == Some(frame),
    ensures
        ({
            let (after, kept, action) = strip.resumed(
                decoder,
                HardwareStripEventView::Compared(true),
            );
            &&& kept == decoder
            &&& after.thumbs == strip.thumbs || action is Finish
            &&& frame.width > 0 && frame.height > 0 && frame.rgba.len() > 0 ==> {
                let shape = action->Scale_0.shape;
                &&& action is Scale
                &&& after.next_index == strip.next_index
                &&& shape.source_width == frame.width
                &&& shape.source_height == frame.height
                &&& frame.height <= 48 ==> shape.height == frame.height
                &&& frame.height >= 48 ==> shape.height == 48
                &&& shape.width >= 1
                &&& 2 * (frame.width * shape.height) < 2 * (shape.width * frame.height)
                    + frame.height
                &&& shape.width > 1 ==> 2 * (shape.width * frame.height) <= 2 * (frame.width
                    * shape.height) + frame.height
                &&& action->Scale_0.new_scaler <==> strip.scaler is None || strip.scaler->0 != shape
            }
            &&& frame.width == 0 || frame.height == 0 || frame.rgba.len() == 0 ==> after.next_index
                == strip.next_index + 1
        }),
{
    if frame.width > 0 && frame.height > 0 {
        thumb_keeps_shape_of_picture(frame.width, frame.height);
        thumbs_only_shrink(frame.width, frame.height);
    }
}

/// A thumbnail is put behind those before it, with its own pixels, and uses its sample up: the same
/// frame is compared with the next sample, or the strip ends with all thumbnails where none is left.
pub proof fn thumb_is_put_behind_others(
    strip: HardwareStripView,
    decoder: DecoderView,
    shape: ScalerShape,
    pixels: Seq<u8>,
)
    requires
        strip.stage == StripStage::Thumb(shape),
    ensures
        ({
            let (after, kept, action) = strip.resumed(
                decoder,
                HardwareStripEventView::Scaled(Ok(pixels)),
            );
            let thumb = ThumbView { width: shape.width, height: shape.height, pixels };
            &&& kept == decoder
            &&& after.next_index == strip.next_index + 1
            &&& after.requested == strip.requested
            &&& strip.next_index + 1 < strip.requested.len() ==> {
                &&& after.thumbs == strip.thumbs.push(thumb)
                &&& action == HardwareStripActionView::Compare(
                    local_sample(decoder.clip, strip.requested[strip.next_index + 1]),
                )
            }
            &&& strip.next_index + 1 >= strip.requested.len() ==> action
                == HardwareStripActionView::Finish(Ok(strip.thumbs.push(thumb)))
        }),
{
}

/// A strip comes to its thumbnails, and to a reason exactly where it has none.
pub proof fn hardware_strip_comes_to_thumbs(strip: HardwareStripView)
    ensures
        strip.thumbs.len() > 0 ==> strip.outcome() == Ok::<Seq<ThumbView>, Seq<char>>(strip.thumbs),
        strip.thumbs.len() == 0 ==> strip.outcome() == Err::<Seq<ThumbView>, Seq<char>>(
            "no decoded hardware preview frame available"@,
        ),
{
}

/// From the start of a strip to its end, the packets that are sent are exactly those of its stream,
/// each right after it is read and so in their order.
pub proof fn hardware_strip_sends_packets_of_its_stream(
    strip: HardwareStripView,
    decoder: DecoderView,
    events: Seq<HardwareStripEventView>,
)
    requires
        events.len() > 0,
    ensures
        asked_behind(strip, decoder, events) is SendPacket <==> events.last()
            == HardwareStripEventView::Packet(Some(strip.pump.stream_index)),
{
    lemma_hardware_strip_keeps_stream(strip, decoder, events.drop_last());
}

proof fn lemma_hardware_strip_keeps_stream(
    strip: HardwareStripView,
    decoder: DecoderView,
    events: Seq<HardwareStripEventView>,
)
    ensures
        ({
            let (after, kept) = hardware_strip_after(strip, decoder, events);
            after.pump.stream_index == strip.pump.stream_index
        }),
    decreases events.len(),
{
    if events.len() > 0 {
        lemma_hardware_strip_keeps_stream(strip, decoder, events.drop_last());
    }
}

/// The dialogue of a strip is seen as it is: nothing of what an event or an action holds is changed
/// or left out.
pub proof fn hardware_strip_is_seen_as_it_is(event: HardwareStripEvent, action: HardwareStripAction)
    ensures
        event matches HardwareStripEvent::Sought(Ok(_)) ==> event@
            == HardwareStripEventView::Sought(Ok(())),
        event matches HardwareStripEvent::Sought(Err(reason)) ==> event@
            == HardwareStripEventView::Sought(Err(reason@)),
        event matches HardwareStripEvent::Packet(stream) ==> event@
            == HardwareStripEventView::Packet(stream),
        event matches HardwareStripEvent::Sent(Ok(_)) ==> event@ == HardwareStripEventView::Sent(
            Ok(()),
        ),
        event matches HardwareStripEvent::Sent(Err(reason)) ==> event@
            == HardwareStripEventView::Sent(Err(reason@)),
        event matches HardwareStripEvent::Frame(Ok(Some((frame, seconds)))) ==> event@
            == HardwareStripEventView::Frame(Ok(Some((frame@, seconds)))),
        event matches HardwareStripEvent::Frame(Ok(None)) ==> event@
            == HardwareStripEventView::Frame(Ok(None)),
        event matches HardwareStripEvent::Frame(Err(reason)) ==> event@
            == HardwareStripEventView::Frame(Err(reason@)),
        event matches HardwareStripEvent::Compared(due) ==> event@
            == HardwareStripEventView::Compared(due),
        event matches HardwareStripEvent::Scaled(Ok(pixels)) ==> event@
            == HardwareStripEventView::Scaled(Ok(pixels@)),
        event matches HardwareStripEvent::Scaled(Err(reason)) ==> event@
            == HardwareStripEventView::Scaled(Err(reason@)),
        action matches HardwareStripAction::Seek(seek_us) ==> action@ is Seek && action@->Seek_0
            == seek_us,
        action is CollectPackets ==> action@ is CollectPackets,
        action is ReadPacket ==> action@ is ReadPacket,
        action is SendPacket ==> action@ is SendPacket,
        action is ReceiveFrame ==> action@ is ReceiveFrame,
        action is SendEnd ==> action@ is SendEnd,
        action matches HardwareStripAction::Compare(sample) ==> action@
            == HardwareStripActionView::Compare(sample),
        action matches HardwareStripAction::Scale(job) ==> action@
            == HardwareStripActionView::Scale(job),
        action matches HardwareStripAction::Finish(Ok(thumbs)) ==> action@
            == HardwareStripActionView::Finish(Ok(thumbs_view(thumbs@))),
        action matches HardwareStripAction::Finish(Err(reason)) ==> action@
            == HardwareStripActionView::Finish(Err(reason@)),
{
}

} // verus!
