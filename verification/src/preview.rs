//! The preview strip of a clip that is decoded in software: thumbnails of its key frames.
use crate::frame::{strip_pixels, thumb_size, Thumb, PREVIEW_MAX_THUMBS};
use crate::pump::{Awaited, Pump, PumpEvent, PumpStep};
use crate::types::VideoFrameBuffer;
use vstd::prelude::*;
#[allow(unused_imports)]
use crate::frame::{
    at_least_one, strip_rows, strip_shows_every_thumb, thumb_height_of, thumb_width_of, thumbs_fit, thumbs_view, total_width,
    ThumbView,
};
#[allow(unused_imports)]
use crate::pump::{outcome_view, PumpEventView, PumpStepView, PumpView};
#[allow(unused_imports)]
use crate::types::FrameView;

verus! {

/// The number of key frames from which a strip picks: four times as many as it shows.
pub const PREVIEW_MAX_KEYFRAMES: usize = 32;

/// How many of `len` frames a strip shows.
pub open spec fn shown_count(len: nat) -> nat {
    if len < 1 {
        1
    } else if len > PREVIEW_MAX_THUMBS {
        PREVIEW_MAX_THUMBS as nat
    } else {
        len
    }
}

/// Where frame `i` of those that a strip shows stands among `len` frames.
pub open spec fn shown_index(len: nat, i: int) -> int {
    i * (len as int) / (shown_count(len) as int)
}

/// The frames that a strip shows: as many as it has room for, spread evenly.
pub open spec fn shown<T>(frames: Seq<T>) -> Seq<T> {
    Seq::new(shown_count(frames.len()), |i: int| frames[shown_index(frames.len(), i)])
}

proof fn lemma_shown_index(len: nat, i: int)
    requires
        len > 0,
        0 <= i < shown_count(len),
    ensures
        0 <= shown_index(len, i) < len,
{
    let n = len as int;
    let count = shown_count(len) as int;
    assert(0 <= i * n / count && i * n / count < n) by (nonlinear_arith)
        requires
            0 <= i < count,
            n > 0,
    ;
}

/// A strip starts with the first frame, shows frames in their order and none twice, and shows all
/// frames where it has room for them.
pub proof fn shown_frames_are_spread(len: nat, i: int, j: int)
    requires
        len > 0,
        0 <= i < j < shown_count(len),
    ensures
        shown_index(len, 0) == 0,
        shown_index(len, i) < shown_index(len, j) < len,
        len <= PREVIEW_MAX_THUMBS ==> shown_index(len, i) == i && shown_index(len, j) == j,
{
    let n = len as int;
    let count = shown_count(len) as int;
    lemma_shown_index(len, j);
    assert(0 * n / count == 0) by (nonlinear_arith)
        requires
            count > 0,
    ;
    assert(i * n / count < j * n / count) by (nonlinear_arith)
        requires
            0 <= i < j,
            0 < count <= n,
    ;
    if len <= PREVIEW_MAX_THUMBS {
        assert(i * n / n == i && j * n / n == j) by (nonlinear_arith)
            requires
                n > 0,
        ;
    }
}

/// What happened while a strip is made.
pub enum KeyframeEvent {
    /// The input gave a packet of the stream with this index, or no more packets.
    Packet(Option<usize>),
    /// The decoder took what was sent, or failed with a reason.
    Sent(Result<(), String>),
    /// The decoder gave a frame, with the pixels of its thumbnail and whether it is a key frame;
    /// or none; or one that could not be converted.
    Frame(Result<Option<(Vec<u8>, bool)>, String>),
}

/// What is to be done next for a strip.
pub enum KeyframeAction {
    ReadPacket,
    SendPacket,
    ReceiveFrame,
    /// The strip is done.
    Finish(Result<VideoFrameBuffer, String>),
}

/// What a [`KeyframeEvent`] holds.
pub enum KeyframeEventView {
    Packet(Option<usize>),
    Sent(Result<(), Seq<char>>),
    Frame(Result<Option<(Seq<u8>, bool)>, Seq<char>>),
}

impl View for KeyframeEvent {
    type V = KeyframeEventView;

    open spec fn view(&self) -> KeyframeEventView {
        match self {
            KeyframeEvent::Packet(stream) => KeyframeEventView::Packet(*stream),
            KeyframeEvent::Sent(outcome) => KeyframeEventView::Sent(outcome_view(*outcome)),
            KeyframeEvent::Frame(Ok(Some(frame))) => KeyframeEventView::Frame(
                Ok(Some((frame.0@, frame.1))),
            ),
            KeyframeEvent::Frame(Ok(None)) => KeyframeEventView::Frame(Ok(None)),
            KeyframeEvent::Frame(Err(reason)) => KeyframeEventView::Frame(Err(reason@)),
        }
    }
}

/// What a [`KeyframeAction`] holds.
pub enum KeyframeActionView {
    ReadPacket,
    SendPacket,
    ReceiveFrame,
    Finish(Result<FrameView, Seq<char>>),
}

impl View for KeyframeAction {
    type V = KeyframeActionView;

    open spec fn view(&self) -> KeyframeActionView {
        match self {
            KeyframeAction::ReadPacket => KeyframeActionView::ReadPacket,
            KeyframeAction::SendPacket => KeyframeActionView::SendPacket,
            KeyframeAction::ReceiveFrame => KeyframeActionView::ReceiveFrame,
            KeyframeAction::Finish(Ok(frame)) => KeyframeActionView::Finish(Ok(frame@)),
            KeyframeAction::Finish(Err(reason)) => KeyframeActionView::Finish(Err(reason@)),
        }
    }
}

/// The making of a preview strip from the key frames of a clip.
pub struct KeyframeStrip {
    start: usize,
    width: u32,
    height: u32,
    keyframes: Vec<Thumb>,
    fallback: Option<Thumb>,
    pump: Pump,
}

/// What a [`KeyframeStrip`] holds.
#[verifier::ext_equal]
pub struct KeyframeStripView {
    /// Where the clip starts on the timeline.
    pub start: usize,
    /// The width of a thumbnail.
    pub width: u32,
    /// The height of a thumbnail.
    pub height: u32,
    /// The thumbnails of the key frames.
    pub keyframes: Seq<ThumbView>,
    /// The thumbnail of the first frame.
    pub fallback: Option<ThumbView>,
    /// The work with the decoder.
    pub pump: PumpView,
}

/// What an optional thumbnail holds.
pub open spec fn thumb_view(thumb: Option<Thumb>) -> Option<ThumbView> {
    match thumb {
        Some(thumb) => Some(thumb@),
        None => None,
    }
}

impl View for KeyframeStrip {
    type V = KeyframeStripView;

    closed spec fn view(&self) -> KeyframeStripView {
        KeyframeStripView {
            start: self.start,
            width: self.width,
            height: self.height,
            keyframes: thumbs_view(self.keyframes@),
            fallback: thumb_view(self.fallback),
            pump: self.pump@,
        }
    }
}

/// Whether a full strip of thumbnails of the given size fits in memory.
pub open spec fn full_strip_fits(width: int, height: int) -> bool {
    &&& width * (PREVIEW_MAX_THUMBS as int) <= u32::MAX
    &&& width * (PREVIEW_MAX_THUMBS as int) * height * 4 <= isize::MAX
}

impl KeyframeStripView {
    /// Whether `thumb` has the size of the thumbnails of this strip.
    pub open spec fn sized(self, thumb: ThumbView) -> bool {
        &&& thumb.width == self.width
        &&& thumb.height == self.height
        &&& thumb.pixels.len() == self.height * (self.width * 4)
    }

    /// Whether the strip can be put together: all thumbnails have their size, a full strip of them
    /// fits in memory, and no more key frames are held than are picked from.
    pub open spec fn complete(self) -> bool {
        &&& full_strip_fits(self.width as int, self.height as int)
        &&& self.keyframes.len() <= PREVIEW_MAX_KEYFRAMES
        &&& forall|i: int| 0 <= i < self.keyframes.len() ==> self.sized(#[trigger] self.keyframes[i])
        &&& match self.fallback {
            Some(thumb) => self.sized(thumb),
            None => self.keyframes.len() == 0,
        }
    }

    /// Whether the strip can be put together, more key frames are wanted, and the decoder is not
    /// flushed.
    pub open spec fn wf(self) -> bool {
        &&& self.complete()
        &&& self.keyframes.len() < PREVIEW_MAX_KEYFRAMES
        &&& !self.pump.flush_at_end
        &&& self.pump.awaited != Awaited::EndSent
        &&& self.pump.awaited != Awaited::LateFrame
    }

    /// Whether `event` is what is waited for, with pixels of the size of a thumbnail.
    pub open spec fn expects(self, event: KeyframeEventView) -> bool {
        match self.pump.awaited {
            Awaited::Packet => event is Packet,
            Awaited::PacketSent | Awaited::EndSent => event is Sent,
            Awaited::Frame | Awaited::LateFrame => match event {
                KeyframeEventView::Frame(Ok(Some(frame))) => frame.0.len() == self.height * (
                self.width * 4),
                KeyframeEventView::Frame(_) => true,
                _ => false,
            },
        }
    }

    /// The frames from which the strip is made: its key frames, or its first frame where there
    /// is no key frame.
    pub open spec fn candidates(self) -> Seq<ThumbView> {
        match self.fallback {
            Some(thumb) if self.keyframes.len() == 0 => seq![thumb],
            _ => self.keyframes,
        }
    }

    /// The strip.
    pub open spec fn outcome(self) -> Result<FrameView, Seq<char>> {
        if self.candidates().len() == 0 {
            Err("no decoded video frame available"@)
        } else {
            let thumbs = shown(self.candidates());
            Ok(
                FrameView {
                    width: (self.width * thumbs.len()) as u32,
                    height: self.height,
                    rgba: strip_rows(thumbs, self.height as int),
                    pts_samples: self.start,
                },
            )
        }
    }

    /// The strip after an event of the work with the decoder, and what is to be done next.
    pub open spec fn pumped(self, event: PumpEventView) -> (KeyframeStripView, KeyframeActionView) {
        let (pump, step) = self.pump.next(event);
        let after = KeyframeStripView { pump, ..self };
        (
            after,
            match step {
                PumpStepView::ReadPacket => KeyframeActionView::ReadPacket,
                PumpStepView::SendPacket => KeyframeActionView::SendPacket,
                PumpStepView::ReceiveFrame => KeyframeActionView::ReceiveFrame,
                PumpStepView::SendEnd | PumpStepView::Exhausted => KeyframeActionView::Finish(
                    after.outcome(),
                ),
                PumpStepView::Fail(reason) => KeyframeActionView::Finish(Err(reason)),
            },
        )
    }

    /// The strip with one more frame.
    pub open spec fn with_frame(self, pixels: Seq<u8>, is_key: bool) -> KeyframeStripView {
        let thumb = ThumbView { width: self.width, height: self.height, pixels };
        KeyframeStripView {
            fallback: match self.fallback {
                Some(first) => Some(first),
                None => Some(thumb),
            },
            keyframes: if is_key {
                self.keyframes.push(thumb)
            } else {
                self.keyframes
            },
            ..self
        }
    }

    /// The strip after `event`, and what is to be done next. It ends with the input, or with as
    /// many key frames as are picked from.
    pub open spec fn resumed(self, event: KeyframeEventView) -> (
        KeyframeStripView,
        KeyframeActionView,
    ) {
        match event {
            KeyframeEventView::Packet(stream) => self.pumped(PumpEventView::Packet(stream)),
            KeyframeEventView::Sent(outcome) => self.pumped(PumpEventView::Sent(outcome)),
            KeyframeEventView::Frame(Err(reason)) => (
                self,
                KeyframeActionView::Finish(Err(reason)),
            ),
            KeyframeEventView::Frame(Ok(None)) => self.pumped(PumpEventView::NoFrame),
            KeyframeEventView::Frame(Ok(Some(frame))) => {
                let after = self.with_frame(frame.0, frame.1);
                if after.keyframes.len() >= PREVIEW_MAX_KEYFRAMES {
                    (after, KeyframeActionView::Finish(after.outcome()))
                } else {
                    after.pumped(PumpEventView::FrameTaken)
                }
            },
        }
    }
}

/// Whether a full strip of thumbnails of a picture of the given size fits in memory.
pub fn strip_can_hold(width: u32, height: u32) -> (fits: bool)
    ensures
        fits == full_strip_fits(
            thumb_width_of(at_least_one(width), at_least_one(height)),
            thumb_height_of(at_least_one(height)) as int,
        ),
{
    let width: u32 = if width < 1 { 1 } else { width };
    let height: u32 = if height < 1 { 1 } else { height };
    let (thumb_width, thumb_height): (u32, u32) = thumb_size(width, height);
    let strip_width: u64 = thumb_width as u64 * 8;
    proof {
        assert(strip_width * thumb_height <= 0x7_ffff_fff8 * 48) by (nonlinear_arith)
            requires
                strip_width <= 0x7_ffff_fff8,
                thumb_height <= 48,
        ;
    }
    strip_width <= u32::MAX as u64 && strip_width as u128 * thumb_height as u128 * 4
        <= isize::MAX as u128
}

/// The strip of equally wide thumbnails is as wide as all of them.
proof fn lemma_total_width_equal(thumbs: Seq<ThumbView>, width: u32)
    requires
        forall|i: int| 0 <= i < thumbs.len() ==> (#[trigger] thumbs[i]).width == width,
    ensures
        total_width(thumbs) == width * thumbs.len(),
    decreases thumbs.len(),
{
    if thumbs.len() > 0 {
        let shorter = thumbs.drop_last();
        assert forall|i: int| 0 <= i < shorter.len() implies (#[trigger] shorter[i]).width
            == width by {
            assert(shorter[i] == thumbs[i]);
        }
        lemma_total_width_equal(shorter, width);
        assert(thumbs.last() == thumbs[thumbs.len() - 1]);
        assert(width * (thumbs.len() - 1) + width == width * thumbs.len()) by (nonlinear_arith);
    } else {
        assert(width * thumbs.len() == 0) by (nonlinear_arith)
            requires
                thumbs.len() == 0,
        ;
    }
}

/// The thumbnails that a strip shows of `candidates`.
fn pick_shown(candidates: &Vec<Thumb>) -> (picked: Vec<Thumb>)
    requires
        0 < candidates@.len() <= PREVIEW_MAX_KEYFRAMES,
    ensures
        thumbs_view(picked@) == shown(thumbs_view(candidates@)),
{
    let ghost views = thumbs_view(candidates@);
    let len: usize = candidates.len();
    let count: usize = if len > PREVIEW_MAX_THUMBS { PREVIEW_MAX_THUMBS } else { len };
    let mut picked: Vec<Thumb> = Vec::new();
    let mut i: usize = 0;
    while i < count
        invariant
            i <= count,
            len == candidates@.len(),
            0 < len <= PREVIEW_MAX_KEYFRAMES,
            count == shown_count(len as nat),
            views == thumbs_view(candidates@),
            thumbs_view(picked@) == shown(views).take(i as int),
        decreases count - i,
    {
        proof {
            lemma_shown_index(len as nat, i as int);
            assert(i * len <= 32 * 32) by (nonlinear_arith)
                requires
                    0 <= i <= 32,
                    0 <= len <= 32,
            ;
        }
        let at: usize = i * len / count;
        let ghost before = thumbs_view(picked@);
        picked.push(candidates[at].clone());
        proof {
            assert(views[at as int] == candidates@[at as int]@);
            assert(thumbs_view(picked@) =~= before.push(views[at as int]));
            assert(shown(views)[i as int] == views[at as int]);
            assert(shown(views).take(i + 1) =~= shown(views).take(i as int).push(views[at as int]));
        }
        i = i + 1;
    }
    assert(shown(views).take(i as int) =~= shown(views));
    picked
}

impl KeyframeStrip {
    /// The making of the strip of a clip that starts at `start` of the timeline, from the stream
    /// `stream_index` of its file, whose pictures have the given size.
    pub fn new(start: usize, stream_index: usize, width: u32, height: u32) -> (strip: Self)
        requires
            full_strip_fits(
                thumb_width_of(at_least_one(width), at_least_one(height)),
                thumb_height_of(at_least_one(height)) as int,
            ),
        ensures
            strip@.wf(),
            strip@ == (KeyframeStripView {
                start,
                width: thumb_width_of(at_least_one(width), at_least_one(height)) as u32,
                height: thumb_height_of(at_least_one(height)),
                keyframes: Seq::empty(),
                fallback: None,
                pump: PumpView {
                    stream_index,
                    flush_at_end: false,
                    send_error: "send video packet failed: "@,
                    flush_error: ""@,
                    awaited: Awaited::Packet,
                },
            }),
    {
        let width: u32 = if width < 1 { 1 } else { width };
        let height: u32 = if height < 1 { 1 } else { height };
        let (thumb_width, thumb_height): (u32, u32) = thumb_size(width, height);
        let strip: KeyframeStrip = KeyframeStrip {
            start,
            width: thumb_width,
            height: thumb_height,
            keyframes: Vec::new(),
            fallback: None,
            pump: Pump::new(stream_index, false, "send video packet failed: ", ""),
        };
        assert(strip@.keyframes =~= Seq::<ThumbView>::empty());
        strip
    }

    /// The width and the height of a thumbnail.
    pub fn thumb_dimensions(&self) -> (size: (u32, u32))
        ensures
            size == (self@.width, self@.height),
    {
        (self.width, self.height)
    }

    /// The strip of `candidates`, which are all of the size of a thumbnail.
    fn compose(&self, candidates: &Vec<Thumb>) -> (frame: VideoFrameBuffer)
        requires
            full_strip_fits(self@.width as int, self@.height as int),
            0 < candidates@.len() <= PREVIEW_MAX_KEYFRAMES,
            forall|i: int| #![trigger thumbs_view(candidates@)[i]]
                0 <= i < candidates@.len() ==> self@.sized(thumbs_view(candidates@)[i]),
        ensures
            frame@ == (FrameView {
                width: (self@.width * shown(thumbs_view(candidates@)).len()) as u32,
                height: self@.height,
                rgba: strip_rows(shown(thumbs_view(candidates@)), self@.height as int),
                pts_samples: self@.start,
            }),
    {
        let picked: Vec<Thumb> = pick_shown(candidates);
        let ghost views = thumbs_view(candidates@);
        let ghost thumbs = shown(views);
        proof {
            assert(thumbs.len() == picked@.len());
            assert forall|i: int| 0 <= i < thumbs.len() implies self@.sized(#[trigger] thumbs[i]) by {
                lemma_shown_index(views.len(), i);
                assert(thumbs[i] == views[shown_index(views.len(), i)]);
            }
            lemma_total_width_equal(thumbs, self.width);
            let n = thumbs.len() as int;
            let w = self.width as int;
            let h = self.height as int;
            assert(w * n <= w * 8 && w * n * h * 4 <= w * 8 * h * 4) by (nonlinear_arith)
                requires
                    0 <= n <= 8,
                    w >= 0,
                    h >= 0,
            ;
            assert(thumbs_fit(thumbs, self.height as int));
        }
        let pixels: Vec<u8> = strip_pixels(&picked, self.height);
        VideoFrameBuffer {
            width: self.width * picked.len() as u32,
            height: self.height,
            rgba: pixels,
            pts_samples: self.start,
        }
    }

    fn finish(&mut self) -> (outcome: Result<VideoFrameBuffer, String>)
        requires
            old(self)@.complete(),
        ensures
            final(self)@ == old(self)@,
            match outcome {
                Ok(frame) => old(self)@.outcome() == Ok::<FrameView, Seq<char>>(frame@),
                Err(reason) => old(self)@.outcome() == Err::<FrameView, Seq<char>>(reason@),
            },
    {
        if self.keyframes.is_empty() {
            match &self.fallback {
                Some(thumb) => {
                    let candidates: Vec<Thumb> = vec![thumb.clone()];
                    assert(thumbs_view(candidates@) =~= seq![thumb@]);
                    Ok(self.compose(&candidates))
                },
                None => Err("no decoded video frame available".to_owned()),
            }
        } else {
            Ok(self.compose(&self.keyframes))
        }
    }

    fn finished(&mut self) -> (action: KeyframeAction)
        requires
            old(self)@.complete(),
        ensures
            final(self)@ == old(self)@,
            action@ == KeyframeActionView::Finish(old(self)@.outcome()),
    {
        match self.finish() {
            Ok(frame) => KeyframeAction::Finish(Ok(frame)),
            Err(reason) => KeyframeAction::Finish(Err(reason)),
        }
    }

    fn pumped(&mut self, event: PumpEvent) -> (action: KeyframeAction)
        requires
            old(self)@.wf(),
            old(self)@.pump.expects(event@),
        ensures
            final(self)@.wf(),
            (final(self)@, action@) == old(self)@.pumped(event@),
    {
        match self.pump.next(event) {
            PumpStep::ReadPacket => KeyframeAction::ReadPacket,
            PumpStep::SendPacket => KeyframeAction::SendPacket,
            PumpStep::ReceiveFrame => KeyframeAction::ReceiveFrame,
            PumpStep::SendEnd | PumpStep::Exhausted => self.finished(),
            PumpStep::Fail(reason) => KeyframeAction::Finish(Err(reason)),
        }
    }

    /// Takes note of `event` and says what is to be done next.
    pub fn resume(&mut self, event: KeyframeEvent) -> (action: KeyframeAction)
        requires
            old(self)@.wf(),
            old(self)@.expects(event@),
        ensures
            (final(self)@, action@) == old(self)@.resumed(event@),
            !(action is Finish) ==> final(self)@.wf(),
    {
        match event {
            KeyframeEvent::Packet(stream) => self.pumped(PumpEvent::Packet(stream)),
            KeyframeEvent::Sent(outcome) => self.pumped(PumpEvent::Sent(outcome)),
            KeyframeEvent::Frame(Err(reason)) => KeyframeAction::Finish(Err(reason)),
            KeyframeEvent::Frame(Ok(None)) => self.pumped(PumpEvent::NoFrame),
            KeyframeEvent::Frame(Ok(Some((pixels, is_key)))) => {
                let ghost before = self@;
                let ghost bytes = pixels@;
                let thumb: Thumb = Thumb { width: self.width, height: self.height, pixels };
                if self.fallback.is_none() {
                    self.fallback = Some(thumb.clone());
                }
                if is_key {
                    self.keyframes.push(thumb);
                }
                proof {
                    if is_key {
                        assert(self@.keyframes =~= before.keyframes.push(thumb@));
                    }
                    assert(self@ =~= before.with_frame(bytes, is_key));
                }
                if self.keyframes.len() >= PREVIEW_MAX_KEYFRAMES {
                    self.finished()
                } else {
                    self.pumped(PumpEvent::FrameTaken)
                }
            },
        }
    }
}

/// What is to be done next is always answered by an event that is waited for, up to the end of the
/// strip.
pub proof fn keyframe_strip_waits_for_what_it_asks(
    strip: KeyframeStripView,
    event: KeyframeEventView,
)
    requires
        strip.wf(),
        strip.expects(event),
    ensures
        ({
            let (after, action) = strip.resumed(event);
            match action {
                KeyframeActionView::ReadPacket => after.pump.awaited == Awaited::Packet,
                KeyframeActionView::SendPacket => after.pump.awaited == Awaited::PacketSent,
                KeyframeActionView::ReceiveFrame => after.pump.awaited == Awaited::Frame
                    || after.pump.awaited == Awaited::LateFrame,
                KeyframeActionView::Finish(_) => true,
            }
        }),
{
}

/// The strip after `events`.
pub open spec fn strip_after(
    strip: KeyframeStripView,
    events: Seq<KeyframeEventView>,
) -> KeyframeStripView
    decreases events.len(),
{
    if events.len() == 0 {
        strip
    } else {
        strip_after(strip, events.drop_last()).resumed(events.last()).0
    }
}

/// Whether `events` come in the order in which they are waited for, and the strip is not done
/// behind all of them.
pub open spec fn strip_goes_on(strip: KeyframeStripView, events: Seq<KeyframeEventView>) -> bool
    decreases events.len(),
{
    if events.len() == 0 {
        true
    } else {
        let before = strip_after(strip, events.drop_last());
        &&& strip_goes_on(strip, events.drop_last())
        &&& before.expects(events.last())
        &&& !(before.resumed(events.last()).1 is Finish)
    }
}

/// The thumbnails of the frames that came in `events`: of all of them, or of the key frames only.
pub open spec fn thumbs_in(
    strip: KeyframeStripView,
    events: Seq<KeyframeEventView>,
    keys_only: bool,
) -> Seq<ThumbView>
    decreases events.len(),
{
    if events.len() == 0 {
        Seq::empty()
    } else {
        let before = thumbs_in(strip, events.drop_last(), keys_only);
        match events.last() {
            KeyframeEventView::Frame(Ok(Some((pixels, is_key)))) if is_key || !keys_only => {
                before.push(ThumbView { width: strip.width, height: strip.height, pixels })
            },
            _ => before,
        }
    }
}

/// The strip of a clip shows the key frames of the input in their order, up to as many as are
/// picked from; where the input ends without one, it shows its first frame. It fails only without
/// any frame, or where the work with the decoder failed.
pub proof fn strip_shows_key_frames_of_input(
    strip: KeyframeStripView,
    events: Seq<KeyframeEventView>,
    event: KeyframeEventView,
)
    requires
        strip.wf(),
        strip.keyframes.len() == 0,
        strip.fallback is None,
        strip_goes_on(strip, events),
        strip_after(strip, events).expects(event),
        strip_after(strip, events).resumed(event).1 is Finish,
    ensures
        ({
            let (after, action) = strip_after(strip, events).resumed(event);
            let all = events.push(event);
            let keys = thumbs_in(strip, all, true);
            let frames = thumbs_in(strip, all, false);
            match event {
                KeyframeEventView::Sent(outcome) => outcome is Err && action->Finish_0 is Err,
                KeyframeEventView::Frame(Err(reason)) => action == KeyframeActionView::Finish(
                    Err(reason),
                ),
                _ => {
                    &&& action == KeyframeActionView::Finish(after.outcome())
                    &&& after.candidates() == if keys.len() == 0 && frames.len() > 0 {
                        seq![frames[0]]
                    } else {
                        keys
                    }
                    &&& event is Frame ==> keys.len() == PREVIEW_MAX_KEYFRAMES
                    &&& event is Packet ==> event == KeyframeEventView::Packet(None)
                    &&& after.outcome() is Err <==> frames.len() == 0
                },
            }
        }),
{
    lemma_strip_collects(strip, events);
    let all = events.push(event);
    assert(all.drop_last() =~= events);
    let before = strip_after(strip, events);
    let after = before.resumed(event).0;
    assert(thumbs_in(strip, all, true).len() >= thumbs_in(strip, events, true).len());
    if !(event is Sent) {
        assert(after.keyframes =~= thumbs_in(strip, all, true));
    }
}

proof fn lemma_strip_collects(strip: KeyframeStripView, events: Seq<KeyframeEventView>)
    requires
        strip.wf(),
        strip.keyframes.len() == 0,
        strip.fallback is None,
        strip_goes_on(strip, events),
    ensures
        ({
            let after = strip_after(strip, events);
            let frames = thumbs_in(strip, events, false);
            &&& after.wf()
            &&& after.width == strip.width
            &&& after.height == strip.height
            &&& after.keyframes == thumbs_in(strip, events, true)
            &&& after.fallback == if frames.len() > 0 {
                Some(frames[0])
            } else {
                None
            }
            &&& thumbs_in(strip, events, true).len() <= frames.len()
        }),
    decreases events.len(),
{
    if events.len() == 0 {
        assert(strip.keyframes =~= Seq::<ThumbView>::empty());
    } else {
        lemma_strip_collects(strip, events.drop_last());
        let before = strip_after(strip, events.drop_last());
        let after = strip_after(strip, events);
        match events.last() {
            KeyframeEventView::Frame(Ok(Some((pixels, is_key)))) => {
                let thumb = ThumbView { width: strip.width, height: strip.height, pixels };
                assert(before.sized(thumb));
                assert forall|i: int| 0 <= i < after.keyframes.len() implies after.sized(
                    #[trigger] after.keyframes[i],
                ) by {
                    if i < before.keyframes.len() {
                        assert(before.sized(before.keyframes[i]));
                    }
                }
            },
            _ => {
                assert forall|i: int| 0 <= i < after.keyframes.len() implies after.sized(
                    #[trigger] after.keyframes[i],
                ) by {
                    assert(before.sized(before.keyframes[i]));
                }
            },
        }
    }
}

/// The strip of a clip with a key frame shows key frames only; without one it shows the first
/// frame alone.
pub proof fn strip_prefers_key_frames(strip: KeyframeStripView)
    requires
        strip.wf(),
    ensures
        strip.keyframes.len() > 0 ==> strip.candidates() == strip.keyframes,
        strip.keyframes.len() == 0 && strip.fallback is Some ==> shown(strip.candidates()) == seq![
            strip.fallback->0,
        ],
        strip.outcome() is Err <==> strip.fallback is None,
{
    if strip.keyframes.len() == 0 && strip.fallback is Some {
        assert(shown(strip.candidates()) =~= seq![strip.fallback->0]);
    }
}

/// The frames that a strip shows are spread evenly: with `count` frames shown of `len`, frame `i`
/// stands at `i * len / count`, cut to a whole number. So neighbours lie `len / count` apart, to one
/// frame, and the last is among the last `len / count` frames, counted upward.
pub proof fn shown_frames_are_evenly_spread(len: nat, i: int)
    requires
        len > 0,
        0 <= i < if len < 8 {
            len as int
        } else {
            8
        },
    ensures
        ({
            let count: int = if len < 8 {
                len as int
            } else {
                8
            };
            let index = shown_index(len, i);
            &&& shown_count(len) == count
            &&& index * count <= i * len < (index + 1) * count
            &&& i + 1 < count ==> len / count as nat <= shown_index(len, i + 1) - index <= len
                / count as nat + 1
            &&& i + 1 == count ==> (len - index) * count < len + count
        }),
{
    let count = shown_count(len) as int;
    let n = len as int;
    let index = shown_index(len, i);
    let a = i * n;
    assert(index * count <= a < (index + 1) * count) by (nonlinear_arith)
        requires
            index == a / count,
            count > 0,
    ;
    if i + 1 < count {
        let next = shown_index(len, i + 1);
        let b = (i + 1) * n;
        let q = n / count;
        assert(b == a + n) by (nonlinear_arith)
            requires
                a == i * n,
                b == (i + 1) * n,
        ;
        assert(q <= next - index <= q + 1) by (nonlinear_arith)
            requires
                index == a / count,
                next == (a + n) / count,
                q == n / count,
                count > 0,
        ;
    } else {
        assert((n - index) * count < n + count) by (nonlinear_arith)
            requires
                i + 1 == count,
                a == i * n,
                a < (index + 1) * count,
        ;
    }
}

/// The frames that a strip shows of `frames` are those at the even places, unchanged, and no more
/// than eight.
pub proof fn shown_frames_are_frames<T>(frames: Seq<T>, i: int)
    requires
        frames.len() > 0,
        0 <= i < shown(frames).len(),
    ensures
        shown(frames).len() == if frames.len() < 8 {
            frames.len()
        } else {
            8
        },
        ({
            let index = shown_index(frames.len(), i);
            &&& 0 <= index < frames.len()
            &&& shown(frames)[i] == frames[index]
        }),
{
    lemma_shown_index(frames.len(), i);
}

/// A strip shows its frames side by side, at the start of the clip: pixel row `y` of the shown frame
/// `i` stands in row `y` of the strip, behind the frames to its left, byte for byte, and shown
/// frame `i` is the one at the even place `i` among the candidates.
pub proof fn strip_pixels_are_those_of_candidates(
    strip: KeyframeStripView,
    i: int,
    index: int,
    y: int,
    x: int,
)
    requires
        strip.complete(),
        strip.candidates().len() > 0,
        0 <= i < if strip.candidates().len() < 8 {
            strip.candidates().len() as int
        } else {
            8
        },
        0 <= y < strip.height,
        0 <= x < 4 * strip.width,
        ({
            let len = strip.candidates().len();
            let count: int = if len < 8 {
                len as int
            } else {
                8
            };
            index * count <= i * len < (index + 1) * count
        }),
    ensures
        strip.outcome() matches Ok(frame) && {
            let len = strip.candidates().len();
            let count: int = if len < 8 {
                len as int
            } else {
                8
            };
            let at = y * (strip.width * count * 4) + i * strip.width * 4 + x;
            &&& frame.width == strip.width * count
            &&& frame.height == strip.height
            &&& frame.pts_samples == strip.start
            &&& frame.rgba.len() == frame.width * frame.height * 4
            &&& 0 <= index < len
            &&& 0 <= at < frame.rgba.len()
            &&& frame.rgba[at] == strip.candidates()[index].pixels[y * (strip.width * 4) + x]
        },
{
    let candidates = strip.candidates();
    let len = candidates.len();
    let count = shown_count(len) as int;
    let thumbs = shown(candidates);
    let w = strip.width as int;
    let h = strip.height as int;
    shown_frames_are_evenly_spread(len, i);
    lemma_shown_index(len, i);
    assert(index == shown_index(len, i)) by (nonlinear_arith)
        requires
            index * count <= i * len < (index + 1) * count,
            shown_index(len, i) * count <= i * len < (shown_index(len, i) + 1) * count,
            count > 0,
    ;
    assert forall|k: int| 0 <= k < candidates.len() implies strip.sized(#[trigger] candidates[k]) by {
        if strip.keyframes.len() > 0 {
            assert(strip.sized(strip.keyframes[k]));
        }
    }
    assert forall|k: int| 0 <= k < thumbs.len() implies strip.sized(#[trigger] thumbs[k]) by {
        lemma_shown_index(len, k);
        assert(thumbs[k] == candidates[shown_index(len, k)]);
    }
    lemma_total_width_equal(thumbs, strip.width);
    assert forall|k: int| 0 <= k < i implies (#[trigger] thumbs.take(i)[k]).width == strip.width by {
        assert(strip.sized(thumbs[k]));
    }
    lemma_total_width_equal(thumbs.take(i), strip.width);
    assert(w * count <= w * 8 && w * count * h * 4 <= w * 8 * h * 4) by (nonlinear_arith)
        requires
            0 <= count <= 8,
            w >= 0,
            h >= 0,
    ;
    assert(strip.sized(thumbs[i]));
    assert(thumbs_fit(thumbs, h));
    strip_shows_every_thumb(thumbs, h, i, y, x);
    assert(w * i == i * w) by (nonlinear_arith);
    assert(h * (w * count * 4) == w * count * h * 4) by (nonlinear_arith);
    assert(y * (w * count * 4) == y * (total_width(thumbs) * 4));
}

/// A packet of the strip's stream is sent, and one of any other stream left out without a change.
/// Behind the last packet the strip is put together of what was collected.
pub proof fn strip_decodes_its_stream(strip: KeyframeStripView, stream: usize)
    ensures
        ({
            let (after, action) = strip.resumed(KeyframeEventView::Packet(Some(stream)));
            &&& action is SendPacket <==> stream == strip.pump.stream_index
            &&& stream != strip.pump.stream_index ==> action is ReadPacket && after == strip
            &&& after.keyframes == strip.keyframes
            &&& after.fallback == strip.fallback
            &&& after.pump.stream_index == strip.pump.stream_index
        }),
        ({
            let (after, action) = strip.resumed(KeyframeEventView::Packet(None));
            &&& after.keyframes == strip.keyframes
            &&& after.fallback == strip.fallback
            &&& action is Finish
            &&& action->Finish_0 == strip.outcome()
        }),
{
}

/// A packet that the decoder took gives frames, one that it did not take ends the work with the
/// reason behind the words that name it; without one more frame the next packet is read.
pub proof fn strip_follows_decoder(strip: KeyframeStripView, reason: Seq<char>)
    requires
        strip.wf(),
    ensures
        strip.resumed(KeyframeEventView::Sent(Ok(()))).1 is ReceiveFrame,
        strip.resumed(KeyframeEventView::Sent(Err(reason))).1 == KeyframeActionView::Finish(
            Err(strip.pump.send_error + reason),
        ),
        strip.resumed(KeyframeEventView::Frame(Ok(None))).1 is ReadPacket,
        strip.resumed(KeyframeEventView::Frame(Err(reason))) == (
            strip,
            KeyframeActionView::Finish(Err(reason)),
        ),
        forall|event: KeyframeEventView|
            {
                let after = #[trigger] strip.resumed(event).0;
                &&& after.start == strip.start
                &&& after.width == strip.width
                &&& after.height == strip.height
                &&& after.pump.stream_index == strip.pump.stream_index
            },
{
}

/// Every key frame is collected behind those before it, with its own pixels, and the first frame is
/// kept for a clip without one. The strip is put together with the thirty-second key frame, and not
/// before.
pub proof fn strip_collects_key_frames(strip: KeyframeStripView, pixels: Seq<u8>, is_key: bool)
    ensures
        ({
            let (after, action) = strip.resumed(
                KeyframeEventView::Frame(Ok(Some((pixels, is_key)))),
            );
            let collected = if is_key {
                strip.keyframes.len() + 1
            } else {
                strip.keyframes.len()
            };
            &&& after.keyframes.len() == collected
            &&& forall|i: int|
                0 <= i < strip.keyframes.len() ==> #[trigger] after.keyframes[i]
                    == strip.keyframes[i]
            &&& is_key ==> {
                &&& after.keyframes.last().pixels == pixels
                &&& after.keyframes.last().width == strip.width
                &&& after.keyframes.last().height == strip.height
            }
            &&& strip.fallback is Some ==> after.fallback == strip.fallback
            &&& strip.fallback is None ==> after.fallback is Some && after.fallback->0.pixels
                == pixels && after.fallback->0.width == strip.width && after.fallback->0.height
                == strip.height
            &&& action is Finish <==> collected >= 32
            &&& collected >= 32 ==> action->Finish_0 == after.outcome()
            &&& collected < 32 ==> action is ReceiveFrame
        }),
{
}

/// What is to be done behind the event `i` of the making of a strip.
pub open spec fn asked_in_strip(
    strip: KeyframeStripView,
    events: Seq<KeyframeEventView>,
    i: int,
) -> KeyframeActionView {
    strip_after(strip, events.take(i)).resumed(events[i]).1
}

/// From the start of a strip to its end, the packets that are sent are exactly those of its stream,
/// each right after it is read and so in their order.
pub proof fn strip_sends_packets_of_its_stream(
    strip: KeyframeStripView,
    events: Seq<KeyframeEventView>,
    i: int,
)
    requires
        0 <= i < events.len(),
    ensures
        asked_in_strip(strip, events, i) is SendPacket <==> events[i] == KeyframeEventView::Packet(
            Some(strip.pump.stream_index),
        ),
{
    lemma_strip_keeps_stream(strip, events.take(i));
}

proof fn lemma_strip_keeps_stream(strip: KeyframeStripView, events: Seq<KeyframeEventView>)
    ensures
        strip_after(strip, events).pump.stream_index == strip.pump.stream_index,
    decreases events.len(),
{
    if events.len() > 0 {
        lemma_strip_keeps_stream(strip, events.drop_last());
    }
}

/// A full strip of eight thumbnails fits where its width fits in `u32` and its bytes in memory.
pub proof fn full_strip_is_eight_thumbs(width: int, height: int)
    ensures
        full_strip_fits(width, height) <==> 8 * width <= u32::MAX && 4 * (8 * width * height)
            <= isize::MAX,
{
    assert(width * 8 * height * 4 == 4 * (8 * width * height)) by (nonlinear_arith);
}

/// The dialogue of a strip is seen as it is: nothing of what an event or an action holds is changed
/// or left out.
pub proof fn keyframe_strip_is_seen_as_it_is(event: KeyframeEvent, action: KeyframeAction)
    ensures
        event matches KeyframeEvent::Packet(stream) ==> event@ == KeyframeEventView::Packet(stream),
        event matches KeyframeEvent::Sent(Ok(_)) ==> event@ == KeyframeEventView::Sent(Ok(())),
        event matches KeyframeEvent::Sent(Err(reason)) ==> event@ == KeyframeEventView::Sent(
            Err(reason@),
        ),
        event matches KeyframeEvent::Frame(Ok(Some((pixels, is_key)))) ==> event@
            == KeyframeEventView::Frame(Ok(Some((pixels@, is_key)))),
        event matches KeyframeEvent::Frame(Ok(None)) ==> event@ == KeyframeEventView::Frame(
            Ok(None),
        ),
        event matches KeyframeEvent::Frame(Err(reason)) ==> event@ == KeyframeEventView::Frame(
            Err(reason@),
        ),
        action is ReadPacket ==> action@ is ReadPacket,
        action is SendPacket ==> action@ is SendPacket,
        action is ReceiveFrame ==> action@ is ReceiveFrame,
        action matches KeyframeAction::Finish(Ok(frame)) ==> action@ == KeyframeActionView::Finish(
            Ok(frame@),
        ),
        action matches KeyframeAction::Finish(Err(reason)) ==> action@
            == KeyframeActionView::Finish(Err(reason@)),
{
}

/// A strip without any frame to show comes to a reason, and only such a strip does.
pub proof fn strip_without_frames_has_reason(strip: KeyframeStripView)
    ensures
        strip.candidates().len() == 0 ==> strip.outcome() == Err::<FrameView, Seq<char>>(
            "no decoded video frame available"@,
        ),
        strip.candidates().len() > 0 ==> strip.outcome() is Ok,
{
}

} // verus!
