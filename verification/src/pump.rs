//! The order in which packets go into a decoder and frames come out of it.
use crate::text::joined;
use vstd::prelude::*;

verus! {

/// What the work with a decoder waits for.
#[derive(Debug, Clone, Copy, PartialEq, Eq, Structural)]
pub enum Awaited {
    /// The next packet of the input.
    Packet,
    /// Whether the decoder took a packet.
    PacketSent,
    /// A frame of the packet.
    Frame,
    /// Whether the decoder took the end of the input.
    EndSent,
    /// A frame that the decoder held back until the end of the input.
    LateFrame,
}

/// What happened to a decoder.
pub enum PumpEvent {
    /// The input gave a packet of the stream with this index, or no more packets.
    Packet(Option<usize>),
    /// The decoder took what was sent, or failed with a reason.
    Sent(Result<(), String>),
    /// The decoder gave a frame, and more frames are wanted.
    FrameTaken,
    /// The decoder has no frame.
    NoFrame,
}

/// What is to be done next with a decoder.
pub enum PumpStep {
    ReadPacket,
    SendPacket,
    ReceiveFrame,
    SendEnd,
    /// There are no more frames.
    Exhausted,
    /// The decoder failed.
    Fail(String),
}

/// What a [`PumpEvent`] holds.
pub enum PumpEventView {
    Packet(Option<usize>),
    Sent(Result<(), Seq<char>>),
    FrameTaken,
    NoFrame,
}

/// What a [`PumpStep`] holds.
pub enum PumpStepView {
    ReadPacket,
    SendPacket,
    ReceiveFrame,
    SendEnd,
    Exhausted,
    Fail(Seq<char>),
}

/// An outcome with the text of its error.
pub open spec fn outcome_view(outcome: Result<(), String>) -> Result<(), Seq<char>> {
    match outcome {
        Ok(_) => Ok(()),
        Err(reason) => Err(reason@),
    }
}

impl View for PumpEvent {
    type V = PumpEventView;

    open spec fn view(&self) -> PumpEventView {
        match self {
            PumpEvent::Packet(stream) => PumpEventView::Packet(*stream),
            PumpEvent::Sent(outcome) => PumpEventView::Sent(outcome_view(*outcome)),
            PumpEvent::FrameTaken => PumpEventView::FrameTaken,
            PumpEvent::NoFrame => PumpEventView::NoFrame,
        }
    }
}

impl View for PumpStep {
    type V = PumpStepView;

    open spec fn view(&self) -> PumpStepView {
        match self {
            PumpStep::ReadPacket => PumpStepView::ReadPacket,
            PumpStep::SendPacket => PumpStepView::SendPacket,
            PumpStep::ReceiveFrame => PumpStepView::ReceiveFrame,
            PumpStep::SendEnd => PumpStepView::SendEnd,
            PumpStep::Exhausted => PumpStepView::Exhausted,
            PumpStep::Fail(reason) => PumpStepView::Fail(reason@),
        }
    }
}

/// Works one stream of an input through a decoder.
#[derive(Debug)]
pub struct Pump {
    /// The stream whose packets are decoded.
    pub stream_index: usize,
    /// Whether frames are asked for once more behind the last packet.
    pub flush_at_end: bool,
    /// What stands before the reason why a packet was not taken.
    pub send_error: &'static str,
    /// What stands before the reason why the end was not taken.
    pub flush_error: &'static str,
    /// What is waited for.
    pub awaited: Awaited,
}

/// What a [`Pump`] holds.
#[verifier::ext_equal]
pub struct PumpView {
    pub stream_index: usize,
    pub flush_at_end: bool,
    pub send_error: Seq<char>,
    pub flush_error: Seq<char>,
    pub awaited: Awaited,
}

impl View for Pump {
    type V = PumpView;

    open spec fn view(&self) -> PumpView {
        PumpView {
            stream_index: self.stream_index,
            flush_at_end: self.flush_at_end,
            send_error: self.send_error@,
            flush_error: self.flush_error@,
            awaited: self.awaited,
        }
    }
}

impl PumpView {
    /// Whether `event` is what is waited for.
    pub open spec fn expects(self, event: PumpEventView) -> bool {
        match self.awaited {
            Awaited::Packet => event is Packet,
            Awaited::PacketSent | Awaited::EndSent => event is Sent,
            Awaited::Frame | Awaited::LateFrame => event is FrameTaken || event is NoFrame,
        }
    }

    /// The pump that waits for `awaited`.
    pub open spec fn awaiting(self, awaited: Awaited) -> PumpView {
        PumpView { awaited, ..self }
    }

    /// The pump after `event`, and what is to be done next: packets of other streams are left
    /// out; a packet is sent and then all its frames are received; behind the last packet the
    /// decoder is flushed, where that is wanted.
    pub open spec fn next(self, event: PumpEventView) -> (PumpView, PumpStepView) {
        match event {
            PumpEventView::Packet(Some(stream)) => if stream == self.stream_index {
                (self.awaiting(Awaited::PacketSent), PumpStepView::SendPacket)
            } else {
                (self, PumpStepView::ReadPacket)
            },
            PumpEventView::Packet(None) => if self.flush_at_end {
                (self.awaiting(Awaited::EndSent), PumpStepView::SendEnd)
            } else {
                (self, PumpStepView::Exhausted)
            },
            PumpEventView::Sent(Ok(_)) => (
                self.awaiting(
                    if self.awaited == Awaited::EndSent {
                        Awaited::LateFrame
                    } else {
                        Awaited::Frame
                    },
                ),
                PumpStepView::ReceiveFrame,
            ),
            PumpEventView::Sent(Err(reason)) => (
                self,
                PumpStepView::Fail(
                    (if self.awaited == Awaited::EndSent {
                        self.flush_error
                    } else {
                        self.send_error
                    }) + reason,
                ),
            ),
            PumpEventView::FrameTaken => (self, PumpStepView::ReceiveFrame),
            PumpEventView::NoFrame => if self.awaited == Awaited::LateFrame {
                (self, PumpStepView::Exhausted)
            } else {
                (self.awaiting(Awaited::Packet), PumpStepView::ReadPacket)
            },
        }
    }
}

impl Pump {
    /// A pump that is about to read the first packet.
    pub fn new(
        stream_index: usize,
        flush_at_end: bool,
        send_error: &'static str,
        flush_error: &'static str,
    ) -> (pump: Self)
        ensures
            pump@ == (PumpView {
                stream_index,
                flush_at_end,
                send_error: send_error@,
                flush_error: flush_error@,
                awaited: Awaited::Packet,
            }),
    {
        Pump { stream_index, flush_at_end, send_error, flush_error, awaited: Awaited::Packet }
    }

    /// Goes back to reading packets.
    pub fn restart(&mut self)
        ensures
            final(self)@ == old(self)@.awaiting(Awaited::Packet),
    {
        self.awaited = Awaited::Packet;
    }

    /// Takes note of `event` and says what is to be done next.
    pub fn next(&mut self, event: PumpEvent) -> (step: PumpStep)
        requires
            old(self)@.expects(event@),
        ensures
            (final(self)@, step@) == old(self)@.next(event@),
    {
        match event {
            PumpEvent::Packet(Some(stream)) => if stream == self.stream_index {
                self.awaited = Awaited::PacketSent;
                PumpStep::SendPacket
            } else {
                PumpStep::ReadPacket
            },
            PumpEvent::Packet(None) => if self.flush_at_end {
                self.awaited = Awaited::EndSent;
                PumpStep::SendEnd
            } else {
                PumpStep::Exhausted
            },
            PumpEvent::Sent(Ok(_)) => {
                self.awaited = if self.awaited == Awaited::EndSent {
                    Awaited::LateFrame
                } else {
                    Awaited::Frame
                };
                PumpStep::ReceiveFrame
            },
            PumpEvent::Sent(Err(reason)) => if self.awaited == Awaited::EndSent {
                PumpStep::Fail(joined(self.flush_error, reason.as_str()))
            } else {
                PumpStep::Fail(joined(self.send_error, reason.as_str()))
            },
            PumpEvent::FrameTaken => PumpStep::ReceiveFrame,
            PumpEvent::NoFrame => if self.awaited == Awaited::LateFrame {
                PumpStep::Exhausted
            } else {
                self.awaited = Awaited::Packet;
                PumpStep::ReadPacket
            },
        }
    }
}

/// Only packets of the stream go into the decoder. A packet of any other stream, whatever its
/// index, is left out: nothing changes, and the next packet is read.
pub proof fn other_streams_are_left_out(pump: PumpView, stream: usize)
    ensures
        ({
            let (after, step) = pump.next(PumpEventView::Packet(Some(stream)));
            &&& step is SendPacket <==> stream == pump.stream_index
            &&& step is ReadPacket <==> stream < pump.stream_index || pump.stream_index < stream
            &&& step is ReadPacket ==> after == pump
            &&& step is SendPacket ==> after.awaited == Awaited::PacketSent
        }),
{
}

/// Behind the last packet the decoder is told of the end where it is flushed, and only there; else
/// nothing more is done with it.
pub proof fn end_of_input_flushes_where_wanted(pump: PumpView)
    ensures
        ({
            let (after, step) = pump.next(PumpEventView::Packet(None));
            &&& step is SendEnd <==> pump.flush_at_end
            &&& step is SendEnd ==> after.awaited == Awaited::EndSent
            &&& step is Exhausted <==> !pump.flush_at_end
            &&& step is Exhausted ==> after == pump
        }),
{
}

/// What was taken leads to its frames; what was not taken ends the work, and the reason names what
/// was sent before it names why.
pub proof fn sent_packet_gives_frames_or_reason(pump: PumpView, reason: Seq<char>)
    ensures
        ({
            let (after, step) = pump.next(PumpEventView::Sent(Ok(())));
            &&& step is ReceiveFrame
            &&& pump.awaited == Awaited::EndSent ==> after.awaited == Awaited::LateFrame
            &&& pump.awaited != Awaited::EndSent ==> after.awaited == Awaited::Frame
        }),
        ({
            let (after, step) = pump.next(PumpEventView::Sent(Err(reason)));
            let what = if pump.awaited == Awaited::EndSent {
                pump.flush_error
            } else {
                pump.send_error
            };
            &&& step is Fail
            &&& step->Fail_0.len() == what.len() + reason.len()
            &&& what.is_prefix_of(step->Fail_0)
            &&& reason.is_suffix_of(step->Fail_0)
            &&& after == pump
        }),
{
    let what = if pump.awaited == Awaited::EndSent {
        pump.flush_error
    } else {
        pump.send_error
    };
    let whole = what + reason;
    assert(what =~= whole.subrange(0, what.len() as int));
    assert(reason =~= whole.subrange(whole.len() - reason.len(), whole.len() as int));
}

/// All frames of what was sent are received before anything else; without one more, the next packet
/// is read, or the work is done where the end was sent.
pub proof fn frames_are_received_until_none_is_left(pump: PumpView)
    ensures
        pump.next(PumpEventView::FrameTaken) == (pump, PumpStepView::ReceiveFrame),
        ({
            let (after, step) = pump.next(PumpEventView::NoFrame);
            &&& step is Exhausted <==> pump.awaited == Awaited::LateFrame
            &&& step is Exhausted ==> after == pump
            &&& step is ReadPacket <==> pump.awaited != Awaited::LateFrame
            &&& step is ReadPacket ==> after.awaited == Awaited::Packet
        }),
{
}

/// Nothing that happens to a decoder changes the stream that is decoded, whether it is flushed, or
/// how failures are named.
pub proof fn pump_keeps_its_stream(pump: PumpView, event: PumpEventView)
    ensures
        ({
            let after = pump.next(event).0;
            &&& after.stream_index == pump.stream_index
            &&& after.flush_at_end == pump.flush_at_end
            &&& after.send_error == pump.send_error
            &&& after.flush_error == pump.flush_error
        }),
{
}

/// A pump and its dialogue are seen as they are: nothing of what an event, a step or a pump holds is
/// changed or left out.
pub proof fn pump_is_seen_as_it_is(event: PumpEvent, step: PumpStep, pump: Pump)
    ensures
        event matches PumpEvent::Packet(stream) ==> event@ == PumpEventView::Packet(stream),
        event matches PumpEvent::Sent(Ok(_)) ==> event@ == PumpEventView::Sent(Ok(())),
        event matches PumpEvent::Sent(Err(reason)) ==> event@ == PumpEventView::Sent(Err(reason@)),
        event is FrameTaken ==> event@ is FrameTaken,
        event is NoFrame ==> event@ is NoFrame,
        step is ReadPacket ==> step@ is ReadPacket,
        step is SendPacket ==> step@ is SendPacket,
        step is ReceiveFrame ==> step@ is ReceiveFrame,
        step is SendEnd ==> step@ is SendEnd,
        step is Exhausted ==> step@ is Exhausted,
        step matches PumpStep::Fail(reason) ==> step@ == PumpStepView::Fail(reason@),
        pump@.stream_index == pump.stream_index,
        pump@.flush_at_end == pump.flush_at_end,
        pump@.send_error == pump.send_error@,
        pump@.flush_error == pump.flush_error@,
        pump@.awaited == pump.awaited,
{
}

} // verus!
