//! Producers of frames: which one decodes a clip, and what takes over where it cannot.
use crate::clip_key::{clip_cache_key, clip_data_key};
use crate::clip_map::{contains_key, ClipMap};
use crate::decode::FoundFrame;
use crate::hwaccel::HardwareDevice;
use crate::text::joined;
use crate::types::{VideoClipData, VideoFrameBuffer};
use vstd::prelude::*;
#[allow(unused_imports)]
use crate::clip_key::{clip_cache_text, clip_data_text};
#[allow(unused_imports)]
use crate::clip_map::{holds_key, kept_entries};
#[allow(unused_imports)]
use crate::decode::{text_view, FoundView};
#[allow(unused_imports)]
use crate::types::FrameView;

verus! {

/// A frame with the name of its producer, and why that producer had to take over from another.
#[derive(Debug)]
pub struct ProducedFrame {
    pub frame: VideoFrameBuffer,
    pub producer_label: String,
    pub fallback_reason: Option<String>,
}

/// What a [`ProducedFrame`] holds.
#[verifier::ext_equal]
pub struct ProducedView {
    pub frame: FrameView,
    pub producer_label: Seq<char>,
    pub fallback_reason: Option<Seq<char>>,
}

impl View for ProducedFrame {
    type V = ProducedView;

    open spec fn view(&self) -> ProducedView {
        ProducedView {
            frame: self.frame@,
            producer_label: self.producer_label@,
            fallback_reason: text_view(self.fallback_reason),
        }
    }
}

/// What a producer came to.
pub open spec fn produced_view(outcome: Result<ProducedFrame, String>) -> Result<
    ProducedView,
    Seq<char>,
> {
    match outcome {
        Ok(produced) => Ok(produced@),
        Err(reason) => Err(reason@),
    }
}

impl ProducedFrame {
    /// A frame that was decoded in software.
    pub fn by_cpu(frame: VideoFrameBuffer) -> (produced: Self)
        ensures
            produced@ == (ProducedView {
                frame: frame@,
                producer_label: "cpu-upload"@,
                fallback_reason: None,
            }),
    {
        ProducedFrame { frame, producer_label: "cpu-upload".to_owned(), fallback_reason: None }
    }

    /// A frame that was decoded by `device`.
    pub fn by_device(frame: VideoFrameBuffer, device: HardwareDevice) -> (produced: Self)
        ensures
            produced@ == (ProducedView {
                frame: frame@,
                producer_label: device.producer_text(),
                fallback_reason: None,
            }),
    {
        ProducedFrame {
            frame,
            producer_label: device.producer_label().to_owned(),
            fallback_reason: None,
        }
    }

    /// A frame that a search with a decoder of `device` found. One that was kept from an earlier
    /// search goes by the name of hardware in general.
    pub fn by_search(found: FoundFrame, device: HardwareDevice) -> (produced: Self)
        ensures
            produced@ == (ProducedView {
                frame: found@.frame,
                producer_label: if found@.kept {
                    "hardware"@
                } else {
                    device.producer_text()
                },
                fallback_reason: None,
            }),
    {
        if found.kept {
            ProducedFrame {
                frame: found.frame,
                producer_label: "hardware".to_owned(),
                fallback_reason: None,
            }
        } else {
            ProducedFrame::by_device(found.frame, device)
        }
    }
}

/// Which of two producers decodes a clip.
#[derive(Debug)]
pub enum HardwareDecodeRoute {
    /// The first one.
    Primary,
    /// The second one, for this reason.
    Fallback(String),
}

/// What a producer came to be asked, and what came of it.
pub enum ProducerEvent {
    /// Whether the first producer can decode the clip, or why not.
    Probed(Result<(), String>),
    /// What the first producer came to.
    Primary(Result<ProducedFrame, String>),
    /// What the second producer came to.
    Fallback(Result<ProducedFrame, String>),
}

/// What is to be done next for a frame.
pub enum ProducerAction {
    /// Find out whether the first producer can decode the clip.
    Probe,
    /// Let the first producer decode.
    DecodePrimary,
    /// Let the second producer decode.
    DecodeFallback,
    /// This came of it.
    Finish(Result<ProducedFrame, String>),
}

/// What a [`ProducerEvent`] holds.
pub enum ProducerEventView {
    Probed(Result<(), Seq<char>>),
    Primary(Result<ProducedView, Seq<char>>),
    Fallback(Result<ProducedView, Seq<char>>),
}

impl View for ProducerEvent {
    type V = ProducerEventView;

    open spec fn view(&self) -> ProducerEventView {
        match self {
            ProducerEvent::Probed(Ok(_)) => ProducerEventView::Probed(Ok(())),
            ProducerEvent::Probed(Err(reason)) => ProducerEventView::Probed(Err(reason@)),
            ProducerEvent::Primary(outcome) => ProducerEventView::Primary(produced_view(*outcome)),
            ProducerEvent::Fallback(outcome) => ProducerEventView::Fallback(produced_view(*outcome)),
        }
    }
}

/// What a [`ProducerAction`] holds.
pub enum ProducerActionView {
    Probe,
    DecodePrimary,
    DecodeFallback,
    Finish(Result<ProducedView, Seq<char>>),
}

impl View for ProducerAction {
    type V = ProducerActionView;

    open spec fn view(&self) -> ProducerActionView {
        match self {
            ProducerAction::Probe => ProducerActionView::Probe,
            ProducerAction::DecodePrimary => ProducerActionView::DecodePrimary,
            ProducerAction::DecodeFallback => ProducerActionView::DecodeFallback,
            ProducerAction::Finish(outcome) => ProducerActionView::Finish(produced_view(*outcome)),
        }
    }
}

/// What an attempt to get a frame waits for.
#[derive(Debug, Clone, Copy, PartialEq, Eq, Structural)]
pub enum AttemptStage {
    Probe,
    Primary,
    Fallback,
}

/// An attempt to get a frame of a clip.
#[derive(Debug)]
pub struct ProducerAttempt {
    clip_key: String,
    fallback_reason: String,
    stage: AttemptStage,
}

/// What a [`ProducerAttempt`] holds.
#[verifier::ext_equal]
pub struct AttemptView {
    /// The key of the clip.
    pub clip_key: Seq<char>,
    /// Why the second producer takes over, once it does.
    pub fallback_reason: Seq<char>,
    /// What is waited for.
    pub stage: AttemptStage,
}

impl View for ProducerAttempt {
    type V = AttemptView;

    closed spec fn view(&self) -> AttemptView {
        AttemptView {
            clip_key: self.clip_key@,
            fallback_reason: self.fallback_reason@,
            stage: self.stage,
        }
    }
}

impl AttemptView {
    /// Whether `event` is what is waited for.
    pub open spec fn expects(self, event: ProducerEventView) -> bool {
        match self.stage {
            AttemptStage::Probe => event is Probed,
            AttemptStage::Primary => event is Primary,
            AttemptStage::Fallback => event is Fallback,
        }
    }
}

/// A pair of producers: the first decodes what it can, and the second the rest. Which clips the
/// first cannot decode is kept in mind.
pub struct CapabilityAwareFrameProducer {
    primary_label: &'static str,
    probes: bool,
    support_cache: ClipMap<HardwareDecodeRoute>,
}

/// The routes that are kept in mind.
pub enum RouteView {
    Primary,
    Fallback(Seq<char>),
}

impl View for HardwareDecodeRoute {
    type V = RouteView;

    open spec fn view(&self) -> RouteView {
        match self {
            HardwareDecodeRoute::Primary => RouteView::Primary,
            HardwareDecodeRoute::Fallback(reason) => RouteView::Fallback(reason@),
        }
    }
}

/// What a [`CapabilityAwareFrameProducer`] holds.
#[verifier::ext_equal]
pub struct ProducerView {
    /// The name of the first producer.
    pub primary_label: Seq<char>,
    /// Whether the first producer is probed before its first frame of a clip, and given up for a
    /// clip that it fails to decode.
    pub probes: bool,
    /// The routes by clip.
    pub routes: Map<Seq<char>, RouteView>,
}

impl View for CapabilityAwareFrameProducer {
    type V = ProducerView;

    closed spec fn view(&self) -> ProducerView {
        ProducerView {
            primary_label: self.primary_label@,
            probes: self.probes,
            routes: self.support_cache@.map_values(|route: HardwareDecodeRoute| route@),
        }
    }
}

/// The producers, the attempt, and what is to be done next.
pub type ProducerStep = (ProducerView, AttemptView, ProducerActionView);

impl ProducerView {
    /// The producers with `route` in mind for a clip.
    pub open spec fn with_route(self, clip_key: Seq<char>, route: RouteView) -> ProducerView {
        ProducerView { routes: self.routes.insert(clip_key, route), ..self }
    }

    /// The reason of a clip that the first producer cannot decode.
    pub open spec fn probe_reason(self, reason: Seq<char>) -> Seq<char> {
        self.primary_label + " probe -> "@ + reason
    }

    /// The reason of a frame that the first producer did not decode.
    pub open spec fn failure_reason(self, reason: Seq<char>) -> Seq<char> {
        self.primary_label + " -> "@ + reason
    }

    /// The first step along `route`.
    pub open spec fn along(self, clip_key: Seq<char>, route: RouteView) -> ProducerStep {
        match route {
            RouteView::Primary => (
                self,
                AttemptView { clip_key, fallback_reason: ""@, stage: AttemptStage::Primary },
                ProducerActionView::DecodePrimary,
            ),
            RouteView::Fallback(reason) => (
                self,
                AttemptView {
                    clip_key,
                    fallback_reason: self.probe_reason(reason),
                    stage: AttemptStage::Fallback,
                },
                ProducerActionView::DecodeFallback,
            ),
        }
    }

    /// The start of an attempt: along the route that is kept in mind for the clip; else with a
    /// probe, or along the first producer where there are no probes.
    pub open spec fn started(self, clip_key: Seq<char>) -> ProducerStep {
        if self.routes.contains_key(clip_key) {
            self.along(clip_key, self.routes[clip_key])
        } else if self.probes {
            (
                self,
                AttemptView { clip_key, fallback_reason: ""@, stage: AttemptStage::Probe },
                ProducerActionView::Probe,
            )
        } else {
            self.with_route(clip_key, RouteView::Primary).along(clip_key, RouteView::Primary)
        }
    }

    /// The next step of an attempt. A probe decides the route of the clip. Where the
    /// first producer fails, the second takes over and its frame tells why; with probes, it then
    /// stays with the second.
    pub open spec fn resumed(self, attempt: AttemptView, event: ProducerEventView) -> ProducerStep {
        match event {
            ProducerEventView::Probed(Ok(_)) => self.with_route(
                attempt.clip_key,
                RouteView::Primary,
            ).along(attempt.clip_key, RouteView::Primary),
            ProducerEventView::Probed(Err(reason)) => self.with_route(
                attempt.clip_key,
                RouteView::Fallback(reason),
            ).along(attempt.clip_key, RouteView::Fallback(reason)),
            ProducerEventView::Primary(Ok(produced)) => (
                self,
                attempt,
                ProducerActionView::Finish(Ok(produced)),
            ),
            ProducerEventView::Primary(Err(reason)) => (
                if self.probes {
                    self.with_route(attempt.clip_key, RouteView::Fallback(reason))
                } else {
                    self
                },
                AttemptView {
                    fallback_reason: self.failure_reason(reason),
                    stage: AttemptStage::Fallback,
                    ..attempt
                },
                ProducerActionView::DecodeFallback,
            ),
            ProducerEventView::Fallback(Ok(produced)) => (
                self,
                attempt,
                ProducerActionView::Finish(
                    Ok(
                        ProducedView {
                            fallback_reason: Some(attempt.fallback_reason),
                            ..produced
                        },
                    ),
                ),
            ),
            ProducerEventView::Fallback(Err(reason)) => (
                self,
                attempt,
                ProducerActionView::Finish(Err(reason)),
            ),
        }
    }
}

impl CapabilityAwareFrameProducer {
    /// Whether the routes are kept one for a clip.
    pub closed spec fn wf(&self) -> bool {
        self.support_cache.wf()
    }

    /// A pair of producers of which the first, named `primary_label`, is tried for every frame.
    pub fn new(primary_label: &'static str) -> (producer: Self)
        ensures
            producer.wf(),
            producer@ == (ProducerView {
                primary_label: primary_label@,
                probes: false,
                routes: Map::empty(),
            }),
    {
        let producer: CapabilityAwareFrameProducer = CapabilityAwareFrameProducer {
            primary_label,
            probes: false,
            support_cache: ClipMap::new(),
        };
        assert(producer@.routes =~= Map::<Seq<char>, RouteView>::empty());
        producer
    }

    /// A pair of producers of which the first decodes on `device`: it is probed before its first
    /// frame of a clip, and given up for a clip that it fails to decode.
    pub fn probed(device: HardwareDevice) -> (producer: Self)
        ensures
            producer.wf(),
            producer@ == (ProducerView {
                primary_label: device.producer_text(),
                probes: true,
                routes: Map::empty(),
            }),
    {
        let mut producer: CapabilityAwareFrameProducer = CapabilityAwareFrameProducer::new(
            device.producer_label(),
        );
        producer.probes = true;
        producer
    }

    /// The name of the pair: that of its first producer, where that is probed.
    pub fn label(&self) -> (label: &'static str)
        ensures
            label@ == (if self@.probes {
                self@.primary_label
            } else {
                "capability-aware"@
            }),
    {
        if self.probes {
            self.primary_label
        } else {
            "capability-aware"
        }
    }

    fn keep_route(&mut self, clip_key: String, route: HardwareDecodeRoute)
        requires
            old(self).wf(),
        ensures
            final(self).wf(),
            final(self)@ == old(self)@.with_route(clip_key@, route@),
    {
        self.support_cache.insert(clip_key, route);
        assert(self@.routes =~= old(self)@.routes.insert(clip_key@, route@));
    }

    /// Keeps in mind that the second producer decodes `clip`, for the reason `reason`.
    pub fn mark_fallback(&mut self, clip: &VideoClipData, reason: String)
        requires
            old(self).wf(),
        ensures
            final(self).wf(),
            final(self)@ == old(self)@.with_route(clip_data_text(*clip), RouteView::Fallback(reason@)),
    {
        self.keep_route(clip_data_key(clip), HardwareDecodeRoute::Fallback(reason));
    }

    /// The route that is kept in mind for `clip`.
    pub fn route_for_clip(&self, clip: &VideoClipData) -> (route: Option<&HardwareDecodeRoute>)
        requires
            self.wf(),
        ensures
            match route {
                Some(route) => self@.routes.contains_pair(clip_data_text(*clip), route@),
                None => !self@.routes.contains_key(clip_data_text(*clip)),
            },
    {
        self.support_cache.get(&clip_data_key(clip))
    }

    /// Starts an attempt to get a frame of `clip`.
    pub fn begin(&mut self, clip: &VideoClipData) -> (step: (ProducerAttempt, ProducerAction))
        requires
            old(self).wf(),
        ensures
            final(self).wf(),
            (final(self)@, step.0@, step.1@) == old(self)@.started(clip_data_text(*clip)),
    {
        let clip_key: String = clip_data_key(clip);
        match self.support_cache.get(&clip_key) {
            Some(HardwareDecodeRoute::Primary) => {
                (
                    ProducerAttempt {
                        clip_key,
                        fallback_reason: "".to_owned(),
                        stage: AttemptStage::Primary,
                    },
                    ProducerAction::DecodePrimary,
                )
            },
            Some(HardwareDecodeRoute::Fallback(reason)) => {
                let mut fallback_reason: String = joined(self.primary_label, " probe -> ");
                fallback_reason.append(reason.as_str());
                (
                    ProducerAttempt { clip_key, fallback_reason, stage: AttemptStage::Fallback },
                    ProducerAction::DecodeFallback,
                )
            },
            None => if self.probes {
                (
                    ProducerAttempt {
                        clip_key,
                        fallback_reason: "".to_owned(),
                        stage: AttemptStage::Probe,
                    },
                    ProducerAction::Probe,
                )
            } else {
                self.keep_route(clip_key.clone(), HardwareDecodeRoute::Primary);
                (
                    ProducerAttempt {
                        clip_key,
                        fallback_reason: "".to_owned(),
                        stage: AttemptStage::Primary,
                    },
                    ProducerAction::DecodePrimary,
                )
            },
        }
    }

    /// Takes note of `event` and says what is to be done next.
    pub fn resume(&mut self, attempt: &mut ProducerAttempt, event: ProducerEvent) -> (action:
        ProducerAction)
        requires
            old(self).wf(),
            old(attempt)@.expects(event@),
        ensures
            final(self).wf(),
            (final(self)@, final(attempt)@, action@) == old(self)@.resumed(old(attempt)@, event@),
    {
        match event {
            ProducerEvent::Probed(Ok(_)) => {
                self.keep_route(attempt.clip_key.clone(), HardwareDecodeRoute::Primary);
                attempt.fallback_reason = "".to_owned();
                attempt.stage = AttemptStage::Primary;
                ProducerAction::DecodePrimary
            },
            ProducerEvent::Probed(Err(reason)) => {
                let mut fallback_reason: String = joined(self.primary_label, " probe -> ");
                fallback_reason.append(reason.as_str());
                self.keep_route(attempt.clip_key.clone(), HardwareDecodeRoute::Fallback(reason));
                attempt.fallback_reason = fallback_reason;
                attempt.stage = AttemptStage::Fallback;
                ProducerAction::DecodeFallback
            },
            ProducerEvent::Primary(Ok(produced)) => ProducerAction::Finish(Ok(produced)),
            ProducerEvent::Primary(Err(reason)) => {
                let mut fallback_reason: String = joined(self.primary_label, " -> ");
                fallback_reason.append(reason.as_str());
                if self.probes {
                    self.keep_route(attempt.clip_key.clone(), HardwareDecodeRoute::Fallback(reason));
                }
                attempt.fallback_reason = fallback_reason;
                attempt.stage = AttemptStage::Fallback;
                ProducerAction::DecodeFallback
            },
            ProducerEvent::Fallback(Ok(produced)) => {
                let produced: ProducedFrame = ProducedFrame {
                    frame: produced.frame,
                    producer_label: produced.producer_label,
                    fallback_reason: Some(attempt.fallback_reason.clone()),
                };
                ProducerAction::Finish(Ok(produced))
            },
            ProducerEvent::Fallback(Err(reason)) => ProducerAction::Finish(Err(reason)),
        }
    }

    /// Forgets the routes of all clips but those whose keys are in `clip_keys`.
    pub fn retain_clip_keys(&mut self, clip_keys: &Vec<String>)
        requires
            old(self).wf(),
        ensures
            final(self).wf(),
            final(self)@ == (ProducerView {
                routes: kept_entries(old(self)@.routes, clip_keys@),
                ..old(self)@
            }),
    {
        self.support_cache.retain_keys(clip_keys);
        assert(self@.routes =~= kept_entries(old(self)@.routes, clip_keys@));
    }
}

/// A clip that the first producer failed to decode once goes to the second from then on, with the
/// failure as the reason, where the first producer is probed.
pub proof fn failed_clip_stays_with_second_producer(
    producer: ProducerView,
    attempt: AttemptView,
    reason: Seq<char>,
)
    requires
        producer.probes,
    ensures
        ({
            let (after, _, action) = producer.resumed(
                attempt,
                ProducerEventView::Primary(Err(reason)),
            );
            let (_, later, first) = after.started(attempt.clip_key);
            &&& action is DecodeFallback
            &&& first is DecodeFallback
            &&& later.fallback_reason == producer.probe_reason(reason)
        }),
{
}

/// A clip is probed once: after its probe, every later attempt goes straight to a producer, until
/// the clip is forgotten; then it is probed again.
pub proof fn clip_is_probed_once(
    producer: ProducerView,
    attempt: AttemptView,
    outcome: Result<(), Seq<char>>,
    clip_keys: Seq<String>,
)
    requires
        producer.probes,
    ensures
        ({
            let (after, _, _) = producer.resumed(attempt, ProducerEventView::Probed(outcome));
            let forgetful = ProducerView { routes: kept_entries(after.routes, clip_keys), ..after };
            &&& outcome is Ok <==> after.started(attempt.clip_key).2 is DecodePrimary
            &&& outcome is Err <==> after.started(attempt.clip_key).2 is DecodeFallback
            &&& holds_key(clip_keys, attempt.clip_key) ==> !(forgetful.started(
                attempt.clip_key,
            ).2 is Probe)
            &&& !holds_key(clip_keys, attempt.clip_key) ==> forgetful.started(
                attempt.clip_key,
            ).2 is Probe
        }),
{
}

/// A frame of the second producer always tells why the first did not produce it: because it failed
/// on the clip now, or because a probe of now or an earlier attempt spoke against it.
pub proof fn fallback_frame_tells_why(
    producer: ProducerView,
    attempt: AttemptView,
    reason: Seq<char>,
    produced: ProducedView,
)
    ensures
        ({
            let told = |why: Seq<char>| ProducerActionView::Finish(
                Ok(ProducedView { fallback_reason: Some(why), ..produced }),
            );
            let event = ProducerEventView::Fallback(Ok(produced));
            let failed = producer.resumed(attempt, ProducerEventView::Primary(Err(reason)));
            let refused = producer.resumed(attempt, ProducerEventView::Probed(Err(reason)));
            let routed = producer.with_route(attempt.clip_key, RouteView::Fallback(reason)).started(
                attempt.clip_key,
            );
            &&& failed.2 is DecodeFallback
            &&& failed.0.resumed(failed.1, event).2 == told(producer.failure_reason(reason))
            &&& refused.2 is DecodeFallback
            &&& refused.0.resumed(refused.1, event).2 == told(producer.probe_reason(reason))
            &&& routed.2 is DecodeFallback
            &&& routed.0.resumed(routed.1, event).2 == told(producer.probe_reason(reason))
        }),
{
}

/// What is asked of an attempt is always answered by an event that it waits for.
pub proof fn attempt_waits_for_what_it_asks(
    producer: ProducerView,
    attempt: AttemptView,
    event: ProducerEventView,
)
    requires
        attempt.expects(event),
    ensures
        ({
            let (_, after, action) = producer.resumed(attempt, event);
            match action {
                ProducerActionView::Probe => false,
                ProducerActionView::DecodePrimary => after.stage == AttemptStage::Primary,
                ProducerActionView::DecodeFallback => after.stage == AttemptStage::Fallback,
                ProducerActionView::Finish(_) => true,
            }
        }),
{
}

/// A decoder of a clip at a sample rate.
pub struct CachedDecoder<D> {
    pub clip: VideoClipData,
    pub decoder: D,
}

/// The decoders of a device, one for a clip and a sample rate.
pub struct DecoderCache<D> {
    decoders: ClipMap<CachedDecoder<D>>,
}

impl<D> View for DecoderCache<D> {
    type V = Map<Seq<char>, CachedDecoder<D>>;

    closed spec fn view(&self) -> Map<Seq<char>, CachedDecoder<D>> {
        self.decoders@
    }
}

impl<D> DecoderCache<D> {
    /// Whether there is one decoder for a key.
    pub closed spec fn wf(&self) -> bool {
        self.decoders.wf()
    }

    /// A cache with nothing in it.
    pub fn new() -> (cache: Self)
        ensures
            cache.wf(),
            cache@ == Map::<Seq<char>, CachedDecoder<D>>::empty(),
    {
        DecoderCache { decoders: ClipMap::new() }
    }

    /// Whether there is a decoder of `clip` at a sample rate, which is given by the bits of its
    /// float.
    pub fn contains(&self, clip: &VideoClipData, sample_rate: u64) -> (contains: bool)
        requires
            self.wf(),
        ensures
            contains == self@.contains_key(clip_cache_text(*clip, sample_rate)),
    {
        self.decoders.contains(&clip_cache_key(clip, sample_rate))
    }

    /// Puts a decoder of `clip` at a sample rate in.
    pub fn insert(&mut self, clip: &VideoClipData, sample_rate: u64, decoder: D)
        requires
            old(self).wf(),
        ensures
            final(self).wf(),
            final(self)@ == old(self)@.insert(
                clip_cache_text(*clip, sample_rate),
                (CachedDecoder { clip: *clip, decoder }),
            ),
    {
        let key: String = clip_cache_key(clip, sample_rate);
        self.decoders.insert(key, CachedDecoder { clip: clip.clone(), decoder });
    }

    /// The decoder of `clip` at a sample rate, to be worked with.
    pub fn get_mut(&mut self, clip: &VideoClipData, sample_rate: u64) -> (cached: Option<
        &mut CachedDecoder<D>,
    >)
        requires
            old(self).wf(),
        ensures
            final(self).wf(),
            match cached {
                Some(cached) => {
                    &&& old(self)@.contains_pair(clip_cache_text(*clip, sample_rate), *cached)
                    &&& final(self)@ == old(self)@.insert(
                        clip_cache_text(*clip, sample_rate),
                        *final(cached),
                    )
                },
                None => {
                    &&& !old(self)@.contains_key(clip_cache_text(*clip, sample_rate))
                    &&& final(self)@ == old(self)@
                },
            },
    {
        let key: String = clip_cache_key(clip, sample_rate);
        self.decoders.get_mut(&key)
    }

    /// Drops the decoders of all clips but those whose keys are in `clip_keys`.
    pub fn retain_clip_keys(&mut self, clip_keys: &Vec<String>)
        requires
            old(self).wf(),
        ensures
            final(self).wf(),
            forall|key: Seq<char>| #[trigger]
                final(self)@.contains_key(key) <==> old(self)@.contains_key(key) && holds_key(
                    clip_keys@,
                    clip_data_text(old(self)@[key].clip),
                ),
            forall|key: Seq<char>| #[trigger]
                final(self)@.contains_key(key) ==> final(self)@[key] == old(self)@[key],
    {
        let ghost before = self@;
        let mut kept: Vec<String> = Vec::new();
        let mut i: usize = 0;
        while i < self.decoders.len()
            invariant
                i <= self.decoders.count(),
                self.wf(),
                self@ == before,
                forall|k: int| #![trigger kept@[k]]
                    0 <= k < kept@.len() ==> before.contains_key(kept@[k]@) && holds_key(
                        clip_keys@,
                        clip_data_text(before[kept@[k]@].clip),
                    ),
                forall|j: int|
                    0 <= j < i && holds_key(
                        clip_keys@,
                        clip_data_text(before[#[trigger] self.decoders.key_at(j)].clip),
                    ) ==> holds_key(kept@, self.decoders.key_at(j)),
            decreases self.decoders.count() - i,
        {
            let (key, cached): (&String, &CachedDecoder<D>) = self.decoders.entry_at(i);
            let ghost kept_before = kept@;
            if contains_key(clip_keys, &clip_data_key(&cached.clip)) {
                kept.push(key.clone());
                proof {
                    assert(kept@[kept_before.len() as int]@ == key@);
                    assert(holds_key(kept@, key@));
                }
            }
            proof {
                assert forall|k: Seq<char>| holds_key(kept_before, k) implies holds_key(
                    kept@,
                    k,
                ) by {
                    let at = choose|at: int|
                        0 <= at < kept_before.len() && (#[trigger] kept_before[at])@ == k;
                    assert(kept@[at]@ == k);
                }
            }
            i = i + 1;
        }
        proof {
            self.decoders.entries_cover_map();
            assert forall|key: Seq<char>|
                before.contains_key(key) && holds_key(clip_keys@, clip_data_text(before[key].clip))
                    <==> before.contains_key(key) && #[trigger] holds_key(kept@, key) by {
                if before.contains_key(key) && holds_key(
                    clip_keys@,
                    clip_data_text(before[key].clip),
                ) {
                    let j = choose|j: int|
                        0 <= j < self.decoders.count() && #[trigger] self.decoders.key_at(j) == key;
                    assert(holds_key(kept@, self.decoders.key_at(j)));
                }
                if holds_key(kept@, key) {
                    let k = choose|k: int| 0 <= k < kept@.len() && (#[trigger] kept@[k])@ == key;
                    assert(before.contains_key(kept@[k]@));
                }
            }
        }
        self.decoders.retain_keys(&kept);
    }
}

/// How frames are produced.
#[derive(Debug, Clone, Copy, PartialEq, Eq, Structural)]
pub enum ProducerPlan {
    /// In software.
    CpuUpload,
    /// In hardware where that is possible, else in software.
    HardwarePreferred,
}

impl ProducerPlan {
    /// The devices that are tried one after the other before frames are decoded in software.
    pub fn devices(&self) -> (devices: Vec<HardwareDevice>)
        ensures
            devices@ == (match *self {
                ProducerPlan::CpuUpload => Seq::<HardwareDevice>::empty(),
                ProducerPlan::HardwarePreferred => seq![HardwareDevice::Vulkan, HardwareDevice::Vaapi],
            }),
    {
        let mut devices: Vec<HardwareDevice> = Vec::new();
        match self {
            ProducerPlan::CpuUpload => {},
            ProducerPlan::HardwarePreferred => {
                devices.push(HardwareDevice::Vulkan);
                devices.push(HardwareDevice::Vaapi);
            },
        }
        assert(devices@ =~= (match *self {
            ProducerPlan::CpuUpload => Seq::<HardwareDevice>::empty(),
            ProducerPlan::HardwarePreferred => seq![HardwareDevice::Vulkan, HardwareDevice::Vaapi],
        }));
        devices
    }
}

/// Where the first producer succeeds, the attempt ends at once with exactly what it produced, and
/// neither the routes nor the attempt change.
pub proof fn first_producers_frame_is_given_unchanged(
    producer: ProducerView,
    attempt: AttemptView,
    produced: ProducedView,
)
    ensures
        ({
            let (after, later, action) = producer.resumed(
                attempt,
                ProducerEventView::Primary(Ok(produced)),
            );
            &&& after == producer
            &&& later == attempt
            &&& action matches ProducerActionView::Finish(Ok(given)) && {
                &&& given.frame.width == produced.frame.width
                &&& given.frame.height == produced.frame.height
                &&& given.frame.rgba == produced.frame.rgba
                &&& given.frame.pts_samples == produced.frame.pts_samples
                &&& given.producer_label == produced.producer_label
                &&& given.fallback_reason == produced.fallback_reason
            }
        }),
{
}

/// Where the second producer succeeds, the attempt ends at once with its frame under its name,
/// unchanged, and the reason why it took over; where it fails, with its reason. Neither the routes
/// nor the attempt change.
pub proof fn second_producers_frame_is_given_with_reason(
    producer: ProducerView,
    attempt: AttemptView,
    produced: ProducedView,
    reason: Seq<char>,
)
    ensures
        ({
            let (after, later, action) = producer.resumed(
                attempt,
                ProducerEventView::Fallback(Ok(produced)),
            );
            &&& after == producer
            &&& later == attempt
            &&& action matches ProducerActionView::Finish(Ok(given)) && {
                &&& given.frame.width == produced.frame.width
                &&& given.frame.height == produced.frame.height
                &&& given.frame.rgba == produced.frame.rgba
                &&& given.frame.pts_samples == produced.frame.pts_samples
                &&& given.producer_label == produced.producer_label
                &&& given.fallback_reason == Some(attempt.fallback_reason)
            }
        }),
        producer.resumed(attempt, ProducerEventView::Fallback(Err(reason))) == (
            producer,
            attempt,
            ProducerActionView::Finish(Err(reason)),
        ),
{
}

/// Where the first producer fails on a frame, the second is asked for it, and the reason names the
/// first producer before it names the failure. The clip stays with the second producer where the
/// first is probed, and only there; the routes of other clips stay.
pub proof fn failure_hands_over_to_second_producer(
    producer: ProducerView,
    attempt: AttemptView,
    reason: Seq<char>,
    other: Seq<char>,
)
    ensures
        ({
            let (after, later, action) = producer.resumed(
                attempt,
                ProducerEventView::Primary(Err(reason)),
            );
            &&& action is DecodeFallback
            &&& later.stage == AttemptStage::Fallback
            &&& later.clip_key == attempt.clip_key
            &&& later.fallback_reason == producer.primary_label + " -> "@ + reason
            &&& after.primary_label == producer.primary_label
            &&& after.probes == producer.probes
            &&& producer.probes ==> after.routes.contains_pair(
                attempt.clip_key,
                RouteView::Fallback(reason),
            )
            &&& !producer.probes ==> after.routes == producer.routes
            &&& other != attempt.clip_key ==> {
                &&& after.routes.contains_key(other) <==> producer.routes.contains_key(other)
                &&& after.routes.contains_key(other) ==> after.routes[other]
                    == producer.routes[other]
            }
        }),
{
}

/// A probe decides which producer is asked and is kept in mind for the clip; the routes of other
/// clips stay. A probe that speaks against the first producer is the reason that the second takes
/// over, behind the name of the first.
pub proof fn probe_decides_route(
    producer: ProducerView,
    attempt: AttemptView,
    reason: Seq<char>,
    other: Seq<char>,
)
    ensures
        ({
            let (after, later, action) = producer.resumed(
                attempt,
                ProducerEventView::Probed(Ok(())),
            );
            &&& action is DecodePrimary
            &&& later.stage == AttemptStage::Primary
            &&& later.clip_key == attempt.clip_key
            &&& after.routes.contains_pair(attempt.clip_key, RouteView::Primary)
            &&& after.primary_label == producer.primary_label
            &&& after.probes == producer.probes
            &&& other != attempt.clip_key ==> {
                &&& after.routes.contains_key(other) <==> producer.routes.contains_key(other)
                &&& after.routes.contains_key(other) ==> after.routes[other]
                    == producer.routes[other]
            }
        }),
        ({
            let (after, later, action) = producer.resumed(
                attempt,
                ProducerEventView::Probed(Err(reason)),
            );
            &&& action is DecodeFallback
            &&& later.stage == AttemptStage::Fallback
            &&& later.clip_key == attempt.clip_key
            &&& later.fallback_reason == producer.primary_label + " probe -> "@ + reason
            &&& after.routes.contains_pair(attempt.clip_key, RouteView::Fallback(reason))
            &&& after.primary_label == producer.primary_label
            &&& after.probes == producer.probes
            &&& other != attempt.clip_key ==> {
                &&& after.routes.contains_key(other) <==> producer.routes.contains_key(other)
                &&& after.routes.contains_key(other) ==> after.routes[other]
                    == producer.routes[other]
            }
        }),
{
}

/// An attempt follows the route that is kept in mind for its clip and changes nothing. Without one, a
/// probe comes first where there are probes; where there are none, the first producer is asked at
/// once and kept in mind.
pub proof fn attempt_follows_route(producer: ProducerView, clip_key: Seq<char>, other: Seq<char>)
    ensures
        ({
            let (after, attempt, action) = producer.started(clip_key);
            &&& attempt.clip_key == clip_key
            &&& producer.routes.contains_key(clip_key) || producer.probes ==> after == producer
            &&& producer.routes.contains_pair(clip_key, RouteView::Primary) ==> action
                is DecodePrimary && attempt.stage == AttemptStage::Primary
            &&& !producer.routes.contains_key(clip_key) && producer.probes ==> action is Probe
                && attempt.stage == AttemptStage::Probe
            &&& !producer.routes.contains_key(clip_key) && !producer.probes ==> {
                &&& action is DecodePrimary
                &&& attempt.stage == AttemptStage::Primary
                &&& after.routes.contains_pair(clip_key, RouteView::Primary)
                &&& after.primary_label == producer.primary_label
                &&& after.probes == producer.probes
                &&& other != clip_key ==> {
                    &&& after.routes.contains_key(other) <==> producer.routes.contains_key(other)
                    &&& after.routes.contains_key(other) ==> after.routes[other]
                        == producer.routes[other]
                }
            }
        }),
        producer.routes.contains_key(clip_key) ==> (producer.routes[clip_key]
            matches RouteView::Fallback(reason) ==> {
            let (_, attempt, action) = producer.started(clip_key);
            &&& action is DecodeFallback
            &&& attempt.stage == AttemptStage::Fallback
            &&& attempt.fallback_reason == producer.primary_label + " probe -> "@ + reason
        }),
{
}

/// The dialogue of a producer is seen as it is: nothing of what a frame, an event, an action or a
/// route holds is changed or left out.
pub proof fn producer_is_seen_as_it_is(
    produced: ProducedFrame,
    event: ProducerEvent,
    action: ProducerAction,
    route: HardwareDecodeRoute,
)
    ensures
        produced@.frame == produced.frame@,
        produced@.producer_label == produced.producer_label@,
        produced.fallback_reason is None <==> produced@.fallback_reason is None,
        produced.fallback_reason is Some ==> produced@.fallback_reason->0
            == produced.fallback_reason->0@,
        event matches ProducerEvent::Probed(Ok(_)) ==> event@ == ProducerEventView::Probed(Ok(())),
        event matches ProducerEvent::Probed(Err(reason)) ==> event@ == ProducerEventView::Probed(
            Err(reason@),
        ),
        event matches ProducerEvent::Primary(Ok(given)) ==> event@ == ProducerEventView::Primary(
            Ok(given@),
        ),
        event matches ProducerEvent::Primary(Err(reason)) ==> event@ == ProducerEventView::Primary(
            Err(reason@),
        ),
        event matches ProducerEvent::Fallback(Ok(given)) ==> event@ == ProducerEventView::Fallback(
            Ok(given@),
        ),
        event matches ProducerEvent::Fallback(Err(reason)) ==> event@
            == ProducerEventView::Fallback(Err(reason@)),
        action is Probe ==> action@ is Probe,
        action is DecodePrimary ==> action@ is DecodePrimary,
        action is DecodeFallback ==> action@ is DecodeFallback,
        action matches ProducerAction::Finish(Ok(given)) ==> action@ == ProducerActionView::Finish(
            Ok(given@),
        ),
        action matches ProducerAction::Finish(Err(reason)) ==> action@
            == ProducerActionView::Finish(Err(reason@)),
        route is Primary ==> route@ is Primary,
        route matches HardwareDecodeRoute::Fallback(reason) ==> route@ == RouteView::Fallback(
            reason@,
        ),
{
}

} // verus!
