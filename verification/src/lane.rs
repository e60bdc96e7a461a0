//! The requests for the frames of the clips, and the frames that came of them.
use crate::clip_key::{clip_data_key, clip_key, key_matches_clip};
use crate::clip_map::ClipMap;
use crate::producer::ProducedFrame;
use crate::registry::{
    RegisteredVideoTexture, RegisteredVideoTextureSource, VideoTextureRegistry,
};
use crate::types::{
    VideoClip, VideoClipData, VideoFrameLoadState, VideoFrameMetadata, VideoTextureHandle,
};
use vstd::prelude::*;
#[allow(unused_imports)]
use crate::clip_key::{clip_data_text, clip_text, key_serves_clip};
#[allow(unused_imports)]
use crate::clip_map::{holds_key, kept_entries};
#[allow(unused_imports)]
use crate::decode::text_view;
#[allow(unused_imports)]
use crate::registry::{next_u64, RegistryView};

verus! {

/// What was last asked for a clip, and how far its decode has come.
#[derive(Debug)]
pub struct DecodeRequestState {
    pub clip: VideoClipData,
    pub sample_rate: u64,
    pub sample: usize,
    pub generation: u64,
    pub inflight_generation: Option<u64>,
    pub last_error: Option<String>,
}

/// What a [`DecodeRequestState`] holds.
#[verifier::ext_equal]
pub struct RequestView {
    /// The clip.
    pub clip: VideoClipData,
    /// The bits of the float that is the sample rate.
    pub sample_rate: u64,
    /// The sample of the timeline.
    pub sample: usize,
    /// The number of the last request.
    pub generation: u64,
    /// The number of the request whose decode runs.
    pub inflight_generation: Option<u64>,
    /// Why there is no frame.
    pub last_error: Option<Seq<char>>,
}

impl View for DecodeRequestState {
    type V = RequestView;

    open spec fn view(&self) -> RequestView {
        RequestView {
            clip: self.clip,
            sample_rate: self.sample_rate,
            sample: self.sample,
            generation: self.generation,
            inflight_generation: self.inflight_generation,
            last_error: text_view(self.last_error),
        }
    }
}

/// A decode that is to be run.
#[derive(Debug)]
pub struct DecodeTask {
    pub clip_key: String,
    pub clip: VideoClipData,
    pub sample_rate: u64,
    pub sample: usize,
    pub generation: u64,
    pub preview: bool,
}

/// What a [`DecodeTask`] holds.
#[verifier::ext_equal]
pub struct TaskView {
    pub clip_key: Seq<char>,
    pub clip: VideoClipData,
    pub sample_rate: u64,
    pub sample: usize,
    pub generation: u64,
    pub preview: bool,
}

impl View for DecodeTask {
    type V = TaskView;

    open spec fn view(&self) -> TaskView {
        TaskView {
            clip_key: self.clip_key@,
            clip: self.clip,
            sample_rate: self.sample_rate,
            sample: self.sample,
            generation: self.generation,
            preview: self.preview,
        }
    }
}

/// What an optional task holds.
pub open spec fn task_view(task: Option<DecodeTask>) -> Option<TaskView> {
    match task {
        Some(task) => Some(task@),
        None => None,
    }
}

/// The frames of one kind, previews or current frames: where they are, and what is asked for.
pub(crate) struct FrameLane {
    slots: ClipMap<VideoTextureHandle>,
    requests: ClipMap<DecodeRequestState>,
}

/// The previews or the current frames of a backend.
#[verifier::ext_equal]
pub struct LaneView {
    /// The handle of the frame of each clip.
    pub slots: Map<Seq<char>, VideoTextureHandle>,
    /// The request of each clip.
    pub requests: Map<Seq<char>, RequestView>,
}

impl View for FrameLane {
    type V = LaneView;

    closed spec fn view(&self) -> LaneView {
        LaneView {
            slots: self.slots@,
            requests: self.requests@.map_values(|request: DecodeRequestState| request@),
        }
    }
}

impl LaneView {
    /// A lane with nothing in it.
    pub open spec fn empty() -> LaneView {
        LaneView { slots: Map::empty(), requests: Map::empty() }
    }

    /// Whether `handle` may be the frame of `clip`: that of its own key, or, without one, that of
    /// any key that serves it.
    pub open spec fn slot_serves(self, clip: VideoClip, handle: VideoTextureHandle) -> bool {
        if self.slots.contains_key(clip_text(clip)) {
            handle == self.slots[clip_text(clip)]
        } else {
            exists|key: Seq<char>|
                #[trigger] self.slots.contains_key(key) && key_serves_clip(key, clip)
                    && self.slots[key] == handle
        }
    }

    /// Whether no frame is there for `clip`.
    pub open spec fn no_slot_serves(self, clip: VideoClip) -> bool {
        forall|handle: VideoTextureHandle| !#[trigger] self.slot_serves(clip, handle)
    }

    /// Whether `found` may be the frame of `clip`, with the handle and the size of its texture.
    pub open spec fn frame_answers(
        self,
        textures: RegistryView,
        clip: VideoClip,
        found: Option<(VideoTextureHandle, VideoFrameMetadata)>,
    ) -> bool {
        match found {
            Some((handle, metadata)) => {
                &&& self.slot_serves(clip, handle)
                &&& textures.textures.contains_key(handle)
                &&& metadata == textures.textures[handle].metadata
            },
            None => self.no_slot_serves(clip) || exists|handle: VideoTextureHandle|
                #[trigger] self.slot_serves(clip, handle) && !textures.textures.contains_key(
                    handle,
                ),
        }
    }

    /// The request of a clip once a frame is asked for again.
    pub open spec fn requested(
        self,
        clip_key: Seq<char>,
        clip: VideoClipData,
        sample_rate: u64,
        sample: usize,
    ) -> RequestView {
        let generation = if self.requests.contains_key(clip_key) {
            next_u64(self.requests[clip_key].generation)
        } else {
            1
        };
        RequestView {
            clip,
            sample_rate,
            sample,
            generation,
            inflight_generation: if self.requests.contains_key(clip_key)
                && self.requests[clip_key].inflight_generation is Some {
                self.requests[clip_key].inflight_generation
            } else {
                Some(generation)
            },
            last_error: None,
        }
    }

    /// Whether a decode of the clip runs.
    pub open spec fn decoding(self, clip_key: Seq<char>) -> bool {
        self.requests.contains_key(clip_key)
            && self.requests[clip_key].inflight_generation is Some
    }

    /// Whether the decode of the clip that runs is that of the request `generation`.
    pub open spec fn decoding_generation(self, clip_key: Seq<char>, generation: u64) -> bool {
        self.requests.contains_key(clip_key) && self.requests[clip_key].inflight_generation == Some(
            generation,
        )
    }

    /// The lane with another request for a clip.
    pub open spec fn with_request(self, clip_key: Seq<char>, request: RequestView) -> LaneView {
        LaneView { requests: self.requests.insert(clip_key, request), ..self }
    }

    /// The lane after a frame was asked for.
    pub open spec fn queued(
        self,
        clip_key: Seq<char>,
        clip: VideoClipData,
        sample_rate: u64,
        sample: usize,
    ) -> LaneView {
        self.with_request(clip_key, self.requested(clip_key, clip, sample_rate, sample))
    }

    /// The decode of the last request of a clip.
    pub open spec fn task_of(self, clip_key: Seq<char>, preview: bool) -> TaskView {
        let request = self.requests[clip_key];
        TaskView {
            clip_key,
            clip: request.clip,
            sample_rate: request.sample_rate,
            sample: request.sample,
            generation: request.generation,
            preview,
        }
    }

    /// The lane after the decode of the request `generation` is over: idle where no newer request
    /// came, else with the decode of the newest.
    pub open spec fn finished(self, clip_key: Seq<char>, generation: u64, preview: bool) -> (
        LaneView,
        Option<TaskView>,
    ) {
        if !self.decoding_generation(clip_key, generation) {
            (self, None)
        } else {
            let request = self.requests[clip_key];
            if request.generation == generation {
                (
                    self.with_request(
                        clip_key,
                        RequestView { inflight_generation: None, ..request },
                    ),
                    None,
                )
            } else {
                let after = self.with_request(
                    clip_key,
                    RequestView { inflight_generation: Some(request.generation), ..request },
                );
                (after, Some(after.task_of(clip_key, preview)))
            }
        }
    }

    /// The lane with the reason why a clip has no frame.
    pub open spec fn failed(self, clip_key: Seq<char>, reason: Seq<char>) -> LaneView {
        self.with_request(
            clip_key,
            RequestView { last_error: Some(reason), ..self.requests[clip_key] },
        )
    }

    /// The lane with a frame for a clip: in the texture that the clip has, or in a new one.
    pub open spec fn stored(
        self,
        textures: RegistryView,
        clip_key: Seq<char>,
        produced: ProducedFrame,
    ) -> (RegistryView, LaneView) {
        let metadata = produced.frame@.metadata();
        let source = texture_source(produced);
        if self.slots.contains_key(clip_key) && textures.textures.contains_key(
            self.slots[clip_key],
        ) {
            (
                textures.replaced(
                    self.slots[clip_key],
                    metadata,
                    source,
                    produced.producer_label,
                    produced.fallback_reason,
                ),
                self,
            )
        } else {
            let before = if self.slots.contains_key(clip_key) {
                textures.bumped()
            } else {
                textures
            };
            (
                before.inserted(
                    metadata,
                    source,
                    produced.producer_label,
                    produced.fallback_reason,
                ),
                LaneView { slots: self.slots.insert(clip_key, before.next_handle()), ..self },
            )
        }
    }

    /// The lane after a decode gave its result. The result counts only while its decode is the
    /// one that runs; a frame without pixels counts as a failure.
    pub open spec fn committed(
        self,
        textures: RegistryView,
        clip_key: Seq<char>,
        generation: u64,
        result: Result<ProducedFrame, String>,
    ) -> (RegistryView, LaneView) {
        if !self.decoding_generation(clip_key, generation) {
            (textures, self)
        } else {
            match result {
                Ok(produced) => if produced.frame@.is_blank() {
                    (textures, self.failed(clip_key, "decoded video frame was empty"@))
                } else {
                    self.stored(textures, clip_key, produced)
                },
                Err(reason) => (textures, self.failed(clip_key, reason@)),
            }
        }
    }

    /// The handles of the clips whose keys are not in `clip_keys`.
    pub open spec fn evicted_handles(self, clip_keys: Seq<String>) -> Set<VideoTextureHandle> {
        Set::new(
            |handle: VideoTextureHandle|
                exists|key: Seq<char>|
                    #[trigger] self.slots.contains_key(key) && !holds_key(clip_keys, key)
                        && self.slots[key] == handle,
        )
    }

    /// The lane with the clips of `clip_keys` only.
    pub open spec fn retained(self, clip_keys: Seq<String>) -> LaneView {
        LaneView {
            slots: kept_entries(self.slots, clip_keys),
            requests: kept_entries(self.requests, clip_keys),
            ..self
        }
    }

    /// Why a clip has no frame to show, as far as its request tells.
    pub open spec fn load_state(self, clip_key: Seq<char>) -> Option<LoadView> {
        if !self.requests.contains_key(clip_key) {
            None
        } else if self.requests[clip_key].inflight_generation is Some {
            Some(LoadView::Loading)
        } else {
            match self.requests[clip_key].last_error {
                Some(reason) => Some(LoadView::Failed(reason)),
                None => None,
            }
        }
    }
}

/// What a [`VideoFrameLoadState`] holds.
pub enum LoadView {
    Loading,
    Failed(Seq<char>),
}

/// What an optional [`VideoFrameLoadState`] holds.
pub open spec fn load_view(state: Option<VideoFrameLoadState>) -> Option<LoadView> {
    match state {
        Some(VideoFrameLoadState::Loading) => Some(LoadView::Loading),
        Some(VideoFrameLoadState::Failed(reason)) => Some(LoadView::Failed(reason@)),
        None => None,
    }
}

/// The handles of the first `count` pairs.
spec fn first_handles(removed: Seq<(String, VideoTextureHandle)>, count: int) -> Set<
    VideoTextureHandle,
> {
    Set::new(
        |handle: VideoTextureHandle|
            exists|j: int| 0 <= j < count && (#[trigger] removed[j]).1 == handle,
    )
}

/// The handle that is chosen with the size of its texture, where it has one.
pub open spec fn chosen_texture(
    chosen: Option<VideoTextureHandle>,
    textures: RegistryView,
) -> Option<(VideoTextureHandle, VideoFrameMetadata)> {
    match chosen {
        Some(handle) if textures.textures.contains_key(handle) => Some(
            (handle, textures.textures[handle].metadata),
        ),
        _ => None,
    }
}

/// The texture of a produced frame.
pub open spec fn texture_source(produced: ProducedFrame) -> RegisteredVideoTextureSource {
    RegisteredVideoTextureSource::Rgba8 {
        width: produced.frame.width,
        height: produced.frame.height,
        pixels: produced.frame.rgba,
    }
}

impl FrameLane {
    /// Whether there is one frame and one request for a clip.
    pub(crate) closed spec fn wf(&self) -> bool {
        self.slots.wf() && self.requests.wf()
    }

    pub(crate) fn new() -> (lane: Self)
        ensures
            lane.wf(),
            lane@ == LaneView::empty(),
    {
        let lane: FrameLane = FrameLane { slots: ClipMap::new(), requests: ClipMap::new() };
        assert(lane@ =~= LaneView::empty());
        lane
    }

    /// The handle that is chosen for `clip` from the frame at the place `from` on: that of the first
    /// key that serves the clip.
    spec fn chosen_from(&self, clip: VideoClip, from: int) -> Option<
        VideoTextureHandle,
    >
        decreases self.slots.count() - from,
    {
        if from >= self.slots.count() {
            None
        } else if key_serves_clip(self.slots.key_at(from), clip) {
            Some(self.slots@[self.slots.key_at(from)])
        } else {
            self.chosen_from(clip, from + 1)
        }
    }

    /// The handle that is chosen for `clip`: that of its own key, or else of the first key that
    /// serves it.
    pub(crate) closed spec fn chosen(&self, clip: VideoClip) -> Option<VideoTextureHandle> {
        if self.slots@.contains_key(clip_text(clip)) {
            Some(self.slots@[clip_text(clip)])
        } else {
            self.chosen_from(clip, 0)
        }
    }

    proof fn lemma_chosen_from(&self, clip: VideoClip, from: int)
        requires
            self.wf(),
            0 <= from,
        ensures
            match self.chosen_from(clip, from) {
                Some(handle) => exists|i: int|
                    from <= i < self.slots.count() && key_serves_clip(
                        #[trigger] self.slots.key_at(i),
                        clip,
                    ) && self.slots@[self.slots.key_at(i)] == handle,
                None => forall|i: int|
                    from <= i < self.slots.count() ==> !key_serves_clip(
                        #[trigger] self.slots.key_at(i),
                        clip,
                    ),
            },
        decreases self.slots.count() - from,
    {
        if from < self.slots.count() && !key_serves_clip(self.slots.key_at(from), clip) {
            self.lemma_chosen_from(clip, from + 1);
        }
    }

    /// The handle that is chosen serves the clip, and none is chosen only where none serves it.
    pub(crate) proof fn lemma_chosen_serves(&self, clip: VideoClip)
        requires
            self.wf(),
        ensures
            match self.chosen(clip) {
                Some(handle) => self@.slot_serves(clip, handle),
                None => self@.no_slot_serves(clip),
            },
    {
        self.slots.entries_cover_map();
        self.lemma_chosen_from(clip, 0);
        if !self@.slots.contains_key(clip_text(clip)) && self.chosen(clip) is None {
            assert forall|handle: VideoTextureHandle| !#[trigger] self@.slot_serves(
                clip,
                handle,
            ) by {
                if self@.slot_serves(clip, handle) {
                    let key = choose|key: Seq<char>|
                        #[trigger] self@.slots.contains_key(key) && key_serves_clip(key, clip)
                            && self@.slots[key] == handle;
                    let i = choose|i: int|
                        0 <= i < self.slots.count() && #[trigger] self.slots.key_at(i) == key;
                    assert(!key_serves_clip(self.slots.key_at(i), clip));
                }
            }
        }
    }

    /// The handle of the frame of `clip`.
    pub(crate) fn lookup_slot_handle(&self, clip: &VideoClip) -> (found: Option<VideoTextureHandle>)
        requires
            self.wf(),
        ensures
            found == self.chosen(*clip),
    {
        let own_key: String = clip_key(clip);
        match self.slots.get(&own_key) {
            Some(handle) => {
                return Some(*handle);
            },
            None => {},
        }
        let mut i: usize = 0;
        while i < self.slots.len()
            invariant
                i <= self.slots.count(),
                self.wf(),
                self.chosen(*clip) == self.chosen_from(*clip, i as int),
            decreases self.slots.count() - i,
        {
            let (key, handle): (&String, &VideoTextureHandle) = self.slots.entry_at(i);
            if key_matches_clip(key.as_str(), clip) {
                return Some(*handle);
            }
            i = i + 1;
        }
        None
    }

    /// The handle and the size of the frame of `clip`.
    pub(crate) fn frame_of(&self, textures: &VideoTextureRegistry, clip: &VideoClip) -> (found: Option<
        (VideoTextureHandle, VideoFrameMetadata),
    >)
        requires
            self.wf(),
        ensures
            found == chosen_texture(self.chosen(*clip), textures@),
            self@.frame_answers(textures@, *clip, found),
    {
        proof {
            self.lemma_chosen_serves(*clip);
        }
        match self.lookup_slot_handle(clip) {
            Some(handle) => match textures.get(&handle) {
                Some(texture) => Some((handle, texture.metadata)),
                None => None,
            },
            None => None,
        }
    }

    /// Takes note that a frame of `clip` is asked for, and gives the decode to run, unless one
    /// runs already.
    pub(crate) fn queue_request(
        &mut self,
        preview: bool,
        clip: VideoClipData,
        sample_rate: u64,
        sample: usize,
    ) -> (task: Option<DecodeTask>)
        requires
            old(self).wf(),
        ensures
            final(self).wf(),
            final(self)@ == old(self)@.queued(clip_data_text(clip), clip, sample_rate, sample),
            task_view(task) == (if old(self)@.decoding(clip_data_text(clip)) {
                None
            } else {
                Some(final(self)@.task_of(clip_data_text(clip), preview))
            }),
    {
        let key: String = clip_data_key(&clip);
        let (generation, inflight): (u64, Option<u64>) = match self.requests.get(&key) {
            Some(request) => (request.generation.wrapping_add(1), request.inflight_generation),
            None => (1, None),
        };
        let task: Option<DecodeTask> = match inflight {
            Some(_) => None,
            None => Some(
                DecodeTask {
                    clip_key: key.clone(),
                    clip: clip.clone(),
                    sample_rate,
                    sample,
                    generation,
                    preview,
                },
            ),
        };
        let inflight_generation: Option<u64> = match inflight {
            Some(running) => Some(running),
            None => Some(generation),
        };
        let request: DecodeRequestState = DecodeRequestState {
            clip,
            sample_rate,
            sample,
            generation,
            inflight_generation,
            last_error: None,
        };
        self.requests.insert(key, request);
        assert(self@ =~= old(self)@.queued(clip_data_text(clip), clip, sample_rate, sample));
        task
    }

    /// Takes note that a decode is over, and gives the decode to run next.
    pub(crate) fn finish(&mut self, clip_key: String, preview: bool, generation: u64) -> (task: Option<
        DecodeTask,
    >)
        requires
            old(self).wf(),
        ensures
            final(self).wf(),
            (final(self)@, task_view(task)) == old(self)@.finished(clip_key@, generation, preview),
    {
        let ghost before = self@;
        match self.requests.get_mut(&clip_key) {
            None => {
                assert(self@ =~= before);
                None
            },
            Some(request) => {
                let running: bool = match request.inflight_generation {
                    Some(running) => running == generation,
                    None => false,
                };
                let task: Option<DecodeTask> = if !running {
                    None
                } else if request.generation == generation {
                    request.inflight_generation = None;
                    None
                } else {
                    let next_generation: u64 = request.generation;
                    request.inflight_generation = Some(next_generation);
                    Some(
                        DecodeTask {
                            clip_key: clip_key.clone(),
                            clip: request.clip.clone(),
                            sample_rate: request.sample_rate,
                            sample: request.sample,
                            generation: next_generation,
                            preview,
                        },
                    )
                };
                assert(self@ =~= before.finished(clip_key@, generation, preview).0);
                task
            },
        }
    }

    /// Keeps the reason why a clip has no frame.
    pub(crate) fn fail(&mut self, clip_key: &String, reason: String)
        requires
            old(self).wf(),
            old(self)@.requests.contains_key(clip_key@),
        ensures
            final(self).wf(),
            final(self)@ == old(self)@.failed(clip_key@, reason@),
    {
        let ghost before = self@;
        match self.requests.get_mut(clip_key) {
            None => {},
            Some(request) => {
                request.last_error = Some(reason);
            },
        }
        assert(self@ =~= before.failed(clip_key@, reason@));
    }

    /// Keeps a frame of a clip as a texture.
    pub(crate) fn store(
        &mut self,
        textures: &mut VideoTextureRegistry,
        clip_key: String,
        produced: ProducedFrame,
    )
        requires
            old(self).wf(),
        ensures
            final(self).wf(),
            (final(textures)@, final(self)@) == old(self)@.stored(
                old(textures)@,
                clip_key@,
                produced,
            ),
    {
        let metadata: VideoFrameMetadata = produced.frame.metadata();
        let source: RegisteredVideoTextureSource = RegisteredVideoTextureSource::Rgba8 {
            width: produced.frame.width,
            height: produced.frame.height,
            pixels: produced.frame.rgba,
        };
        let slot: Option<VideoTextureHandle> = match self.slots.get(&clip_key) {
            Some(handle) => Some(*handle),
            None => None,
        };
        match slot {
            Some(handle) => {
                if textures.get(&handle).is_some() {
                    textures.replace(
                        handle,
                        metadata,
                        source,
                        produced.producer_label,
                        produced.fallback_reason,
                    );
                    return ;
                }
                let _: u64 = textures.bump_revision();
            },
            None => {},
        }
        let handle: VideoTextureHandle = textures.insert(
            metadata,
            source,
            produced.producer_label,
            produced.fallback_reason,
        );
        self.slots.insert(clip_key, handle);
    }

    /// Takes the result of a decode over, while that decode is the one that runs. Tells whether
    /// it was.
    pub(crate) fn commit(
        &mut self,
        textures: &mut VideoTextureRegistry,
        clip_key: String,
        generation: u64,
        result: Result<ProducedFrame, String>,
    ) -> (counted: bool)
        requires
            old(self).wf(),
        ensures
            final(self).wf(),
            counted == old(self)@.decoding_generation(clip_key@, generation),
            (final(textures)@, final(self)@) == old(self)@.committed(
                old(textures)@,
                clip_key@,
                generation,
                result,
            ),
    {
        let running: bool = match self.requests.get(&clip_key) {
            Some(request) => match request.inflight_generation {
                Some(running) => running == generation,
                None => false,
            },
            None => false,
        };
        if !running {
            return false;
        }
        match result {
            Ok(produced) => if produced.frame.is_blank() {
                self.fail(&clip_key, "decoded video frame was empty".to_owned());
            } else {
                self.store(textures, clip_key, produced);
            },
            Err(reason) => {
                self.fail(&clip_key, reason);
            },
        }
        true
    }

    /// Drops the frames and the requests of all clips but those of `clip_keys`, with their
    /// textures.
    pub(crate) fn retain_clip_keys(&mut self, textures: &mut VideoTextureRegistry, clip_keys: &Vec<String>)
        requires
            old(self).wf(),
        ensures
            final(self).wf(),
            final(self)@ == old(self)@.retained(clip_keys@),
            final(textures)@ == (RegistryView {
                textures: old(textures)@.textures.remove_keys(
                    old(self)@.evicted_handles(clip_keys@),
                ),
                ..old(textures)@
            }),
    {
        let ghost before = textures@;
        let ghost evicted = self@.evicted_handles(clip_keys@);
        let removed: Vec<(String, VideoTextureHandle)> = self.slots.retain_keys(clip_keys);
        assert(before.textures.remove_keys(first_handles(removed@, 0)) =~= before.textures);
        let mut i: usize = 0;
        while i < removed.len()
            invariant
                i <= removed.len(),
                textures@.textures == before.textures.remove_keys(
                    first_handles(removed@, i as int),
                ),
                textures@ == (RegistryView { textures: textures@.textures, ..before }),
            decreases removed.len() - i,
        {
            let _: Option<RegisteredVideoTexture> = textures.remove(&removed[i].1);
            proof {
                let handle = removed@[i as int].1;
                assert(first_handles(removed@, i + 1) =~= first_handles(
                    removed@,
                    i as int,
                ).insert(handle));
                assert(before.textures.remove_keys(first_handles(removed@, i as int)).remove(handle)
                    =~= before.textures.remove_keys(first_handles(removed@, i + 1)));
            }
            i = i + 1;
        }
        proof {
            let gone = first_handles(removed@, removed@.len() as int);
            assert forall|handle: VideoTextureHandle| #[trigger]
                gone.contains(handle) == evicted.contains(handle) by {
                if gone.contains(handle) {
                    let j = choose|j: int|
                        0 <= j < removed@.len() && (#[trigger] removed@[j]).1 == handle;
                    assert(old(self)@.slots.contains_key(removed@[j].0@));
                }
                if evicted.contains(handle) {
                    let key = choose|key: Seq<char>|
                        #[trigger] old(self)@.slots.contains_key(key) && !holds_key(clip_keys@, key)
                            && old(self)@.slots[key] == handle;
                    let j = choose|j: int|
                        0 <= j < removed@.len() && (#[trigger] removed@[j]).0@ == key;
                    assert(removed@[j].1 == handle);
                }
            }
            assert(gone =~= evicted);
        }
        self.requests.retain_keys(clip_keys);
        assert(self@ =~= old(self)@.retained(clip_keys@));
    }

    /// Why a clip has no frame to show, as far as its request tells.
    pub(crate) fn load_state(&self, clip_key: &String) -> (state: Option<VideoFrameLoadState>)
        requires
            self.wf(),
        ensures
            load_view(state) == self@.load_state(clip_key@),
    {
        match self.requests.get(clip_key) {
            Some(request) => if request.inflight_generation.is_some() {
                Some(VideoFrameLoadState::Loading)
            } else {
                match &request.last_error {
                    Some(reason) => Some(VideoFrameLoadState::Failed(reason.clone())),
                    None => None,
                }
            },
            None => None,
        }
    }
}

/// What happens to the frames of one clip: one is asked for, or a decode is over.
pub enum ClipEvent {
    Asked { sample_rate: u64, sample: usize },
    Ended { generation: u64 },
}

/// The lane after an event of `clip`, and the decode that is started.
pub open spec fn after_event(
    lane: LaneView,
    clip: VideoClipData,
    preview: bool,
    event: ClipEvent,
) -> (LaneView, Option<TaskView>) {
    let clip_key = clip_data_text(clip);
    match event {
        ClipEvent::Asked { sample_rate, sample } => {
            let after = lane.queued(clip_key, clip, sample_rate, sample);
            (
                after,
                if lane.decoding(clip_key) {
                    None
                } else {
                    Some(after.task_of(clip_key, preview))
                },
            )
        },
        ClipEvent::Ended { generation } => lane.finished(clip_key, generation, preview),
    }
}

/// What came of some events of a clip.
pub struct ClipHistory {
    /// The lane.
    pub lane: LaneView,
    /// How many decodes were started.
    pub started: int,
    /// How many of them are over.
    pub ended: int,
    /// The decode that was started last.
    pub last_task: Option<TaskView>,
    /// How many requests came since then.
    pub waiting: int,
}

/// What came of `events` of `clip`, from a lane on that knows nothing of it.
pub open spec fn history(
    lane: LaneView,
    clip: VideoClipData,
    preview: bool,
    events: Seq<ClipEvent>,
) -> ClipHistory
    decreases events.len(),
{
    if events.len() == 0 {
        ClipHistory { lane, started: 0, ended: 0, last_task: None, waiting: 0 }
    } else {
        let before = history(lane, clip, preview, events.drop_last());
        let (after, task) = after_event(before.lane, clip, preview, events.last());
        let over = events.last() matches ClipEvent::Ended { generation }
            && before.lane.decoding_generation(clip_data_text(clip), generation);
        ClipHistory {
            lane: after,
            started: before.started + if task is Some { 1int } else { 0 },
            ended: before.ended + if over { 1int } else { 0 },
            last_task: if task is Some { task } else { before.last_task },
            waiting: if task is Some {
                0
            } else if events.last() is Asked {
                before.waiting + 1
            } else {
                before.waiting
            },
        }
    }
}

/// Whatever is asked for and however decodes end: one decode of a clip runs at a time, and once
/// none runs, the last one that was started was for the last request. The numbers of requests
/// must not come round on the way.
pub proof fn last_request_is_decoded_last(
    lane: LaneView,
    clip: VideoClipData,
    preview: bool,
    events: Seq<ClipEvent>,
)
    requires
        !lane.requests.contains_key(clip_data_text(clip)),
        events.len() <= u64::MAX,
    ensures
        ({
            let clip_key = clip_data_text(clip);
            let after = history(lane, clip, preview, events);
            let decoding = after.lane.decoding(clip_key);
            &&& after.started - after.ended == if decoding { 1int } else { 0 }
            &&& !decoding && after.lane.requests.contains_key(clip_key) ==> after.last_task == Some(
                after.lane.task_of(clip_key, preview),
            )
        }),
{
    lemma_history(lane, clip, preview, events);
}

proof fn lemma_history(
    lane: LaneView,
    clip: VideoClipData,
    preview: bool,
    events: Seq<ClipEvent>,
)
    requires
        !lane.requests.contains_key(clip_data_text(clip)),
        events.len() <= u64::MAX,
    ensures
        ({
            let clip_key = clip_data_text(clip);
            let after = history(lane, clip, preview, events);
            let request = after.lane.requests[clip_key];
            let known = after.lane.requests.contains_key(clip_key);
            let decoding = after.lane.decoding(clip_key);
            &&& 0 <= after.waiting <= events.len()
            &&& after.started - after.ended == if decoding { 1int } else { 0 }
            &&& !decoding ==> after.waiting == 0
            &&& known ==> after.last_task is Some
            &&& known && after.waiting == 0 ==> after.last_task == Some(
                after.lane.task_of(clip_key, preview),
            )
            &&& decoding ==> {
                &&& request.inflight_generation == Some(after.last_task->0.generation)
                &&& request.generation == (after.last_task->0.generation + after.waiting)
                    % 0x1_0000_0000_0000_0000
            }
        }),
    decreases events.len(),
{
    if events.len() > 0 {
        lemma_history(lane, clip, preview, events.drop_last());
        let before = history(lane, clip, preview, events.drop_last());
        let clip_key = clip_data_text(clip);
        if before.lane.decoding(clip_key) {
            let number = before.last_task->0.generation;
            lemma_number_comes_round(number, before.waiting);
        }
    }
}

/// Numbers that are counted up come round after all of them only.
proof fn lemma_number_comes_round(number: u64, steps: int)
    requires
        0 <= steps <= u64::MAX,
    ensures
        (number + steps) % 0x1_0000_0000_0000_0000 == number ==> steps == 0,
        steps == 0 ==> (number + steps) % 0x1_0000_0000_0000_0000 == number,
        next_u64(((number + steps) % 0x1_0000_0000_0000_0000) as u64) == (number + (steps + 1))
            % 0x1_0000_0000_0000_0000,
{
}

/// A request is kept as it is asked for, with the number behind that of the request before it, or 1
/// where there was none, and without a reason. A decode that runs goes on; where none runs, that of
/// this request does. The requests of other clips and all frames stay.
pub proof fn request_is_kept_as_asked(
    lane: LaneView,
    clip_key: Seq<char>,
    clip: VideoClipData,
    sample_rate: u64,
    sample: usize,
    other: Seq<char>,
)
    ensures
        ({
            let after = lane.queued(clip_key, clip, sample_rate, sample);
            let request = after.requests[clip_key];
            let known = lane.requests.dom().contains(clip_key);
            let before = lane.requests[clip_key];
            &&& after.requests.dom().contains(clip_key)
            &&& request.clip == clip
            &&& request.sample_rate == sample_rate
            &&& request.sample == sample
            &&& request.last_error is None
            &&& !known ==> request.generation == 1
            &&& known && before.generation < u64::MAX ==> request.generation == before.generation + 1
            &&& known && before.generation == u64::MAX ==> request.generation == 0
            &&& known && before.inflight_generation is Some ==> request.inflight_generation
                == before.inflight_generation
            &&& !known || before.inflight_generation is None ==> request.inflight_generation == Some(
                request.generation,
            )
            &&& after.slots == lane.slots
            &&& other != clip_key ==> {
                &&& after.requests.dom().contains(other) <==> lane.requests.dom().contains(other)
                &&& after.requests.dom().contains(other) ==> after.requests[other]
                    == lane.requests[other]
            }
        }),
{
}

/// The decode of a clip is for what was asked for last, under the key of the clip.
pub proof fn task_is_for_last_request(lane: LaneView, clip_key: Seq<char>, preview: bool)
    ensures
        ({
            let task = lane.task_of(clip_key, preview);
            let request = lane.requests[clip_key];
            &&& task.clip_key == clip_key
            &&& task.clip == request.clip
            &&& task.sample_rate == request.sample_rate
            &&& task.sample == request.sample
            &&& task.generation == request.generation
            &&& task.preview == preview
        }),
{
}

/// The end of a decode counts only where that decode runs. It leaves the clip idle where its request
/// was the last, and else starts the decode of the last request. Of the request only the number of
/// the decode that runs changes; the requests of other clips and all frames stay.
pub proof fn ended_decode_makes_room_for_last_request(
    lane: LaneView,
    clip_key: Seq<char>,
    generation: u64,
    preview: bool,
    other: Seq<char>,
)
    ensures
        ({
            let (after, task) = lane.finished(clip_key, generation, preview);
            let before = lane.requests[clip_key];
            let request = after.requests[clip_key];
            let runs = lane.requests.dom().contains(clip_key) && before.inflight_generation == Some(
                generation,
            );
            &&& !runs ==> after == lane && task is None
            &&& runs && before.generation == generation ==> request.inflight_generation is None
                && task is None
            &&& runs && before.generation != generation ==> {
                &&& request.inflight_generation == Some(before.generation)
                &&& task == Some(
                    TaskView {
                        clip_key,
                        clip: before.clip,
                        sample_rate: before.sample_rate,
                        sample: before.sample,
                        generation: before.generation,
                        preview,
                    },
                )
            }
            &&& runs ==> {
                &&& after.requests.dom().contains(clip_key)
                &&& request.clip == before.clip
                &&& request.sample_rate == before.sample_rate
                &&& request.sample == before.sample
                &&& request.generation == before.generation
                &&& request.last_error == before.last_error
            }
            &&& after.slots == lane.slots
            &&& other != clip_key ==> {
                &&& after.requests.dom().contains(other) <==> lane.requests.dom().contains(other)
                &&& after.requests.dom().contains(other) ==> after.requests[other]
                    == lane.requests[other]
            }
        }),
{
}

/// A decode that failed leaves its reason with the request of its clip and changes nothing else: a
/// frame without a column, a row or bytes counts as a failure. The result of a decode that does not
/// run counts for nothing.
pub proof fn failed_decode_leaves_reason(
    lane: LaneView,
    textures: RegistryView,
    clip_key: Seq<char>,
    generation: u64,
    result: Result<ProducedFrame, String>,
    other: Seq<char>,
)
    requires
        lane.requests.dom().contains(clip_key),
        lane.requests[clip_key].inflight_generation == Some(generation),
        result matches Ok(produced) ==> produced.frame.width == 0 || produced.frame.height == 0
            || produced.frame.rgba@.len() == 0,
    ensures
        ({
            let (kept, after) = lane.committed(textures, clip_key, generation, result);
            let before = lane.requests[clip_key];
            let request = after.requests[clip_key];
            &&& kept == textures
            &&& after.slots == lane.slots
            &&& after.requests.dom().contains(clip_key)
            &&& result matches Err(reason) ==> request.last_error == Some(reason@)
            &&& result is Ok ==> request.last_error == Some("decoded video frame was empty"@)
            &&& request.clip == before.clip
            &&& request.sample_rate == before.sample_rate
            &&& request.sample == before.sample
            &&& request.generation == before.generation
            &&& request.inflight_generation == before.inflight_generation
            &&& other != clip_key ==> {
                &&& after.requests.dom().contains(other) <==> lane.requests.dom().contains(other)
                &&& after.requests.dom().contains(other) ==> after.requests[other]
                    == lane.requests[other]
            }
        }),
{
}

/// A frame that was decoded is kept unchanged as the texture of its clip: its size, its bytes, its
/// place, who produced it and why. It takes the place of the frame before it, under the same handle,
/// where that has a texture, and else gets a new handle. All requests and the frames of other clips
/// stay.
pub proof fn decoded_frame_is_stored_unchanged(
    lane: LaneView,
    textures: RegistryView,
    clip_key: Seq<char>,
    generation: u64,
    produced: ProducedFrame,
    other: Seq<char>,
)
    requires
        lane.requests.dom().contains(clip_key),
        lane.requests[clip_key].inflight_generation == Some(generation),
        produced.frame.width > 0,
        produced.frame.height > 0,
        produced.frame.rgba@.len() > 0,
    ensures
        ({
            let (kept, after) = lane.committed(textures, clip_key, generation, Ok(produced));
            let handle = after.slots[clip_key];
            let texture = kept.textures[handle];
            let replaces = lane.slots.dom().contains(clip_key) && textures.textures.dom().contains(
                lane.slots[clip_key],
            );
            &&& after.slots.dom().contains(clip_key)
            &&& kept.textures.dom().contains(handle)
            &&& texture.metadata.width == produced.frame.width
            &&& texture.metadata.height == produced.frame.height
            &&& texture.metadata.pts_samples == produced.frame.pts_samples
            &&& texture.source matches RegisteredVideoTextureSource::Rgba8 { width, height, pixels }
                && width == produced.frame.width && height == produced.frame.height && pixels
                == produced.frame.rgba
            &&& texture.producer_label == produced.producer_label
            &&& texture.fallback_reason == produced.fallback_reason
            &&& replaces ==> handle == lane.slots[clip_key] && kept.next_slot == textures.next_slot
            &&& !replaces ==> handle.slot == textures.next_slot && handle.generation
                == textures.generation
            &&& kept.generation == textures.generation
            &&& after.requests == lane.requests
            &&& other != clip_key ==> {
                &&& after.slots.dom().contains(other) <==> lane.slots.dom().contains(other)
                &&& after.slots.dom().contains(other) ==> after.slots[other] == lane.slots[other]
            }
        }),
{
}

/// The result of a decode that does not run changes nothing.
pub proof fn result_of_ended_decode_is_dropped(
    lane: LaneView,
    textures: RegistryView,
    clip_key: Seq<char>,
    generation: u64,
    result: Result<ProducedFrame, String>,
)
    requires
        !lane.requests.dom().contains(clip_key) || lane.requests[clip_key].inflight_generation is None
            || lane.requests[clip_key].inflight_generation->0 != generation,
    ensures
        lane.committed(textures, clip_key, generation, result) == (textures, lane),
{
}

/// A clip is told to be loading exactly while a decode of it runs, and to have failed where none runs
/// and the last one left a reason.
pub proof fn load_state_tells_running_decode(lane: LaneView, clip_key: Seq<char>)
    ensures
        ({
            let known = lane.requests.dom().contains(clip_key);
            let request = lane.requests[clip_key];
            let state = lane.load_state(clip_key);
            &&& !known ==> state is None
            &&& known && request.inflight_generation is Some ==> state is Some && state->0 is Loading
            &&& known && request.inflight_generation is None && request.last_error is None ==> state
                is None
            &&& known && request.inflight_generation is None && request.last_error is Some ==> state
                == Some(LoadView::Failed(request.last_error->0))
            &&& lane.decoding(clip_key) <==> known && request.inflight_generation is Some
        }),
{
}

/// The frame of a clip is that under its own key; only without one, that under another key that
/// serves the clip, and no other frame is.
pub proof fn own_frame_comes_first(
    lane: LaneView,
    clip: VideoClip,
    key: Seq<char>,
    handle: VideoTextureHandle,
)
    ensures
        lane.slots.dom().contains(clip_text(clip)) ==> (lane.slot_serves(clip, handle) <==> handle
            == lane.slots[clip_text(clip)]),
        !lane.slots.dom().contains(clip_text(clip)) && lane.slots.dom().contains(key)
            && key_serves_clip(key, clip) ==> lane.slot_serves(clip, lane.slots[key]),
        (forall|k: Seq<char>|
            #[trigger] lane.slots.dom().contains(k) ==> lane.slots[k] != handle) ==> !lane.slot_serves(
            clip,
            handle,
        ),
        (forall|k: Seq<char>|
            #[trigger] lane.slots.dom().contains(k) ==> k != clip_text(clip) && !key_serves_clip(
                k,
                clip,
            )) ==> lane.no_slot_serves(clip),
{
    if !lane.slots.dom().contains(clip_text(clip)) && lane.slots.dom().contains(key)
        && key_serves_clip(key, clip) {
        assert(lane.slots.contains_key(key));
    }
    if forall|k: Seq<char>|
        #[trigger] lane.slots.dom().contains(k) ==> k != clip_text(clip) && !key_serves_clip(
            k,
            clip,
        ) {
        assert forall|h: VideoTextureHandle| !#[trigger] lane.slot_serves(clip, h) by {
            assert(!lane.slots.dom().contains(clip_text(clip)));
            if lane.slot_serves(clip, h) {
                let k = choose|k: Seq<char>|
                    #[trigger] lane.slots.contains_key(k) && key_serves_clip(k, clip)
                        && lane.slots[k] == h;
                assert(lane.slots.dom().contains(k));
            }
        }
    }
    if lane.slots.dom().contains(clip_text(clip)) {
        assert(lane.slots.dom().contains(clip_text(clip)));
    }
}

/// Of the clips that are not kept, neither frame nor request stays, and their handles are those that
/// go; what is kept stays as it is.
pub proof fn kept_clips_keep_frames_and_requests(
    lane: LaneView,
    clip_keys: Seq<String>,
    key: Seq<char>,
)
    ensures
        ({
            let after = lane.retained(clip_keys);
            let kept = exists|i: int| 0 <= i < clip_keys.len() && (#[trigger] clip_keys[i])@ == key;
            &&& after.slots.dom().contains(key) <==> lane.slots.dom().contains(key) && kept
            &&& after.slots.dom().contains(key) ==> after.slots[key] == lane.slots[key]
            &&& after.requests.dom().contains(key) <==> lane.requests.dom().contains(key) && kept
            &&& after.requests.dom().contains(key) ==> after.requests[key] == lane.requests[key]
            &&& lane.slots.dom().contains(key) && !kept ==> lane.evicted_handles(clip_keys).contains(
                lane.slots[key],
            )
        }),
        forall|handle: VideoTextureHandle| #[trigger]
            lane.evicted_handles(clip_keys).contains(handle) ==> exists|k: Seq<char>|
                #[trigger] lane.slots.dom().contains(k) && !holds_key(clip_keys, k) && lane.slots[k]
                    == handle,
{
    if lane.slots.dom().contains(key) {
        assert(lane.slots.contains_key(key));
    }
    assert forall|handle: VideoTextureHandle| #[trigger]
        lane.evicted_handles(clip_keys).contains(handle) implies exists|k: Seq<char>|
        #[trigger] lane.slots.dom().contains(k) && !holds_key(clip_keys, k) && lane.slots[k]
            == handle by {
        let k = choose|k: Seq<char>|
            #[trigger] lane.slots.contains_key(k) && !holds_key(clip_keys, k) && lane.slots[k]
                == handle;
        assert(lane.slots.dom().contains(k));
    }
}

/// Requests, decodes and states are seen as they are.
pub proof fn lane_is_seen_as_it_is(
    request: DecodeRequestState,
    task: DecodeTask,
    state: Option<VideoFrameLoadState>,
)
    ensures
        request@.clip == request.clip,
        request@.sample_rate == request.sample_rate,
        request@.sample == request.sample,
        request@.generation == request.generation,
        request@.inflight_generation == request.inflight_generation,
        request.last_error is None <==> request@.last_error is None,
        request.last_error is Some ==> request@.last_error->0 == request.last_error->0@,
        task@.clip_key == task.clip_key@,
        task@.clip == task.clip,
        task@.sample_rate == task.sample_rate,
        task@.sample == task.sample,
        task@.generation == task.generation,
        task@.preview == task.preview,
        task_view(Some(task)) == Some(task@),
        task_view(None) is None,
        state is None ==> load_view(state) is None,
        state == Some(VideoFrameLoadState::Loading) ==> load_view(state) is Some && load_view(
            state,
        )->0 is Loading,
        state matches Some(VideoFrameLoadState::Failed(reason)) ==> load_view(state) == Some(
            LoadView::Failed(reason@),
        ),
{
}

/// A frame is found with the size of its own texture, and not without a texture.
pub proof fn chosen_frame_has_size_of_texture(
    chosen: Option<VideoTextureHandle>,
    textures: RegistryView,
)
    ensures
        chosen_texture(chosen, textures) is Some <==> chosen is Some
            && textures.textures.dom().contains(chosen->0),
        chosen_texture(chosen, textures) matches Some((handle, metadata)) ==> chosen == Some(handle)
            && metadata == textures.textures[handle].metadata,
{
}

} // verus!
