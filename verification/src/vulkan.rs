//! The backend that keeps decoded frames as textures.
use crate::clip_key::clip_key;
use crate::lane::{DecodeTask, FrameLane};
use crate::producer::{ProducedFrame, ProducerPlan};
use crate::registry::VideoTextureRegistry;
use crate::text::is_named;
use crate::types::{
    VideoClip, VideoClipData, VideoFrameLoadState, VideoFrameMetadata, VideoFrameRef,
    VideoRuntimeBackend, VideoTextureHandle,
};
use vstd::prelude::*;
#[allow(unused_imports)]
use crate::clip_key::{clip_data_text, clip_text, key_serves_clip};
#[allow(unused_imports)]
use crate::clip_map::holds_key;
#[allow(unused_imports)]
use crate::lane::{
    chosen_texture, load_view, task_view, texture_source, LaneView, LoadView, TaskView,
};
#[allow(unused_imports)]
use crate::registry::RegistryView;
#[allow(unused_imports)]
use crate::text::normalized;

verus! {

/// How the frames of the Vulkan backend are to be produced.
#[derive(Debug, Clone, Copy, PartialEq, Eq, Structural)]
pub enum VulkanFrameProducerKind {
    CpuUpload,
    Hardware,
    Auto,
}

/// The kind that a setting names: `hardware` or `cpu-upload`, else the default.
pub open spec fn producer_kind_named(setting: Option<Seq<char>>) -> VulkanFrameProducerKind {
    match setting {
        Some(name) if normalized(name) == "hardware"@ => VulkanFrameProducerKind::Hardware,
        Some(name) if normalized(name) == "cpu-upload"@ => VulkanFrameProducerKind::CpuUpload,
        _ => VulkanFrameProducerKind::Auto,
    }
}

/// What an optional setting holds.
pub open spec fn setting_view(setting: Option<&str>) -> Option<Seq<char>> {
    match setting {
        Some(text) => Some(text@),
        None => None,
    }
}

impl VulkanFrameProducerKind {
    /// All kinds, in the order in which they are offered.
    pub const ALL: [VulkanFrameProducerKind; 3] = [
        VulkanFrameProducerKind::Auto,
        VulkanFrameProducerKind::CpuUpload,
        VulkanFrameProducerKind::Hardware,
    ];

    /// The name that the kind is shown by.
    pub open spec fn shown_text(self) -> Seq<char> {
        match self {
            VulkanFrameProducerKind::Auto => "Auto"@,
            VulkanFrameProducerKind::CpuUpload => "CPU Upload"@,
            VulkanFrameProducerKind::Hardware => "Hardware"@,
        }
    }

    /// The name that the kind is shown by.
    pub fn to_string(&self) -> (name: String)
        ensures
            name@ == self.shown_text(),
    {
        match self {
            VulkanFrameProducerKind::Auto => "Auto".to_owned(),
            VulkanFrameProducerKind::CpuUpload => "CPU Upload".to_owned(),
            VulkanFrameProducerKind::Hardware => "Hardware".to_owned(),
        }
    }

    /// The kind that a setting names, up to white space around it and to the case of its letters.
    pub fn from_setting(setting: Option<&str>) -> (kind: Self)
        ensures
            kind == producer_kind_named(setting_view(setting)),
    {
        match setting {
            Some(name) => if is_named(name, "hardware") {
                VulkanFrameProducerKind::Hardware
            } else if is_named(name, "cpu-upload") {
                VulkanFrameProducerKind::CpuUpload
            } else {
                VulkanFrameProducerKind::Auto
            },
            None => VulkanFrameProducerKind::Auto,
        }
    }

    /// How frames are produced for this kind, where `setting` may decide on the default.
    pub open spec fn plan(self, setting: Option<Seq<char>>) -> ProducerPlan {
        match self {
            VulkanFrameProducerKind::CpuUpload => ProducerPlan::CpuUpload,
            VulkanFrameProducerKind::Hardware => ProducerPlan::HardwarePreferred,
            VulkanFrameProducerKind::Auto => if producer_kind_named(setting)
                == VulkanFrameProducerKind::CpuUpload {
                ProducerPlan::CpuUpload
            } else {
                ProducerPlan::HardwarePreferred
            },
        }
    }

    /// How frames are produced for this kind, where `setting` may decide on the default.
    pub fn producer_plan(&self, setting: Option<&str>) -> (plan: ProducerPlan)
        ensures
            plan == self.plan(setting_view(setting)),
    {
        match self {
            VulkanFrameProducerKind::CpuUpload => ProducerPlan::CpuUpload,
            VulkanFrameProducerKind::Hardware => ProducerPlan::HardwarePreferred,
            VulkanFrameProducerKind::Auto => match VulkanFrameProducerKind::from_setting(setting) {
                VulkanFrameProducerKind::CpuUpload => ProducerPlan::CpuUpload,
                _ => ProducerPlan::HardwarePreferred,
            },
        }
    }
}

impl Default for VulkanFrameProducerKind {
    fn default() -> (kind: Self)
        ensures
            kind == VulkanFrameProducerKind::Auto,
    {
        VulkanFrameProducerKind::Auto
    }
}

/// A device that renders.
#[derive(Debug, Clone)]
pub struct VulkanDeviceContext {
    pub device_label: String,
    pub queue_family_index: u32,
}

/// The device and the queues that the backend works with.
#[derive(Debug, Clone)]
pub struct VulkanRuntimeConfig {
    pub device: VulkanDeviceContext,
    pub decode_queue_family_index: u32,
    pub presentation_queue_family_index: u32,
}

/// The backend that keeps decoded frames as textures: the previews and the current frames of the
/// clips, with the requests for them.
pub struct VulkanBackend {
    config: Option<VulkanRuntimeConfig>,
    producer_kind: VulkanFrameProducerKind,
    plan: ProducerPlan,
    textures: VideoTextureRegistry,
    preview: FrameLane,
    current: FrameLane,
}

/// What a [`VulkanBackend`] holds.
#[verifier::ext_equal]
pub struct BackendView {
    /// The device and the queues, where there are any.
    pub config: Option<VulkanRuntimeConfig>,
    /// How frames are to be produced.
    pub producer_kind: VulkanFrameProducerKind,
    /// How frames are produced.
    pub plan: ProducerPlan,
    /// The textures of all frames.
    pub textures: RegistryView,
    /// The previews.
    pub preview: LaneView,
    /// The current frames.
    pub current: LaneView,
}

impl View for VulkanBackend {
    type V = BackendView;

    closed spec fn view(&self) -> BackendView {
        BackendView {
            config: self.config,
            producer_kind: self.producer_kind,
            plan: self.plan,
            textures: self.textures@,
            preview: self.preview@,
            current: self.current@,
        }
    }
}

/// The texture that a frame is, where it is one.
pub open spec fn texture_of(frame: Option<VideoFrameRef<'_>>) -> Option<
    (VideoTextureHandle, VideoFrameMetadata),
> {
    match frame {
        Some(VideoFrameRef::Gpu { handle, metadata }) => Some((handle, metadata)),
        _ => None,
    }
}

impl BackendView {
    /// A backend without any frames.
    pub open spec fn empty(
        config: Option<VulkanRuntimeConfig>,
        producer_kind: VulkanFrameProducerKind,
        plan: ProducerPlan,
    ) -> BackendView {
        BackendView {
            config,
            producer_kind,
            plan,
            textures: RegistryView::empty(),
            preview: LaneView::empty(),
            current: LaneView::empty(),
        }
    }

    /// The previews or the current frames.
    pub open spec fn lane(self, preview: bool) -> LaneView {
        if preview {
            self.preview
        } else {
            self.current
        }
    }

    /// The backend with other previews or other current frames.
    pub open spec fn with_lane(self, preview: bool, lane: LaneView) -> BackendView {
        if preview {
            BackendView { preview: lane, ..self }
        } else {
            BackendView { current: lane, ..self }
        }
    }

    /// Whether `found` may be the preview or the current frame of `clip`.
    pub open spec fn frame_answers(
        self,
        preview: bool,
        clip: VideoClip,
        found: Option<(VideoTextureHandle, VideoFrameMetadata)>,
    ) -> bool {
        if self.config is None {
            found is None
        } else {
            self.lane(preview).frame_answers(self.textures, clip, found)
        }
    }

    /// What the requests tell of a clip without a frame. Where a current frame was not asked for,
    /// the request for the preview tells.
    pub open spec fn told(self, preview: bool, clip_key: Seq<char>) -> Option<LoadView> {
        if self.config is None {
            None
        } else if preview || self.current.load_state(clip_key) is None {
            self.preview.load_state(clip_key)
        } else {
            self.current.load_state(clip_key)
        }
    }

    /// Why the preview or the current frame of `clip` is missing, where `shown` is that frame:
    /// nothing where the frame is there, else what the requests tell.
    pub open spec fn missing(
        self,
        preview: bool,
        clip: VideoClip,
        shown: Option<(VideoTextureHandle, VideoFrameMetadata)>,
    ) -> Option<LoadView> {
        if shown is Some {
            None
        } else {
            self.told(preview, clip_text(clip))
        }
    }

    /// Whether `state` may be why the preview or the current frame of `clip` is missing: nothing
    /// where the frame is there, else what the requests tell.
    pub open spec fn load_answers(
        self,
        preview: bool,
        clip: VideoClip,
        state: Option<LoadView>,
    ) -> bool {
        exists|found: Option<(VideoTextureHandle, VideoFrameMetadata)>|
            #[trigger] self.frame_answers(preview, clip, found) && state == self.missing(
                preview,
                clip,
                found,
            )
    }

    /// The backend after a frame was asked for, and the decode to run.
    pub open spec fn requested(
        self,
        preview: bool,
        clip: VideoClipData,
        sample_rate: u64,
        sample: usize,
    ) -> (BackendView, Option<TaskView>) {
        if self.config is None {
            (self, None)
        } else {
            let clip_key = clip_data_text(clip);
            let lane = self.lane(preview).queued(clip_key, clip, sample_rate, sample);
            (
                self.with_lane(preview, lane),
                if self.lane(preview).decoding(clip_key) {
                    None
                } else {
                    Some(lane.task_of(clip_key, preview))
                },
            )
        }
    }

    /// The backend after a decode gave its result.
    pub open spec fn committed(
        self,
        preview: bool,
        clip_key: Seq<char>,
        generation: u64,
        result: Result<ProducedFrame, String>,
    ) -> BackendView {
        let (textures, lane) = self.lane(preview).committed(
            self.textures,
            clip_key,
            generation,
            result,
        );
        BackendView { textures, ..self.with_lane(preview, lane) }
    }

    /// The backend after a decode is over, and the decode to run next.
    pub open spec fn finished(self, preview: bool, clip_key: Seq<char>, generation: u64) -> (
        BackendView,
        Option<TaskView>,
    ) {
        let (lane, task) = self.lane(preview).finished(clip_key, generation, preview);
        (self.with_lane(preview, lane), task)
    }

    /// Whether the clip has a preview or a current frame.
    pub open spec fn has_slot(self, preview: bool, clip_key: Seq<char>) -> bool {
        self.lane(preview).slots.contains_key(clip_key)
    }

    /// The handle of the preview or the current frame of a clip.
    pub open spec fn slot(self, preview: bool, clip_key: Seq<char>) -> VideoTextureHandle {
        self.lane(preview).slots[clip_key]
    }

    /// Whether each frame has a texture of its own, each texture belongs to a frame, and handles
    /// are left for more.
    pub open spec fn sound(self) -> bool {
        &&& self.textures.one_generation()
        &&& self.textures.slots_left()
        &&& forall|preview: bool, clip_key: Seq<char>| #[trigger]
            self.has_slot(preview, clip_key) ==> self.textures.textures.contains_key(
                self.slot(preview, clip_key),
            )
        &&& forall|a: bool, a_key: Seq<char>, b: bool, b_key: Seq<char>|
            #[trigger] self.has_slot(a, a_key) && #[trigger] self.has_slot(b, b_key) && self.slot(
                a,
                a_key,
            ) == self.slot(b, b_key) ==> a == b && a_key == b_key
        &&& forall|handle: VideoTextureHandle| #[trigger]
            self.textures.textures.contains_key(handle) ==> exists|
                preview: bool,
                clip_key: Seq<char>,
            |
                #[trigger] self.has_slot(preview, clip_key) && self.slot(preview, clip_key)
                    == handle
    }

    /// The backend with the clips of `clip_keys` only.
    pub open spec fn retained(self, clip_keys: Seq<String>) -> BackendView {
        BackendView {
            textures: RegistryView {
                textures: self.textures.textures.remove_keys(
                    self.preview.evicted_handles(clip_keys),
                ).remove_keys(self.current.evicted_handles(clip_keys)),
                ..self.textures
            },
            preview: self.preview.retained(clip_keys),
            current: self.current.retained(clip_keys),
            ..self
        }
    }
}

impl VulkanBackend {
    /// Whether there is one preview, one current frame and one request for each of a clip.
    pub closed spec fn wf(&self) -> bool {
        self.preview.wf() && self.current.wf()
    }

    /// The handle that is chosen as the preview or the current frame of `clip`. All queries of one
    /// backend go by the same choice.
    pub closed spec fn chosen(&self, preview: bool, clip: VideoClip) -> Option<VideoTextureHandle> {
        if preview {
            self.preview.chosen(clip)
        } else {
            self.current.chosen(clip)
        }
    }

    /// The preview or the current frame of `clip`.
    pub open spec fn shown(&self, preview: bool, clip: VideoClip) -> Option<
        (VideoTextureHandle, VideoFrameMetadata),
    > {
        if self@.config is None {
            None
        } else {
            chosen_texture(self.chosen(preview, clip), self@.textures)
        }
    }

    /// The handle that is chosen serves the clip: it is that of the clip's own key, where there is
    /// one. None is chosen only where none serves the clip.
    pub proof fn chosen_handle_serves(&self, preview: bool, clip: VideoClip)
        requires
            self.wf(),
        ensures
            match self.chosen(preview, clip) {
                Some(handle) => self@.lane(preview).slot_serves(clip, handle),
                None => self@.lane(preview).no_slot_serves(clip),
            },
            self@.frame_answers(preview, clip, self.shown(preview, clip)),
            self@.load_answers(
                preview,
                clip,
                self@.missing(preview, clip, self.shown(preview, clip)),
            ),
    {
        if preview {
            self.preview.lemma_chosen_serves(clip);
        } else {
            self.current.lemma_chosen_serves(clip);
        }
        assert(self@.frame_answers(preview, clip, self.shown(preview, clip)));
    }

    fn empty(
        config: Option<VulkanRuntimeConfig>,
        producer_kind: VulkanFrameProducerKind,
        plan: ProducerPlan,
    ) -> (backend: Self)
        ensures
            backend.wf(),
            backend@ == BackendView::empty(config, producer_kind, plan),
    {
        VulkanBackend {
            config,
            producer_kind,
            plan,
            textures: VideoTextureRegistry::new(),
            preview: FrameLane::new(),
            current: FrameLane::new(),
        }
    }

    /// A backend without a device, which serves no frames.
    pub fn new() -> (backend: Self)
        ensures
            backend.wf(),
            backend@ == BackendView::empty(
                None,
                VulkanFrameProducerKind::CpuUpload,
                ProducerPlan::CpuUpload,
            ),
    {
        VulkanBackend::empty(None, VulkanFrameProducerKind::CpuUpload, ProducerPlan::CpuUpload)
    }

    /// A backend whose frames are decoded in software.
    pub fn with_config(config: VulkanRuntimeConfig) -> (backend: Self)
        ensures
            backend.wf(),
            backend@ == BackendView::empty(
                Some(config),
                VulkanFrameProducerKind::CpuUpload,
                ProducerPlan::CpuUpload,
            ),
    {
        VulkanBackend::empty(
            Some(config),
            VulkanFrameProducerKind::CpuUpload,
            ProducerPlan::CpuUpload,
        )
    }

    /// A backend whose frames are produced as `producer_kind` says. For the default kind the
    /// setting `producer_setting` decides.
    pub fn with_producer_kind(
        config: VulkanRuntimeConfig,
        producer_kind: VulkanFrameProducerKind,
        producer_setting: Option<&str>,
    ) -> (backend: Self)
        ensures
            backend.wf(),
            backend@ == BackendView::empty(
                Some(config),
                producer_kind,
                producer_kind.plan(setting_view(producer_setting)),
            ),
    {
        let plan: ProducerPlan = producer_kind.producer_plan(producer_setting);
        VulkanBackend::empty(Some(config), producer_kind, plan)
    }

    /// A backend whose frames are produced as `plan` says.
    pub fn with_frame_producer(config: VulkanRuntimeConfig, plan: ProducerPlan) -> (backend: Self)
        ensures
            backend.wf(),
            backend@ == BackendView::empty(
                Some(config),
                VulkanFrameProducerKind::CpuUpload,
                plan,
            ),
    {
        VulkanBackend::empty(Some(config), VulkanFrameProducerKind::CpuUpload, plan)
    }

    /// Whether there is a device.
    pub fn is_available(&self) -> (available: bool)
        ensures
            available == (self@.config is Some),
    {
        self.config.is_some()
    }

    /// The device and the queues, where there are any.
    pub fn config(&self) -> (config: Option<&VulkanRuntimeConfig>)
        ensures
            match config {
                Some(config) => self@.config == Some(*config),
                None => self@.config is None,
            },
    {
        self.config.as_ref()
    }

    /// The textures of all frames.
    pub fn texture_registry(&self) -> (textures: &VideoTextureRegistry)
        ensures
            textures@ == self@.textures,
    {
        &self.textures
    }

    /// How frames are to be produced.
    pub fn producer_kind(&self) -> (producer_kind: VulkanFrameProducerKind)
        ensures
            producer_kind == self@.producer_kind,
    {
        self.producer_kind
    }

    /// How frames are produced.
    pub fn plan(&self) -> (plan: ProducerPlan)
        ensures
            plan == self@.plan,
    {
        self.plan
    }

    /// The name of this backend among all.
    pub fn kind(&self) -> (kind: VideoRuntimeBackend)
        ensures
            kind == VideoRuntimeBackend::Vulkan,
    {
        VideoRuntimeBackend::Vulkan
    }

    fn frame_ref_from_registry<'a>(&self, lane: &FrameLane, clip: &'a VideoClip) -> (frame: Option<
        VideoFrameRef<'a>,
    >)
        requires
            lane.wf(),
        ensures
            frame is Some ==> frame->0 is Gpu,
            texture_of(frame) == chosen_texture(lane.chosen(*clip), self@.textures),
            lane@.frame_answers(self@.textures, *clip, texture_of(frame)),
    {
        match lane.frame_of(&self.textures, clip) {
            Some((handle, metadata)) => Some(VideoFrameRef::Gpu { handle, metadata }),
            None => None,
        }
    }

    /// The preview of `clip`.
    pub fn preview_frame<'a>(&self, clip: &'a VideoClip) -> (frame: Option<VideoFrameRef<'a>>)
        requires
            self.wf(),
        ensures
            frame is Some ==> frame->0 is Gpu,
            texture_of(frame) == self.shown(true, *clip),
            self@.frame_answers(true, *clip, texture_of(frame)),
    {
        if self.config.is_none() {
            return None;
        }
        self.frame_ref_from_registry(&self.preview, clip)
    }

    /// The current frame of `clip`.
    pub fn current_frame<'a>(&self, clip: &'a VideoClip) -> (frame: Option<VideoFrameRef<'a>>)
        requires
            self.wf(),
        ensures
            frame is Some ==> frame->0 is Gpu,
            texture_of(frame) == self.shown(false, *clip),
            self@.frame_answers(false, *clip, texture_of(frame)),
    {
        if self.config.is_none() {
            return None;
        }
        self.frame_ref_from_registry(&self.current, clip)
    }

    /// Why the preview of `clip` is missing.
    pub fn preview_load_state(&self, clip: &VideoClip) -> (state: Option<VideoFrameLoadState>)
        requires
            self.wf(),
        ensures
            load_view(state) == self@.missing(true, *clip, self.shown(true, *clip)),
            self@.load_answers(true, *clip, load_view(state)),
    {
        let frame: Option<VideoFrameRef<'_>> = self.preview_frame(clip);
        assert(self@.frame_answers(true, *clip, texture_of(frame)));
        if self.config.is_none() || frame.is_some() {
            return None;
        }
        let key: String = clip_key(clip);
        self.preview.load_state(&key)
    }

    /// Why the current frame of `clip` is missing.
    pub fn current_load_state(&self, clip: &VideoClip) -> (state: Option<VideoFrameLoadState>)
        requires
            self.wf(),
        ensures
            load_view(state) == self@.missing(false, *clip, self.shown(false, *clip)),
            self@.load_answers(false, *clip, load_view(state)),
    {
        let frame: Option<VideoFrameRef<'_>> = self.current_frame(clip);
        assert(self@.frame_answers(false, *clip, texture_of(frame)));
        if self.config.is_none() || frame.is_some() {
            return None;
        }
        let key: String = clip_key(clip);
        match self.current.load_state(&key) {
            Some(state) => Some(state),
            None => self.preview.load_state(&key),
        }
    }

    /// Asks for the preview of `clip`, and gives the decode to run for it. While a decode of the
    /// clip runs there is none: the end of that decode then leads to the next. `sample_rate` is
    /// the bits of the float.
    pub fn request_preview_frame(&mut self, clip: VideoClipData, sample_rate: u64) -> (task: Option<
        DecodeTask,
    >)
        requires
            old(self).wf(),
        ensures
            final(self).wf(),
            (final(self)@, task_view(task)) == old(self)@.requested(
                true,
                clip,
                sample_rate,
                clip.start,
            ),
    {
        if self.config.is_none() {
            return None;
        }
        let sample: usize = clip.start;
        self.preview.queue_request(true, clip, sample_rate, sample)
    }

    /// Asks for the frame of `clip` at `sample`, and gives the decode to run for it, as for a
    /// preview.
    pub fn request_current_frame(
        &mut self,
        clip: VideoClipData,
        sample_rate: u64,
        sample: usize,
    ) -> (task: Option<DecodeTask>)
        requires
            old(self).wf(),
        ensures
            final(self).wf(),
            (final(self)@, task_view(task)) == old(self)@.requested(
                false,
                clip,
                sample_rate,
                sample,
            ),
    {
        if self.config.is_none() {
            return None;
        }
        self.current.queue_request(false, clip, sample_rate, sample)
    }

    /// Takes over what the decode `task` came to, while it is the one that runs for its clip.
    /// Tells whether it was.
    pub fn commit_decode(&mut self, task: &DecodeTask, result: Result<ProducedFrame, String>) -> (
        counted: bool)
        requires
            old(self).wf(),
        ensures
            final(self).wf(),
            counted == old(self)@.lane(task.preview).decoding_generation(
                task.clip_key@,
                task.generation,
            ),
            final(self)@ == old(self)@.committed(
                task.preview,
                task.clip_key@,
                task.generation,
                result,
            ),
    {
        let clip_key: String = task.clip_key.clone();
        if task.preview {
            self.preview.commit(&mut self.textures, clip_key, task.generation, result)
        } else {
            self.current.commit(&mut self.textures, clip_key, task.generation, result)
        }
    }

    /// Takes note that a decode is over, and gives the decode to run next for the clip.
    pub fn finish_decode(&mut self, clip_key: String, preview: bool, generation: u64) -> (task:
        Option<DecodeTask>)
        requires
            old(self).wf(),
        ensures
            final(self).wf(),
            (final(self)@, task_view(task)) == old(self)@.finished(preview, clip_key@, generation),
    {
        if preview {
            self.preview.finish(clip_key, preview, generation)
        } else {
            self.current.finish(clip_key, preview, generation)
        }
    }

    /// Drops the frames and the requests of all clips but those of `clip_keys`.
    pub fn retain_clip_keys(&mut self, clip_keys: &Vec<String>)
        requires
            old(self).wf(),
        ensures
            final(self).wf(),
            final(self)@ == old(self)@.retained(clip_keys@),
    {
        self.preview.retain_clip_keys(&mut self.textures, clip_keys);
        self.current.retain_clip_keys(&mut self.textures, clip_keys);
    }
}

/// A new backend is sound, and every operation keeps it so; to take the result of a decode over
/// as long as there is a handle to give out after it.
pub proof fn operations_keep_backend_sound(
    backend: BackendView,
    preview: bool,
    clip: VideoClipData,
    sample_rate: u64,
    sample: usize,
    clip_key: Seq<char>,
    generation: u64,
    result: Result<ProducedFrame, String>,
    clip_keys: Seq<String>,
)
    requires
        backend.sound(),
    ensures
        BackendView::empty(backend.config, backend.producer_kind, backend.plan).sound(),
        backend.requested(preview, clip, sample_rate, sample).0.sound(),
        backend.finished(preview, clip_key, generation).0.sound(),
        backend.textures.next_slot < u32::MAX ==> backend.committed(
            preview,
            clip_key,
            generation,
            result,
        ).sound(),
        backend.retained(clip_keys).sound(),
{
    let requested = backend.requested(preview, clip, sample_rate, sample).0;
    lemma_same_slots_sound(backend, requested);
    let finished = backend.finished(preview, clip_key, generation).0;
    lemma_same_slots_sound(backend, finished);
    if backend.textures.next_slot < u32::MAX {
        lemma_commit_sound(backend, preview, clip_key, generation, result);
    }
    lemma_retain_sound(backend, clip_keys);
}

proof fn lemma_same_slots_sound(before: BackendView, after: BackendView)
    requires
        before.sound(),
        after.textures == before.textures,
        after.preview.slots == before.preview.slots,
        after.current.slots == before.current.slots,
    ensures
        after.sound(),
{
    assert forall|preview: bool, clip_key: Seq<char>| #[trigger]
        after.has_slot(preview, clip_key) == before.has_slot(preview, clip_key) && after.slot(
            preview,
            clip_key,
        ) == before.slot(preview, clip_key) by {}
    assert forall|handle: VideoTextureHandle| #[trigger]
        after.textures.textures.contains_key(handle) implies exists|
        preview: bool,
        clip_key: Seq<char>,
    |
        #[trigger] after.has_slot(preview, clip_key) && after.slot(preview, clip_key) == handle by {
        let (preview, clip_key) = choose|preview: bool, clip_key: Seq<char>|
            #[trigger] before.has_slot(preview, clip_key) && before.slot(preview, clip_key)
                == handle;
        assert(after.has_slot(preview, clip_key));
    }
}

proof fn lemma_commit_sound(
    before: BackendView,
    preview: bool,
    clip_key: Seq<char>,
    generation: u64,
    result: Result<ProducedFrame, String>,
)
    requires
        before.sound(),
        before.textures.next_slot < u32::MAX,
    ensures
        before.committed(preview, clip_key, generation, result).sound(),
{
    let after = before.committed(preview, clip_key, generation, result);
    if after.preview.slots == before.preview.slots && after.current.slots == before.current.slots {
        if after.textures != before.textures {
            assert(before.has_slot(preview, clip_key));
            assert(after.textures.textures.dom() =~= before.textures.textures.dom());
            assert forall|p: bool, k: Seq<char>| #[trigger]
                after.has_slot(p, k) == before.has_slot(p, k) && after.slot(p, k) == before.slot(
                    p,
                    k,
                ) by {}
            assert forall|handle: VideoTextureHandle| #[trigger]
                after.textures.textures.contains_key(handle) implies exists|
                p: bool,
                k: Seq<char>,
            |
                #[trigger] after.has_slot(p, k) && after.slot(p, k) == handle by {
                let (p, k) = choose|p: bool, k: Seq<char>|
                    #[trigger] before.has_slot(p, k) && before.slot(p, k) == handle;
                assert(after.has_slot(p, k));
            }
        } else {
            lemma_same_slots_sound(before, after);
        }
    } else {
        let fresh = before.textures.next_handle();
        if before.has_slot(preview, clip_key) {
            assert(before.textures.textures.contains_key(before.slot(preview, clip_key)));
            assert(false);
        }
        assert(after.has_slot(preview, clip_key) && after.slot(preview, clip_key) == fresh);
        assert forall|p: bool, k: Seq<char>|
            !(p == preview && k == clip_key) implies #[trigger] after.has_slot(p, k)
            == before.has_slot(p, k) && (before.has_slot(p, k) ==> after.slot(p, k) == before.slot(
            p,
            k,
        ) && after.slot(p, k) != fresh) by {}
        assert forall|handle: VideoTextureHandle| #[trigger]
            after.textures.textures.contains_key(handle) implies exists|p: bool, k: Seq<char>|
            #[trigger] after.has_slot(p, k) && after.slot(p, k) == handle by {
            if handle == fresh {
                assert(after.has_slot(preview, clip_key));
            } else {
                assert(before.textures.textures.contains_key(handle));
                let (p, k) = choose|p: bool, k: Seq<char>|
                    #[trigger] before.has_slot(p, k) && before.slot(p, k) == handle;
                assert(after.has_slot(p, k));
            }
        }
    }
}

proof fn lemma_retain_sound(before: BackendView, clip_keys: Seq<String>)
    requires
        before.sound(),
    ensures
        before.retained(clip_keys).sound(),
        forall|preview: bool, clip_key: Seq<char>| #[trigger]
            before.retained(clip_keys).has_slot(preview, clip_key) ==> before.retained(
                clip_keys,
            ).textures.textures[before.slot(preview, clip_key)]
                == before.textures.textures[before.slot(preview, clip_key)],
{
    let after = before.retained(clip_keys);
    let evicted_previews = before.preview.evicted_handles(clip_keys);
    let evicted_currents = before.current.evicted_handles(clip_keys);
    assert forall|p: bool, k: Seq<char>| #[trigger] after.has_slot(p, k) implies before.has_slot(
        p,
        k,
    ) && holds_key(clip_keys, k) && after.slot(p, k) == before.slot(p, k)
        && !evicted_previews.contains(after.slot(p, k)) && !evicted_currents.contains(
        after.slot(p, k),
    ) by {
        let handle = before.slot(p, k);
        assert(before.has_slot(p, k));
        if evicted_previews.contains(handle) {
            let other = choose|other: Seq<char>|
                #[trigger] before.preview.slots.contains_key(other) && !holds_key(clip_keys, other)
                    && before.preview.slots[other] == handle;
            assert(before.has_slot(true, other));
        }
        if evicted_currents.contains(handle) {
            let other = choose|other: Seq<char>|
                #[trigger] before.current.slots.contains_key(other) && !holds_key(clip_keys, other)
                    && before.current.slots[other] == handle;
            assert(before.has_slot(false, other));
        }
    }
    assert forall|handle: VideoTextureHandle| #[trigger]
        after.textures.textures.contains_key(handle) implies exists|p: bool, k: Seq<char>|
        #[trigger] after.has_slot(p, k) && after.slot(p, k) == handle by {
        let (p, k) = choose|p: bool, k: Seq<char>|
            #[trigger] before.has_slot(p, k) && before.slot(p, k) == handle;
        if !holds_key(clip_keys, k) {
            assert(before.lane(p).slots.contains_key(k));
            assert(before.lane(p).evicted_handles(clip_keys).contains(handle));
            assert(false);
        }
        assert(after.has_slot(p, k));
    }
}

/// In a sound backend a clip has a frame exactly where some frame serves it, and a reason why it
/// has none only where there is none. Its own frame comes before all others.
pub proof fn sound_backend_answers(
    backend: BackendView,
    preview: bool,
    clip: VideoClip,
    found: Option<(VideoTextureHandle, VideoFrameMetadata)>,
    state: Option<LoadView>,
)
    requires
        backend.sound(),
        backend.config is Some,
        backend.frame_answers(preview, clip, found),
        backend.load_answers(preview, clip, state),
    ensures
        found is None <==> backend.lane(preview).no_slot_serves(clip),
        found is Some ==> state is None,
        found is None ==> state == backend.told(preview, clip_text(clip)),
        backend.has_slot(preview, clip_text(clip)) ==> found == Some(
            (
                backend.slot(preview, clip_text(clip)),
                backend.textures.textures[backend.slot(preview, clip_text(clip))].metadata,
            ),
        ),
{
    let lane = backend.lane(preview);
    assert forall|handle: VideoTextureHandle| #[trigger]
        lane.slot_serves(clip, handle) implies backend.textures.textures.contains_key(handle) by {
        if lane.slots.contains_key(clip_text(clip)) {
            assert(backend.has_slot(preview, clip_text(clip)));
        } else {
            let key = choose|key: Seq<char>|
                #[trigger] lane.slots.contains_key(key) && key_serves_clip(
                    key,
                    clip,
                ) && lane.slots[key] == handle;
            assert(backend.has_slot(preview, key));
        }
    }
    if let Some((handle, _)) = found {
        assert(lane.slot_serves(clip, handle));
    }
    let other = choose|other: Option<(VideoTextureHandle, VideoFrameMetadata)>|
        #[trigger] backend.frame_answers(preview, clip, other) && state == backend.missing(
            preview,
            clip,
            other,
        );
    if let Some((handle, _)) = other {
        assert(lane.slot_serves(clip, handle));
    }
    if backend.has_slot(preview, clip_text(clip)) {
        assert(lane.slot_serves(clip, lane.slots[clip_text(clip)]));
    }
}

/// A decoded frame becomes the frame of its clip, with all that is known of it. The frames of all
/// other clips, and those of the other kind, stay as they are.
pub proof fn decoded_frame_is_kept(
    backend: BackendView,
    preview: bool,
    clip_key: Seq<char>,
    generation: u64,
    produced: ProducedFrame,
)
    requires
        backend.sound(),
        backend.lane(preview).decoding_generation(clip_key, generation),
        !produced.frame@.is_blank(),
    ensures
        ({
            let after = backend.committed(preview, clip_key, generation, Ok(produced));
            let texture = after.textures.textures[after.slot(preview, clip_key)];
            &&& after.has_slot(preview, clip_key)
            &&& after.textures.textures.contains_key(after.slot(preview, clip_key))
            &&& texture.metadata == produced.frame@.metadata()
            &&& texture.source == texture_source(produced)
            &&& texture.producer_label == produced.producer_label
            &&& texture.fallback_reason == produced.fallback_reason
            &&& after.preview.requests == backend.preview.requests
            &&& after.current.requests == backend.current.requests
            &&& forall|p: bool, k: Seq<char>|
                p != preview || k != clip_key ==> {
                    &&& #[trigger] after.has_slot(p, k) == backend.has_slot(p, k)
                    &&& after.has_slot(p, k) ==> {
                        &&& after.slot(p, k) == backend.slot(p, k)
                        &&& after.textures.textures[after.slot(p, k)]
                            == backend.textures.textures[backend.slot(p, k)]
                    }
                }
        }),
{
    let after = backend.committed(preview, clip_key, generation, Ok(produced));
    if backend.has_slot(preview, clip_key) {
        assert(backend.textures.textures.contains_key(backend.slot(preview, clip_key)));
    }
    assert forall|p: bool, k: Seq<char>| p != preview || k != clip_key implies {
        &&& #[trigger] after.has_slot(p, k) == backend.has_slot(p, k)
        &&& after.has_slot(p, k) ==> {
            &&& after.slot(p, k) == backend.slot(p, k)
            &&& after.textures.textures[after.slot(p, k)] == backend.textures.textures[backend.slot(
                p,
                k,
            )]
        }
    } by {
        if backend.has_slot(p, k) {
            assert(backend.textures.textures.contains_key(backend.slot(p, k)));
            if backend.has_slot(preview, clip_key) {
                assert(backend.slot(p, k) != backend.slot(preview, clip_key));
            } else {
                assert(backend.slot(p, k) != backend.textures.next_handle());
            }
        }
    }
}

/// Once a frame of a clip is decoded, the clip is shown with it, and nothing speaks of a missing
/// frame.
pub proof fn decoded_frame_is_shown(
    backend: BackendView,
    preview: bool,
    clip: VideoClip,
    generation: u64,
    produced: ProducedFrame,
    found: Option<(VideoTextureHandle, VideoFrameMetadata)>,
    state: Option<LoadView>,
)
    requires
        backend.sound(),
        backend.config is Some,
        backend.lane(preview).decoding_generation(clip_text(clip), generation),
        !produced.frame@.is_blank(),
    ensures
        ({
            let after = backend.committed(preview, clip_text(clip), generation, Ok(produced));
            let slot = after.slot(preview, clip_text(clip));
            &&& after.frame_answers(preview, clip, found) ==> found == Some(
                (slot, produced.frame@.metadata()),
            )
            &&& after.load_answers(preview, clip, state) ==> state is None
            &&& after.textures.textures[slot].source == texture_source(produced)
        }),
{
    decoded_frame_is_kept(backend, preview, clip_text(clip), generation, produced);
    let after = backend.committed(preview, clip_text(clip), generation, Ok(produced));
    let lane = after.lane(preview);
    let slot = after.slot(preview, clip_text(clip));
    assert(lane.slots.contains_key(clip_text(clip)));
    assert(lane.slot_serves(clip, slot));
    assert forall|other: Option<(VideoTextureHandle, VideoFrameMetadata)>| #[trigger]
        after.frame_answers(preview, clip, other) implies other == Some(
        (slot, produced.frame@.metadata()),
    ) by {}
}

/// A decode that does not run any more changes nothing: neither its result nor its end does.
pub proof fn stale_decode_changes_nothing(
    backend: BackendView,
    preview: bool,
    clip_key: Seq<char>,
    generation: u64,
    result: Result<ProducedFrame, String>,
)
    requires
        !backend.lane(preview).decoding_generation(clip_key, generation),
    ensures
        backend.committed(preview, clip_key, generation, result) == backend,
        backend.finished(preview, clip_key, generation) == (backend, None::<TaskView>),
{
}

/// While a decode of a clip runs, a request starts no other. Its end starts one, with what was
/// asked for last, and the end of that one leaves the clip idle, as long as the numbers of the
/// requests do not come round while it runs. The numbers of two requests in a row differ.
pub proof fn running_decode_is_followed_by_one_more(
    backend: BackendView,
    preview: bool,
    clip: VideoClipData,
    sample_rate: u64,
    sample: usize,
    running: u64,
)
    requires
        backend.config is Some,
        backend.lane(preview).decoding_generation(clip_data_text(clip), running),
    ensures
        ({
            let clip_key = clip_data_text(clip);
            let (asked, task) = backend.requested(preview, clip, sample_rate, sample);
            let newest = asked.lane(preview).requests[clip_key].generation;
            let (followed, follower) = asked.finished(preview, clip_key, running);
            let (idle, last) = followed.finished(preview, clip_key, newest);
            &&& task is None
            &&& newest != backend.lane(preview).requests[clip_key].generation
            &&& asked.lane(preview).decoding_generation(clip_key, running)
            &&& newest != running ==> {
                &&& follower == Some(
                    TaskView { clip_key, clip, sample_rate, sample, generation: newest, preview },
                )
                &&& followed.lane(preview).decoding_generation(clip_key, newest)
                &&& last is None
                &&& !idle.lane(preview).decoding(clip_key)
            }
        }),
{
}

/// A clip is left idle only by the end of the decode of its last request. A clip that is idle
/// starts a decode on the next request, with what was asked for.
pub proof fn idle_clip_has_no_request_left(
    backend: BackendView,
    preview: bool,
    clip: VideoClipData,
    sample_rate: u64,
    sample: usize,
    generation: u64,
)
    requires
        backend.config is Some,
    ensures
        ({
            let clip_key = clip_data_text(clip);
            let (after, follower) = backend.finished(preview, clip_key, generation);
            backend.lane(preview).decoding(clip_key) && !after.lane(preview).decoding(clip_key) ==> {
                &&& backend.lane(preview).requests[clip_key].generation == generation
                &&& follower is None
            }
        }),
        ({
            let clip_key = clip_data_text(clip);
            let (after, task) = backend.requested(preview, clip, sample_rate, sample);
            !backend.lane(preview).decoding(clip_key) ==> {
                &&& task is Some
                &&& task->0.clip_key == clip_key
                &&& task->0.clip == clip
                &&& task->0.sample_rate == sample_rate
                &&& task->0.sample == sample
                &&& task->0.preview == preview
                &&& after.lane(preview).decoding_generation(clip_key, task->0.generation)
            }
        }),
{
}

/// Where the decode of the last request fails, the reason is told once it is over, until the
/// clip is asked for again. A frame without pixels is a failure too.
pub proof fn failure_is_told_until_next_request(
    backend: BackendView,
    preview: bool,
    clip: VideoClipData,
    sample_rate: u64,
    sample: usize,
    generation: u64,
    result: Result<ProducedFrame, String>,
)
    requires
        backend.config is Some,
        backend.lane(preview).decoding_generation(clip_data_text(clip), generation),
        backend.lane(preview).requests[clip_data_text(clip)].generation == generation,
        result is Err || result->Ok_0.frame@.is_blank(),
    ensures
        ({
            let clip_key = clip_data_text(clip);
            let failed = backend.committed(preview, clip_key, generation, result);
            let idle = failed.finished(preview, clip_key, generation).0;
            let asked = idle.requested(preview, clip, sample_rate, sample).0;
            &&& backend.told(preview, clip_key) == Some(LoadView::Loading)
            &&& failed.told(preview, clip_key) == Some(LoadView::Loading)
            &&& idle.told(preview, clip_key) == Some(
                LoadView::Failed(
                    match result {
                        Ok(_) => "decoded video frame was empty"@,
                        Err(reason) => reason@,
                    },
                ),
            )
            &&& asked.told(preview, clip_key) == Some(LoadView::Loading)
            &&& failed.textures == backend.textures
            &&& failed.preview.slots == backend.preview.slots
            &&& failed.current.slots == backend.current.slots
        }),
{
}

/// The clips that are kept keep their frames and their requests. Of the others nothing stays: no
/// frame, no request and no texture, and a decode of theirs that still runs changes nothing.
pub proof fn retained_clips_stay_as_they_are(
    backend: BackendView,
    clip_keys: Seq<String>,
    preview: bool,
    clip_key: Seq<char>,
    generation: u64,
    result: Result<ProducedFrame, String>,
)
    requires
        backend.sound(),
    ensures
        ({
            let after = backend.retained(clip_keys);
            if holds_key(clip_keys, clip_key) {
                &&& after.has_slot(preview, clip_key) == backend.has_slot(preview, clip_key)
                &&& after.has_slot(preview, clip_key) ==> {
                    &&& after.slot(preview, clip_key) == backend.slot(preview, clip_key)
                    &&& after.textures.textures.contains_key(after.slot(preview, clip_key))
                    &&& after.textures.textures[after.slot(preview, clip_key)]
                        == backend.textures.textures[backend.slot(preview, clip_key)]
                }
                &&& after.lane(preview).requests.contains_key(clip_key) == backend.lane(
                    preview,
                ).requests.contains_key(clip_key)
                &&& after.lane(preview).requests.contains_key(clip_key) ==> after.lane(
                    preview,
                ).requests[clip_key] == backend.lane(preview).requests[clip_key]
            } else {
                &&& !after.has_slot(preview, clip_key)
                &&& backend.has_slot(preview, clip_key) ==> !after.textures.textures.contains_key(
                    backend.slot(preview, clip_key),
                )
                &&& !after.lane(preview).requests.contains_key(clip_key)
                &&& after.committed(preview, clip_key, generation, result) == after
                &&& after.finished(preview, clip_key, generation) == (after, None::<TaskView>)
            }
        }),
{
    lemma_retain_sound(backend, clip_keys);
    let after = backend.retained(clip_keys);
    assert(after.sound());
    if holds_key(clip_keys, clip_key) {
        if backend.has_slot(preview, clip_key) {
            assert(after.has_slot(preview, clip_key));
        }
    } else if backend.has_slot(preview, clip_key) {
        assert(backend.lane(preview).slots.contains_key(clip_key));
        assert(backend.lane(preview).evicted_handles(clip_keys).contains(
            backend.slot(preview, clip_key),
        ));
    }
}

/// Each kind of producer has its own name to be shown by.
pub proof fn kinds_have_names(kind: VulkanFrameProducerKind)
    ensures
        kind is Auto ==> kind.shown_text() == "Auto"@,
        kind is CpuUpload ==> kind.shown_text() == "CPU Upload"@,
        kind is Hardware ==> kind.shown_text() == "Hardware"@,
{
}

/// A setting that names neither kind, up to white space and case, leaves the default, and so does
/// none. The default is produced in hardware, unless the setting names the upload; else the kind
/// alone decides.
pub proof fn setting_names_kind(name: Seq<char>, setting: Option<Seq<char>>)
    ensures
        producer_kind_named(None) is Auto,
        producer_kind_named(Some(name)) is Hardware <==> normalized(name) == "hardware"@,
        producer_kind_named(Some(name)) is CpuUpload <==> normalized(name) == "cpu-upload"@,
        VulkanFrameProducerKind::CpuUpload.plan(setting) == ProducerPlan::CpuUpload,
        VulkanFrameProducerKind::Hardware.plan(setting) == ProducerPlan::HardwarePreferred,
        VulkanFrameProducerKind::Auto.plan(None) == ProducerPlan::HardwarePreferred,
        VulkanFrameProducerKind::Auto.plan(Some(name)) == ProducerPlan::CpuUpload <==> normalized(
            name,
        ) == "cpu-upload"@,
{
    reveal_strlit("hardware");
    reveal_strlit("cpu-upload");
    assert("hardware"@.len() == 8 && "cpu-upload"@.len() == 10);
}

/// Previews and current frames are kept apart: what changes of one kind leaves the other, the
/// device and the plan alone.
pub proof fn kinds_of_frames_are_kept_apart(
    backend: BackendView,
    preview: bool,
    clip: VideoClipData,
    sample_rate: u64,
    sample: usize,
    clip_key: Seq<char>,
    generation: u64,
    result: Result<ProducedFrame, String>,
)
    ensures
        backend.lane(true) == backend.preview,
        backend.lane(false) == backend.current,
        ({
            let after = backend.requested(preview, clip, sample_rate, sample).0;
            &&& after.lane(!preview) == backend.lane(!preview)
            &&& after.textures == backend.textures
            &&& after.config == backend.config
            &&& after.producer_kind == backend.producer_kind
            &&& after.plan == backend.plan
        }),
        ({
            let after = backend.finished(preview, clip_key, generation).0;
            &&& after.lane(!preview) == backend.lane(!preview)
            &&& after.textures == backend.textures
            &&& after.config == backend.config
            &&& after.producer_kind == backend.producer_kind
            &&& after.plan == backend.plan
        }),
        ({
            let after = backend.committed(preview, clip_key, generation, result);
            &&& after.lane(!preview) == backend.lane(!preview)
            &&& after.config == backend.config
            &&& after.producer_kind == backend.producer_kind
            &&& after.plan == backend.plan
        }),
{
}

/// A backend without a device takes no request, finds no frame and tells nothing; a backend with one
/// hands every request on to the frames of its kind, and starts a decode exactly where none runs.
pub proof fn backend_needs_device(
    backend: BackendView,
    preview: bool,
    clip: VideoClipData,
    sample_rate: u64,
    sample: usize,
    shown: VideoClip,
    found: Option<(VideoTextureHandle, VideoFrameMetadata)>,
)
    ensures
        backend.config is None ==> {
            &&& backend.requested(preview, clip, sample_rate, sample) == (
                backend,
                None::<TaskView>,
            )
            &&& backend.told(preview, clip_text(shown)) is None
            &&& backend.frame_answers(preview, shown, found) <==> found is None
        },
        backend.config is Some ==> {
            let (after, task) = backend.requested(preview, clip, sample_rate, sample);
            let clip_key = clip_data_text(clip);
            let known = backend.lane(preview).requests.dom().contains(clip_key);
            let before = backend.lane(preview).requests[clip_key];
            &&& after.lane(preview) == backend.lane(preview).queued(
                clip_key,
                clip,
                sample_rate,
                sample,
            )
            &&& task is Some <==> !known || before.inflight_generation is None
            &&& task matches Some(task) ==> {
                &&& task.clip_key == clip_key
                &&& task.clip == clip
                &&& task.sample_rate == sample_rate
                &&& task.sample == sample
                &&& task.preview == preview
                &&& task.generation == after.lane(preview).requests[clip_key].generation
            }
        },
{
}

/// The result and the end of a decode go to the frames of its kind.
pub proof fn decode_concerns_frames_of_its_kind(
    backend: BackendView,
    preview: bool,
    clip_key: Seq<char>,
    generation: u64,
    result: Result<ProducedFrame, String>,
)
    ensures
        ({
            let after = backend.committed(preview, clip_key, generation, result);
            (after.textures, after.lane(preview)) == backend.lane(preview).committed(
                backend.textures,
                clip_key,
                generation,
                result,
            )
        }),
        ({
            let (after, task) = backend.finished(preview, clip_key, generation);
            (after.lane(preview), task) == backend.lane(preview).finished(
                clip_key,
                generation,
                preview,
            )
        }),
{
}

/// Of a missing preview its own request tells. Of a missing current frame its own request tells,
/// where it tells anything, and else that of the preview. Of a frame that is shown nothing is told.
pub proof fn missing_frame_is_told_by_requests(
    backend: BackendView,
    clip: VideoClip,
    found: (VideoTextureHandle, VideoFrameMetadata),
    preview: bool,
)
    requires
        backend.config is Some,
    ensures
        backend.told(true, clip_text(clip)) == backend.preview.load_state(clip_text(clip)),
        backend.current.load_state(clip_text(clip)) is Some ==> backend.told(false, clip_text(clip))
            == backend.current.load_state(clip_text(clip)),
        backend.current.load_state(clip_text(clip)) is None ==> backend.told(false, clip_text(clip))
            == backend.preview.load_state(clip_text(clip)),
        backend.missing(preview, clip, Some(found)) is None,
        backend.missing(preview, clip, None) == backend.told(preview, clip_text(clip)),
{
}

/// A texture that is found for a clip serves it and is found with its own size; nothing is found only
/// where no frame serves the clip, or one that does has lost its texture.
pub proof fn found_frame_serves_clip(
    backend: BackendView,
    preview: bool,
    clip: VideoClip,
    found: Option<(VideoTextureHandle, VideoFrameMetadata)>,
)
    requires
        backend.config is Some,
        backend.frame_answers(preview, clip, found),
    ensures
        found matches Some((handle, metadata)) ==> {
            &&& backend.lane(preview).slot_serves(clip, handle)
            &&& backend.textures.textures.dom().contains(handle)
            &&& metadata == backend.textures.textures[handle].metadata
        },
        found is None ==> backend.lane(preview).no_slot_serves(clip) || exists|
            handle: VideoTextureHandle,
        |
            #[trigger] backend.lane(preview).slot_serves(clip, handle)
                && !backend.textures.textures.contains_key(handle),
{
}

/// To keep some clips changes neither the device, the plan nor the numbers of the registry, and of
/// the textures takes those out that belonged to the other clips, and no others.
pub proof fn retained_backend_keeps_other_textures(
    backend: BackendView,
    clip_keys: Seq<String>,
    handle: VideoTextureHandle,
)
    ensures
        ({
            let after = backend.retained(clip_keys);
            &&& after.config == backend.config
            &&& after.producer_kind == backend.producer_kind
            &&& after.plan == backend.plan
            &&& after.textures.next_slot == backend.textures.next_slot
            &&& after.textures.generation == backend.textures.generation
            &&& after.textures.next_revision == backend.textures.next_revision
            &&& after.preview == backend.preview.retained(clip_keys)
            &&& after.current == backend.current.retained(clip_keys)
            &&& after.textures.textures.dom().contains(handle)
                <==> backend.textures.textures.dom().contains(handle)
                && !backend.preview.evicted_handles(clip_keys).contains(handle)
                && !backend.current.evicted_handles(clip_keys).contains(handle)
            &&& after.textures.textures.dom().contains(handle) ==> after.textures.textures[handle]
                == backend.textures.textures[handle]
        }),
{
}

/// A new backend has the device, the kind and the plan that it is given, and neither frames nor
/// requests.
pub proof fn new_backend_holds_nothing(
    config: Option<VulkanRuntimeConfig>,
    producer_kind: VulkanFrameProducerKind,
    plan: ProducerPlan,
    preview: bool,
    clip_key: Seq<char>,
    handle: VideoTextureHandle,
)
    ensures
        ({
            let backend = BackendView::empty(config, producer_kind, plan);
            &&& backend.config == config
            &&& backend.producer_kind == producer_kind
            &&& backend.plan == plan
            &&& !backend.lane(preview).slots.dom().contains(clip_key)
            &&& !backend.lane(preview).requests.dom().contains(clip_key)
            &&& !backend.textures.textures.dom().contains(handle)
        }),
{
}

/// A frame of the registry is its handle with its size; a frame in main memory is no texture.
pub proof fn texture_frames_are_textures(frame: VideoFrameRef<'_>)
    ensures
        texture_of(None) is None,
        frame is Cpu ==> texture_of(Some(frame)) is None,
        frame matches VideoFrameRef::Gpu { handle, metadata } ==> texture_of(Some(frame)) == Some(
            (handle, metadata),
        ),
{
}

} // verus!
