//! The video runtime: which backend serves the frames, and what it serves.
use crate::lane::DecodeTask;
use crate::presenter::{PresentableFrame, VideoPresenter};
use crate::producer::{ProducedFrame, ProducerPlan};
use crate::registry::VideoTextureRegistry;
use crate::text::copy_of;
use crate::types::{
    VideoClip, VideoClipData, VideoFrameDebugInfo, VideoFrameLoadState, VideoFrameRef,
    VideoRuntimeBackend, VideoRuntimeBackendPreference,
};
use crate::vulkan::{
    VulkanBackend, VulkanDeviceContext, VulkanFrameProducerKind, VulkanRuntimeConfig,
};
use vstd::prelude::*;
#[allow(unused_imports)]
use crate::lane::{load_view, task_view, TaskView};
#[allow(unused_imports)]
use crate::presenter::{pictures, presents};
#[allow(unused_imports)]
use crate::registry::next_u64;
#[allow(unused_imports)]
use crate::types::{preference_named, VideoFrameMetadata, VideoTextureHandle};
#[allow(unused_imports)]
use crate::vulkan::{producer_kind_named, setting_view, texture_of, BackendView};

verus! {

/// The answer of the runtime. The CPU backend is not part of it: where that one is active, the
/// caller asks its own.
#[derive(Debug)]
pub enum Served<T> {
    ByCpu,
    ByVulkan(T),
}

/// A decode for the Vulkan backend with the number `backend`.
#[derive(Debug)]
pub struct RuntimeTask {
    pub backend: u64,
    pub task: DecodeTask,
}

/// What an answer with a decode holds.
pub open spec fn served_task_view(served: Served<Option<RuntimeTask>>) -> Served<
    Option<(u64, TaskView)>,
> {
    match served {
        Served::ByCpu => Served::ByCpu,
        Served::ByVulkan(Some(task)) => Served::ByVulkan(Some((task.backend, task.task@))),
        Served::ByVulkan(None) => Served::ByVulkan(None),
    }
}

/// The backend that serves where `preference` is asked for.
pub open spec fn resolved(
    preference: VideoRuntimeBackendPreference,
    vulkan_available: bool,
) -> VideoRuntimeBackend {
    if preference != VideoRuntimeBackendPreference::Cpu && vulkan_available {
        VideoRuntimeBackend::Vulkan
    } else {
        VideoRuntimeBackend::Cpu
    }
}

/// The device that the toolkit renders with.
pub open spec fn is_default_config(config: VulkanRuntimeConfig) -> bool {
    &&& config.device.device_label@ == "iced-wgpu"@
    &&& config.device.queue_family_index == 0
    &&& config.decode_queue_family_index == 0
    &&& config.presentation_queue_family_index == 0
}

/// Serves the frames of the clips, by the CPU backend or by the Vulkan backend.
pub struct VideoRuntime {
    backend_preference: VideoRuntimeBackendPreference,
    active_backend: VideoRuntimeBackend,
    backend_number: u64,
    vulkan_backend: VulkanBackend,
    presenter: VideoPresenter,
}

/// What a [`VideoRuntime`] holds.
#[verifier::ext_equal]
pub struct RuntimeView {
    /// The backend that is asked for.
    pub preference: VideoRuntimeBackendPreference,
    /// The backend that serves.
    pub active: VideoRuntimeBackend,
    /// The number of the Vulkan backend, which is not the first where preferences were changed.
    pub backend_number: u64,
    /// The Vulkan backend.
    pub vulkan: BackendView,
}

impl View for VideoRuntime {
    type V = RuntimeView;

    closed spec fn view(&self) -> RuntimeView {
        RuntimeView {
            preference: self.backend_preference,
            active: self.active_backend,
            backend_number: self.backend_number,
            vulkan: self.vulkan_backend@,
        }
    }
}

impl RuntimeView {
    /// Whether a Vulkan backend that serves has a device.
    pub open spec fn serves_available(self) -> bool {
        self.active == VideoRuntimeBackend::Vulkan ==> self.vulkan.config is Some
    }

    /// Whether the Vulkan backend is the default one for `producer_kind`, without any frames.
    pub open spec fn has_default_vulkan(
        self,
        producer_kind: VulkanFrameProducerKind,
        producer_setting: Option<Seq<char>>,
    ) -> bool {
        &&& self.vulkan.config is Some
        &&& is_default_config(self.vulkan.config->0)
        &&& self.vulkan == BackendView::empty(
            self.vulkan.config,
            producer_kind,
            producer_kind.plan(producer_setting),
        )
    }

    /// The runtime with another Vulkan backend.
    pub open spec fn with_vulkan(self, vulkan: BackendView) -> RuntimeView {
        RuntimeView {
            active: resolved(self.preference, vulkan.config is Some),
            backend_number: next_u64(self.backend_number),
            vulkan,
            ..self
        }
    }

    /// The answer with a decode of the Vulkan backend.
    pub open spec fn served(self, task: Option<TaskView>) -> Served<Option<(u64, TaskView)>> {
        match task {
            Some(task) => Served::ByVulkan(Some((self.backend_number, task))),
            None => Served::ByVulkan(None),
        }
    }

    /// The runtime after a frame was asked for, and its answer.
    pub open spec fn requested(
        self,
        preview: bool,
        clip: VideoClipData,
        sample_rate: u64,
        sample: usize,
    ) -> (RuntimeView, Served<Option<(u64, TaskView)>>) {
        match self.active {
            VideoRuntimeBackend::Cpu => (self, Served::ByCpu),
            VideoRuntimeBackend::Vulkan => {
                let (vulkan, task) = self.vulkan.requested(preview, clip, sample_rate, sample);
                (RuntimeView { vulkan, ..self }, self.served(task))
            },
        }
    }

    /// The runtime after a decode of the backend with the number `backend` gave its result.
    pub open spec fn committed(
        self,
        backend: u64,
        preview: bool,
        clip_key: Seq<char>,
        generation: u64,
        result: Result<ProducedFrame, String>,
    ) -> RuntimeView {
        if backend != self.backend_number {
            self
        } else {
            RuntimeView {
                vulkan: self.vulkan.committed(preview, clip_key, generation, result),
                ..self
            }
        }
    }

    /// The runtime after a decode is over, and its answer.
    pub open spec fn finished(self, preview: bool, clip_key: Seq<char>, generation: u64) -> (
        RuntimeView,
        Served<Option<(u64, TaskView)>>,
    ) {
        match self.active {
            VideoRuntimeBackend::Cpu => (self, Served::ByCpu),
            VideoRuntimeBackend::Vulkan => {
                let (vulkan, task) = self.vulkan.finished(preview, clip_key, generation);
                (RuntimeView { vulkan, ..self }, self.served(task))
            },
        }
    }
}

/// Whether `info` is where `frame` came from: the CPU for a frame in main memory, else what the
/// registry of the Vulkan backend knows of its texture, while that backend serves.
pub open spec fn tells_origin(
    runtime: RuntimeView,
    frame: VideoFrameRef<'_>,
    info: Option<VideoFrameDebugInfo>,
) -> bool {
    match frame {
        VideoFrameRef::Cpu(_) => {
            &&& info is Some
            &&& info->0.producer_label@ == "cpu"@
            &&& info->0.fallback_reason is None
        },
        VideoFrameRef::Gpu { handle, .. } => {
            let textures = runtime.vulkan.textures.textures;
            if runtime.active == VideoRuntimeBackend::Vulkan && textures.contains_key(handle) {
                &&& info is Some
                &&& info->0.producer_label == textures[handle].producer_label
                &&& info->0.fallback_reason == textures[handle].fallback_reason
            } else {
                info is None
            }
        },
    }
}

impl VideoRuntime {
    /// Whether the Vulkan backend is well formed.
    pub closed spec fn wf(&self) -> bool {
        self.vulkan_backend.wf()
    }

    /// The preview or the current frame of `clip`, where the Vulkan backend serves.
    pub closed spec fn shown(&self, preview: bool, clip: VideoClip) -> Option<
        (VideoTextureHandle, VideoFrameMetadata),
    > {
        self.vulkan_backend.shown(preview, clip)
    }

    /// What is shown for a clip serves it, and nothing is shown only where nothing serves it or its
    /// texture is gone.
    pub proof fn shown_frame_serves(&self, preview: bool, clip: VideoClip)
        requires
            self.wf(),
        ensures
            self@.vulkan.frame_answers(preview, clip, self.shown(preview, clip)),
            self@.vulkan.load_answers(
                preview,
                clip,
                self@.vulkan.missing(preview, clip, self.shown(preview, clip)),
            ),
    {
        self.vulkan_backend.chosen_handle_serves(preview, clip);
    }

    /// A runtime as the settings `backend_setting` and `producer_setting` say.
    pub fn new(backend_setting: Option<&str>, producer_setting: Option<&str>) -> (runtime: Self)
        ensures
            runtime.wf(),
            runtime@.preference == (match setting_view(backend_setting) {
                Some(name) if preference_named(name) is Some => preference_named(name)->0,
                _ => VideoRuntimeBackendPreference::Auto,
            }),
            runtime@.active == resolved(runtime@.preference, true),
            runtime@.backend_number == 0,
            runtime@.has_default_vulkan(
                producer_kind_named(setting_view(producer_setting)),
                setting_view(producer_setting),
            ),
    {
        let preference: VideoRuntimeBackendPreference =
            match VideoRuntime::backend_preference_from_env(backend_setting) {
            Some(preference) => preference,
            None => VideoRuntimeBackendPreference::default(),
        };
        let producer_kind: VulkanFrameProducerKind =
            VideoRuntime::default_vulkan_producer_kind_from_env(producer_setting);
        VideoRuntime::new_with_preferences(preference, producer_kind, producer_setting)
    }

    /// A runtime with the preferences that are given. `producer_setting` may decide on the default
    /// producer.
    pub fn new_with_preferences(
        preference: VideoRuntimeBackendPreference,
        producer_kind: VulkanFrameProducerKind,
        producer_setting: Option<&str>,
    ) -> (runtime: Self)
        ensures
            runtime.wf(),
            runtime@.preference == preference,
            runtime@.active == resolved(preference, true),
            runtime@.backend_number == 0,
            runtime@.has_default_vulkan(producer_kind, setting_view(producer_setting)),
    {
        let vulkan_backend: VulkanBackend = VideoRuntime::default_vulkan_backend(
            producer_kind,
            producer_setting,
        );
        let active_backend: VideoRuntimeBackend = VideoRuntime::resolve_backend_preference(
            preference,
            vulkan_backend.is_available(),
        );
        VideoRuntime {
            backend_preference: preference,
            active_backend,
            backend_number: 0,
            vulkan_backend,
            presenter: VideoPresenter::new(),
        }
    }

    /// The preference that a setting names.
    pub fn backend_preference_from_env(setting: Option<&str>) -> (preference: Option<
        VideoRuntimeBackendPreference,
    >)
        ensures
            preference == (match setting_view(setting) {
                Some(name) => preference_named(name),
                None => None,
            }),
    {
        match setting {
            Some(name) => VideoRuntimeBackendPreference::from_name(name),
            None => None,
        }
    }

    /// The backend that serves where `preference` is asked for: Vulkan where it is available,
    /// unless the CPU is asked for.
    pub fn resolve_backend_preference(
        preference: VideoRuntimeBackendPreference,
        vulkan_available: bool,
    ) -> (backend: VideoRuntimeBackend)
        ensures
            backend == resolved(preference, vulkan_available),
    {
        match preference {
            VideoRuntimeBackendPreference::Auto if vulkan_available => VideoRuntimeBackend::Vulkan,
            VideoRuntimeBackendPreference::Vulkan if vulkan_available => {
                VideoRuntimeBackend::Vulkan
            },
            _ => VideoRuntimeBackend::Cpu,
        }
    }

    fn default_vulkan_backend(
        producer_kind: VulkanFrameProducerKind,
        producer_setting: Option<&str>,
    ) -> (backend: VulkanBackend)
        ensures
            backend.wf(),
            backend@.config is Some,
            is_default_config(backend@.config->0),
            backend@ == BackendView::empty(
                backend@.config,
                producer_kind,
                producer_kind.plan(setting_view(producer_setting)),
            ),
    {
        let device: VulkanDeviceContext = VulkanDeviceContext {
            device_label: "iced-wgpu".to_owned(),
            queue_family_index: 0,
        };
        VulkanBackend::with_producer_kind(
            VulkanRuntimeConfig {
                device,
                decode_queue_family_index: 0,
                presentation_queue_family_index: 0,
            },
            producer_kind,
            producer_setting,
        )
    }

    /// The kind of producer that a setting names.
    pub fn default_vulkan_producer_kind_from_env(setting: Option<&str>) -> (kind:
        VulkanFrameProducerKind)
        ensures
            kind == producer_kind_named(setting_view(setting)),
    {
        VulkanFrameProducerKind::from_setting(setting)
    }

    /// Takes another device and another kind of producer.
    pub fn configure_vulkan_backend(
        &mut self,
        config: VulkanRuntimeConfig,
        producer_kind: VulkanFrameProducerKind,
        producer_setting: Option<&str>,
    )
        requires
            old(self).wf(),
        ensures
            final(self).wf(),
            final(self)@ == old(self)@.with_vulkan(
                BackendView::empty(
                    Some(config),
                    producer_kind,
                    producer_kind.plan(setting_view(producer_setting)),
                ),
            ),
    {
        self.vulkan_backend = VulkanBackend::with_producer_kind(
            config,
            producer_kind,
            producer_setting,
        );
        self.backend_number = self.backend_number.wrapping_add(1);
        self.active_backend = VideoRuntime::resolve_backend_preference(
            self.backend_preference,
            self.vulkan_backend.is_available(),
        );
    }

    /// The backend that serves.
    pub fn backend(&self) -> (backend: VideoRuntimeBackend)
        ensures
            backend == self@.active,
    {
        match self.active_backend {
            VideoRuntimeBackend::Cpu => VideoRuntimeBackend::Cpu,
            VideoRuntimeBackend::Vulkan => self.vulkan_backend.kind(),
        }
    }

    /// Lets `backend` serve, or the CPU where Vulkan is not available.
    pub fn set_backend(&mut self, backend: VideoRuntimeBackend)
        requires
            old(self).wf(),
        ensures
            final(self).wf(),
            final(self)@ == (RuntimeView {
                active: if backend == VideoRuntimeBackend::Vulkan && old(self)@.vulkan.config is Some {
                    VideoRuntimeBackend::Vulkan
                } else {
                    VideoRuntimeBackend::Cpu
                },
                ..old(self)@
            }),
    {
        self.active_backend = match backend {
            VideoRuntimeBackend::Cpu => VideoRuntimeBackend::Cpu,
            VideoRuntimeBackend::Vulkan => if self.vulkan_backend.is_available() {
                VideoRuntimeBackend::Vulkan
            } else {
                VideoRuntimeBackend::Cpu
            },
        };
    }

    /// The backend that is asked for.
    pub fn backend_preference(&self) -> (preference: VideoRuntimeBackendPreference)
        ensures
            preference == self@.preference,
    {
        self.backend_preference
    }

    /// Asks for another backend. Frames stay.
    pub fn set_backend_preference(&mut self, preference: VideoRuntimeBackendPreference)
        requires
            old(self).wf(),
        ensures
            final(self).wf(),
            final(self)@ == (RuntimeView {
                preference,
                active: resolved(preference, old(self)@.vulkan.config is Some),
                ..old(self)@
            }),
    {
        self.backend_preference = preference;
        self.active_backend = VideoRuntime::resolve_backend_preference(
            preference,
            self.vulkan_backend.is_available(),
        );
    }

    /// How frames are to be produced for the Vulkan backend.
    pub fn vulkan_producer_kind(&self) -> (producer_kind: VulkanFrameProducerKind)
        ensures
            producer_kind == self@.vulkan.producer_kind,
    {
        self.vulkan_backend.producer_kind()
    }

    /// Takes other preferences, with a new Vulkan backend.
    pub fn set_preferences(
        &mut self,
        backend_preference: VideoRuntimeBackendPreference,
        producer_kind: VulkanFrameProducerKind,
        producer_setting: Option<&str>,
    )
        requires
            old(self).wf(),
        ensures
            final(self).wf(),
            final(self)@.preference == backend_preference,
            final(self)@.active == resolved(backend_preference, true),
            final(self)@.backend_number == next_u64(old(self)@.backend_number),
            final(self)@.has_default_vulkan(producer_kind, setting_view(producer_setting)),
    {
        self.backend_preference = backend_preference;
        self.vulkan_backend = VideoRuntime::default_vulkan_backend(producer_kind, producer_setting);
        self.backend_number = self.backend_number.wrapping_add(1);
        self.active_backend = VideoRuntime::resolve_backend_preference(
            backend_preference,
            self.vulkan_backend.is_available(),
        );
    }

    /// How frames are produced for the Vulkan backend.
    pub fn vulkan_plan(&self) -> (plan: ProducerPlan)
        ensures
            plan == self@.vulkan.plan,
    {
        self.vulkan_backend.plan()
    }

    /// The number of the Vulkan backend: a surface of an earlier one is told by it.
    pub fn backend_number(&self) -> (number: u64)
        ensures
            number == self@.backend_number,
    {
        self.backend_number
    }

    /// The textures of the Vulkan backend, while that one serves.
    pub fn texture_registry(&self) -> (textures: Option<&VideoTextureRegistry>)
        ensures
            match self@.active {
                VideoRuntimeBackend::Cpu => textures is None,
                VideoRuntimeBackend::Vulkan => textures is Some && textures->0@
                    == self@.vulkan.textures,
            },
    {
        match self.active_backend {
            VideoRuntimeBackend::Cpu => None,
            VideoRuntimeBackend::Vulkan => Some(self.vulkan_backend.texture_registry()),
        }
    }

    /// Where a frame came from.
    pub fn frame_debug_info(&self, frame: &VideoFrameRef<'_>) -> (info: Option<VideoFrameDebugInfo>)
        ensures
            tells_origin(self@, *frame, info),
    {
        match frame {
            VideoFrameRef::Cpu(_) => Some(
                VideoFrameDebugInfo { producer_label: "cpu".to_owned(), fallback_reason: None },
            ),
            VideoFrameRef::Gpu { handle, .. } => match self.texture_registry() {
                Some(registry) => match registry.get(handle) {
                    Some(registered) => Some(
                        VideoFrameDebugInfo {
                            producer_label: registered.producer_label.clone(),
                            fallback_reason: copy_of(&registered.fallback_reason),
                        },
                    ),
                    None => None,
                },
                None => None,
            },
        }
    }

    /// The preview of `clip`.
    pub fn preview_frame<'a>(&self, clip: &'a VideoClip) -> (frame: Served<
        Option<VideoFrameRef<'a>>,
    >)
        requires
            self.wf(),
        ensures
            frame is ByCpu <==> self@.active == VideoRuntimeBackend::Cpu,
            frame matches Served::ByVulkan(frame) ==> {
                &&& frame is Some ==> frame->0 is Gpu
                &&& texture_of(frame) == self.shown(true, *clip)
                &&& self@.vulkan.frame_answers(true, *clip, texture_of(frame))
            },
    {
        match self.active_backend {
            VideoRuntimeBackend::Cpu => Served::ByCpu,
            VideoRuntimeBackend::Vulkan => Served::ByVulkan(
                self.vulkan_backend.preview_frame(clip),
            ),
        }
    }

    /// The current frame of `clip`.
    pub fn current_frame<'a>(&self, clip: &'a VideoClip) -> (frame: Served<
        Option<VideoFrameRef<'a>>,
    >)
        requires
            self.wf(),
        ensures
            frame is ByCpu <==> self@.active == VideoRuntimeBackend::Cpu,
            frame matches Served::ByVulkan(frame) ==> {
                &&& frame is Some ==> frame->0 is Gpu
                &&& texture_of(frame) == self.shown(false, *clip)
                &&& self@.vulkan.frame_answers(false, *clip, texture_of(frame))
            },
    {
        match self.active_backend {
            VideoRuntimeBackend::Cpu => Served::ByCpu,
            VideoRuntimeBackend::Vulkan => Served::ByVulkan(
                self.vulkan_backend.current_frame(clip),
            ),
        }
    }

    /// Why the preview of `clip` is missing.
    pub fn preview_load_state(&self, clip: &VideoClip) -> (state: Served<
        Option<VideoFrameLoadState>,
    >)
        requires
            self.wf(),
        ensures
            state is ByCpu <==> self@.active == VideoRuntimeBackend::Cpu,
            state matches Served::ByVulkan(state) ==> {
                &&& load_view(state) == self@.vulkan.missing(true, *clip, self.shown(true, *clip))
                &&& self@.vulkan.load_answers(true, *clip, load_view(state))
            },
    {
        match self.active_backend {
            VideoRuntimeBackend::Cpu => Served::ByCpu,
            VideoRuntimeBackend::Vulkan => Served::ByVulkan(
                self.vulkan_backend.preview_load_state(clip),
            ),
        }
    }

    /// Why the current frame of `clip` is missing.
    pub fn current_load_state(&self, clip: &VideoClip) -> (state: Served<
        Option<VideoFrameLoadState>,
    >)
        requires
            self.wf(),
        ensures
            state is ByCpu <==> self@.active == VideoRuntimeBackend::Cpu,
            state matches Served::ByVulkan(state) ==> {
                &&& load_view(state) == self@.vulkan.missing(false, *clip, self.shown(false, *clip))
                &&& self@.vulkan.load_answers(false, *clip, load_view(state))
            },
    {
        match self.active_backend {
            VideoRuntimeBackend::Cpu => Served::ByCpu,
            VideoRuntimeBackend::Vulkan => Served::ByVulkan(
                self.vulkan_backend.current_load_state(clip),
            ),
        }
    }

    /// The image of a frame in main memory.
    pub fn image_handle(&self, frame: &VideoFrameRef<'_>) -> (image: Option<
        iced::widget::image::Handle,
    >)
        ensures
            pictures(*frame, image),
    {
        self.presenter.image_handle(frame)
    }

    /// The frame as a renderer takes it.
    pub fn presentable_frame(&self, frame: &VideoFrameRef<'_>) -> (presentable: Option<
        PresentableFrame,
    >)
        ensures
            presents(*frame, presentable),
    {
        self.presenter.presentable_frame(frame)
    }

    fn served(&self, task: Option<DecodeTask>) -> (served: Served<Option<RuntimeTask>>)
        ensures
            served_task_view(served) == self@.served(task_view(task)),
    {
        match task {
            Some(task) => Served::ByVulkan(
                Some(RuntimeTask { backend: self.backend_number, task }),
            ),
            None => Served::ByVulkan(None),
        }
    }

    /// Asks for the preview of `clip`. The Vulkan backend answers with the decode to run, unless
    /// one of the clip runs. `sample_rate` is the bits of the float.
    pub fn request_preview_frame(&mut self, clip: &VideoClipData, sample_rate: u64) -> (served:
        Served<Option<RuntimeTask>>)
        requires
            old(self).wf(),
        ensures
            final(self).wf(),
            (final(self)@, served_task_view(served)) == old(self)@.requested(
                true,
                *clip,
                sample_rate,
                clip.start,
            ),
    {
        match self.active_backend {
            VideoRuntimeBackend::Cpu => Served::ByCpu,
            VideoRuntimeBackend::Vulkan => {
                let task: Option<DecodeTask> = self.vulkan_backend.request_preview_frame(
                    clip.clone(),
                    sample_rate,
                );
                self.served(task)
            },
        }
    }

    /// Asks for the frame of `clip` at `sample`, as for a preview.
    pub fn request_current_frame(
        &mut self,
        clip: &VideoClipData,
        sample_rate: u64,
        sample: usize,
    ) -> (served: Served<Option<RuntimeTask>>)
        requires
            old(self).wf(),
        ensures
            final(self).wf(),
            (final(self)@, served_task_view(served)) == old(self)@.requested(
                false,
                *clip,
                sample_rate,
                sample,
            ),
    {
        match self.active_backend {
            VideoRuntimeBackend::Cpu => Served::ByCpu,
            VideoRuntimeBackend::Vulkan => {
                let task: Option<DecodeTask> = self.vulkan_backend.request_current_frame(
                    clip.clone(),
                    sample_rate,
                    sample,
                );
                self.served(task)
            },
        }
    }

    /// Takes over what a decode came to, while its backend is there and it is the one that runs
    /// for its clip. Tells whether it was.
    pub fn commit_decode(&mut self, task: &RuntimeTask, result: Result<ProducedFrame, String>) -> (
        counted: bool)
        requires
            old(self).wf(),
        ensures
            final(self).wf(),
            counted == (task.backend == old(self)@.backend_number && old(self)@.vulkan.lane(
                task.task.preview,
            ).decoding_generation(task.task.clip_key@, task.task.generation)),
            final(self)@ == old(self)@.committed(
                task.backend,
                task.task.preview,
                task.task.clip_key@,
                task.task.generation,
                result,
            ),
    {
        if task.backend != self.backend_number {
            return false;
        }
        self.vulkan_backend.commit_decode(&task.task, result)
    }

    /// Takes note that a decode is over. The Vulkan backend answers with the decode to run next.
    pub fn finish_decode(&mut self, clip_key: &String, preview: bool, generation: u64) -> (served:
        Served<Option<RuntimeTask>>)
        requires
            old(self).wf(),
        ensures
            final(self).wf(),
            (final(self)@, served_task_view(served)) == old(self)@.finished(
                preview,
                clip_key@,
                generation,
            ),
    {
        match self.active_backend {
            VideoRuntimeBackend::Cpu => Served::ByCpu,
            VideoRuntimeBackend::Vulkan => {
                let task: Option<DecodeTask> = self.vulkan_backend.finish_decode(
                    clip_key.clone(),
                    preview,
                    generation,
                );
                self.served(task)
            },
        }
    }

    /// Drops the frames and the requests of all clips but those of `clip_keys`.
    pub fn retain_clip_keys(&mut self, clip_keys: &Vec<String>) -> (served: Served<()>)
        requires
            old(self).wf(),
        ensures
            final(self).wf(),
            match old(self)@.active {
                VideoRuntimeBackend::Cpu => served is ByCpu && final(self)@ == old(self)@,
                VideoRuntimeBackend::Vulkan => served is ByVulkan && final(self)@ == (RuntimeView {
                    vulkan: old(self)@.vulkan.retained(clip_keys@),
                    ..old(self)@
                }),
            },
    {
        match self.active_backend {
            VideoRuntimeBackend::Cpu => Served::ByCpu,
            VideoRuntimeBackend::Vulkan => {
                self.vulkan_backend.retain_clip_keys(clip_keys);
                Served::ByVulkan(())
            },
        }
    }
}

/// Vulkan serves only where it is available, whatever is asked for; where it is, it serves unless
/// the CPU is asked for.
pub proof fn vulkan_serves_where_it_can(
    preference: VideoRuntimeBackendPreference,
    vulkan_available: bool,
)
    ensures
        !vulkan_available ==> resolved(preference, vulkan_available) == VideoRuntimeBackend::Cpu,
        resolved(VideoRuntimeBackendPreference::Cpu, vulkan_available) == VideoRuntimeBackend::Cpu,
        resolved(VideoRuntimeBackendPreference::Auto, vulkan_available) == resolved(
            VideoRuntimeBackendPreference::Vulkan,
            vulkan_available,
        ),
        resolved(VideoRuntimeBackendPreference::Auto, true) == VideoRuntimeBackend::Vulkan,
{
}

/// A Vulkan backend that serves has a device after every operation where it had one before.
pub proof fn operations_keep_backend_available(
    runtime: RuntimeView,
    vulkan: BackendView,
    backend: u64,
    preview: bool,
    clip: VideoClipData,
    sample_rate: u64,
    sample: usize,
    clip_key: Seq<char>,
    generation: u64,
    result: Result<ProducedFrame, String>,
    clip_keys: Seq<String>,
)
    requires
        runtime.serves_available(),
    ensures
        runtime.with_vulkan(vulkan).serves_available(),
        runtime.requested(preview, clip, sample_rate, sample).0.serves_available(),
        runtime.committed(backend, preview, clip_key, generation, result).serves_available(),
        runtime.finished(preview, clip_key, generation).0.serves_available(),
        (RuntimeView { vulkan: runtime.vulkan.retained(clip_keys), ..runtime }).serves_available(),
{
}

/// A decode that was started for a backend that is gone changes nothing.
pub proof fn decode_of_earlier_backend_changes_nothing(
    runtime: RuntimeView,
    vulkan: BackendView,
    preview: bool,
    clip_key: Seq<char>,
    generation: u64,
    result: Result<ProducedFrame, String>,
)
    ensures
        ({
            let after = runtime.with_vulkan(vulkan);
            after.committed(runtime.backend_number, preview, clip_key, generation, result) == after
        }),
{
}

/// The CPU serves exactly where it is asked for or Vulkan is not available.
pub proof fn cpu_serves_where_asked_or_alone(
    preference: VideoRuntimeBackendPreference,
    vulkan_available: bool,
)
    ensures
        resolved(preference, vulkan_available) is Cpu <==> preference is Cpu || !vulkan_available,
{
}

/// The default device is the one of the toolkit, with the first queues.
pub proof fn default_device_is_that_of_toolkit(config: VulkanRuntimeConfig)
    ensures
        is_default_config(config) <==> config.device.device_label@ == "iced-wgpu"@
            && config.device.queue_family_index == 0 && config.decode_queue_family_index == 0
            && config.presentation_queue_family_index == 0,
{
}

/// A runtime with the default backend has a device, the kind of producer that is asked for and the
/// plan of that kind, and neither frames nor requests.
pub proof fn default_backend_holds_nothing(
    runtime: RuntimeView,
    producer_kind: VulkanFrameProducerKind,
    producer_setting: Option<Seq<char>>,
    preview: bool,
    clip_key: Seq<char>,
    handle: VideoTextureHandle,
)
    requires
        runtime.has_default_vulkan(producer_kind, producer_setting),
    ensures
        runtime.vulkan.config is Some,
        is_default_config(runtime.vulkan.config->0),
        runtime.vulkan.producer_kind == producer_kind,
        runtime.vulkan.plan == producer_kind.plan(producer_setting),
        !runtime.vulkan.lane(preview).slots.dom().contains(clip_key),
        !runtime.vulkan.lane(preview).requests.dom().contains(clip_key),
        !runtime.vulkan.textures.textures.dom().contains(handle),
{
}

/// Another Vulkan backend takes the place of the one before it under the next number, and serves
/// exactly where it has a device and the CPU is not asked for. What is asked for stays.
pub proof fn other_backend_takes_over(runtime: RuntimeView, vulkan: BackendView)
    ensures
        ({
            let after = runtime.with_vulkan(vulkan);
            &&& after.vulkan == vulkan
            &&& after.preference == runtime.preference
            &&& after.active is Vulkan <==> vulkan.config is Some && !(runtime.preference is Cpu)
            &&& runtime.backend_number < u64::MAX ==> after.backend_number == runtime.backend_number
                + 1
            &&& runtime.backend_number == u64::MAX ==> after.backend_number == 0
        }),
{
}

/// Where the CPU serves, the runtime leaves requests and ended decodes to the caller and changes
/// nothing. Where Vulkan serves, they go to its backend, and a decode that is to run carries the
/// number of that backend.
pub proof fn runtime_asks_backend_that_serves(
    runtime: RuntimeView,
    preview: bool,
    clip: VideoClipData,
    sample_rate: u64,
    sample: usize,
    clip_key: Seq<char>,
    generation: u64,
)
    ensures
        runtime.active is Cpu ==> {
            &&& runtime.requested(preview, clip, sample_rate, sample) == (
                runtime,
                Served::<Option<(u64, TaskView)>>::ByCpu,
            )
            &&& runtime.finished(preview, clip_key, generation) == (
                runtime,
                Served::<Option<(u64, TaskView)>>::ByCpu,
            )
        },
        runtime.active is Vulkan ==> {
            let (after, served) = runtime.requested(preview, clip, sample_rate, sample);
            let (vulkan, task) = runtime.vulkan.requested(preview, clip, sample_rate, sample);
            &&& after.vulkan == vulkan
            &&& after.preference == runtime.preference
            &&& after.active == runtime.active
            &&& after.backend_number == runtime.backend_number
            &&& task is None ==> served == Served::<Option<(u64, TaskView)>>::ByVulkan(None)
            &&& task matches Some(task) ==> served == Served::ByVulkan(
                Some((runtime.backend_number, task)),
            )
        },
        runtime.active is Vulkan ==> {
            let (after, served) = runtime.finished(preview, clip_key, generation);
            let (vulkan, task) = runtime.vulkan.finished(preview, clip_key, generation);
            &&& after.vulkan == vulkan
            &&& after.preference == runtime.preference
            &&& after.active == runtime.active
            &&& after.backend_number == runtime.backend_number
            &&& task is None ==> served == Served::<Option<(u64, TaskView)>>::ByVulkan(None)
            &&& task matches Some(task) ==> served == Served::ByVulkan(
                Some((runtime.backend_number, task)),
            )
        },
{
}

/// The result of a decode goes to the backend that it was started for, while that is there.
pub proof fn result_goes_to_backend_of_its_number(
    runtime: RuntimeView,
    backend: u64,
    preview: bool,
    clip_key: Seq<char>,
    generation: u64,
    result: Result<ProducedFrame, String>,
)
    ensures
        ({
            let after = runtime.committed(backend, preview, clip_key, generation, result);
            &&& backend < runtime.backend_number || backend > runtime.backend_number ==> after
                == runtime
            &&& backend == runtime.backend_number ==> after.vulkan == runtime.vulkan.committed(
                preview,
                clip_key,
                generation,
                result,
            )
            &&& after.preference == runtime.preference
            &&& after.active == runtime.active
            &&& after.backend_number == runtime.backend_number
        }),
{
}

/// A frame in main memory comes from the CPU, without a reason. Of a texture its producer and its
/// reason are told as the registry has them, while Vulkan serves and the texture is there; else
/// nothing is.
pub proof fn origin_is_that_of_texture(
    runtime: RuntimeView,
    frame: VideoFrameRef<'_>,
    info: Option<VideoFrameDebugInfo>,
)
    requires
        tells_origin(runtime, frame, info),
    ensures
        frame is Cpu ==> info is Some && info->0.producer_label@ == "cpu"@
            && info->0.fallback_reason is None,
        frame matches VideoFrameRef::Gpu { handle, metadata } ==> {
            let there = runtime.vulkan.textures.textures.dom().contains(handle);
            &&& info is Some <==> runtime.active is Vulkan && there
            &&& info is Some ==> {
                &&& info->0.producer_label == runtime.vulkan.textures.textures[handle].producer_label
                &&& info->0.fallback_reason
                    == runtime.vulkan.textures.textures[handle].fallback_reason
            }
        },
{
}

/// An answer is seen as it is.
pub proof fn answer_is_seen_as_it_is(task: RuntimeTask)
    ensures
        served_task_view(Served::ByCpu) is ByCpu,
        served_task_view(Served::ByVulkan(None)) == Served::<Option<(u64, TaskView)>>::ByVulkan(
            None,
        ),
        served_task_view(Served::ByVulkan(Some(task))) == Served::ByVulkan(
            Some((task.backend, task.task@)),
        ),
{
}

} // verus!
