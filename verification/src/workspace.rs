//! The video view of the workspace: which clip it shows, and the texts around it.
use crate::presenter::PresentableFrame;
use crate::runtime::{Served, VideoRuntime};
use crate::text::{chars_of, joined, same_text};
use crate::types::{
    VideoClip, VideoFrameLoadState, VideoFrameMetadata, VideoFrameRef, VideoRuntimeBackend,
    VideoTextureHandle,
};
use vstd::prelude::*;
#[allow(unused_imports)]
use crate::decode::text_view;
#[allow(unused_imports)]
use crate::lane::{load_view, LoadView};
#[allow(unused_imports)]
use crate::presenter::rgba_image;
#[allow(unused_imports)]
use crate::runtime::RuntimeView;
#[allow(unused_imports)]
use crate::clip_key::clip_text;
#[allow(unused_imports)]
use crate::vulkan::{sound_backend_answers, texture_of};
#[allow(unused_imports)]
use vstd::seq_lib::{to_multiset_build, to_multiset_contains, to_multiset_remove};

verus! {

/// A track with its video, where it has one.
#[derive(Debug)]
pub struct VideoTrack {
    pub name: String,
    pub video: Option<VideoClip>,
}

/// What the workspace knows of its tracks, and the name of the track that is selected.
#[derive(Debug)]
pub struct VideoState {
    pub tracks: Vec<VideoTrack>,
    pub selected: Option<String>,
}

/// How a frame is fitted into its panel.
#[derive(Debug, Clone, Copy, PartialEq, Eq, Structural)]
pub enum FrameFit {
    /// All of the panel is covered.
    Fill,
    /// All of the frame is seen, in its own proportions.
    Contain,
}

/// What the view shows.
#[derive(Debug)]
pub enum VideoContent<'a> {
    /// The files of the session, the effects and the frame of a clip. `unavailable` stands in for
    /// a frame that is missing.
    Player { clip: &'a VideoClip, effects: String, unavailable: String, fit: FrameFit },
    /// The files of the session and a notice.
    FilesOnly { notice: String },
    /// A notice.
    Nothing { notice: String },
}

/// The name that a backend is shown by.
pub open spec fn backend_text(backend: VideoRuntimeBackend) -> Seq<char> {
    match backend {
        VideoRuntimeBackend::Cpu => "CPU"@,
        VideoRuntimeBackend::Vulkan => "Vulkan"@,
    }
}

/// What is shown of a missing frame.
pub open spec fn load_text(backend: VideoRuntimeBackend, state: LoadView) -> Seq<char> {
    match state {
        LoadView::Loading => backend_text(backend) + " • loading"@,
        LoadView::Failed(reason) => backend_text(backend) + (" • "@ + reason),
    }
}

/// Whether the track with the index `i` is the first with a video; where `name` is given, the
/// first of that name.
pub open spec fn is_first_video(tracks: Seq<VideoTrack>, name: Option<Seq<char>>, i: int) -> bool {
    &&& 0 <= i < tracks.len()
    &&& has_video(tracks[i], name)
    &&& forall|j: int| 0 <= j < i ==> !has_video(#[trigger] tracks[j], name)
}

/// Whether a track has a video, and the name `name` where one is given.
pub open spec fn has_video(track: VideoTrack, name: Option<Seq<char>>) -> bool {
    &&& track.video is Some
    &&& name is Some ==> track.name@ == name->0
}

/// Whether no track has a video; where `name` is given, none of that name.
pub open spec fn no_video(tracks: Seq<VideoTrack>, name: Option<Seq<char>>) -> bool {
    forall|j: int| 0 <= j < tracks.len() ==> !has_video(#[trigger] tracks[j], name)
}

/// The name of the track that is selected.
pub open spec fn selected_name(state: VideoState) -> Option<Seq<char>> {
    text_view(state.selected)
}

/// Whether `content` is what the view of `state` shows: the video of the track that is selected,
/// or the first video where none is selected, or else a notice.
pub open spec fn shows(
    state: VideoState,
    backend: VideoRuntimeBackend,
    content: VideoContent<'_>,
) -> bool {
    let name = selected_name(state);
    match content {
        VideoContent::Player { clip, effects, unavailable, fit } => {
            &&& exists|i: int|
                #[trigger] is_first_video(state.tracks@, name, i) && state.tracks@[i].video == Some(
                    *clip,
                )
            &&& effects@ == "VFX "@ + backend_text(backend)
            &&& if name is Some {
                &&& unavailable@ == "Selected video preview unavailable"@
                &&& fit == FrameFit::Fill
            } else {
                &&& unavailable@ == "Video player unavailable"@
                &&& fit == FrameFit::Contain
            }
        },
        VideoContent::FilesOnly { notice } => {
            &&& name is Some
            &&& no_video(state.tracks@, name)
            &&& notice@ == "Selected track has no video subtrack"@
        },
        VideoContent::Nothing { notice } => {
            &&& name is None
            &&& no_video(state.tracks@, name)
            &&& notice@ == "No imported video available"@
        },
    }
}

/// What is in the panel of a frame.
pub enum FrameContent {
    /// An image.
    Image(iced::widget::image::Handle),
    /// A texture of the registry, with the size of its frame.
    Texture { handle: VideoTextureHandle, metadata: VideoFrameMetadata },
    /// A text, with the reason why there is no frame below it.
    Notice { text: String, reason: Option<String> },
}

/// Whether `content` is what the panel shows where the current frame of the clip is `frame` and
/// `state` is why it is missing.
pub open spec fn frame_shows(
    runtime: RuntimeView,
    frame: Option<VideoFrameRef<'_>>,
    state: Option<VideoFrameLoadState>,
    unavailable: Seq<char>,
    content: FrameContent,
) -> bool {
    match frame {
        Some(VideoFrameRef::Cpu(buffer)) if !buffer@.is_blank() => content is Image && rgba_image(
            content->Image_0,
        ) == (buffer.width, buffer.height, buffer.rgba@),
        Some(
            VideoFrameRef::Gpu { handle, metadata },
        ) if runtime.active == VideoRuntimeBackend::Vulkan => content == (FrameContent::Texture {
            handle,
            metadata,
        }),
        _ => {
            &&& content is Notice
            &&& content->text@ == unavailable
            &&& match load_view(state) {
                Some(state) => content->reason is Some && content->reason->0@ == load_text(
                    runtime.active,
                    state,
                ),
                None => content->reason is None,
            }
        },
    }
}

/// Whether `content` is what the panel of `clip` shows while the Vulkan backend serves: its current
/// frame, or why that is missing.
pub open spec fn panel_shows(
    runtime: RuntimeView,
    clip: VideoClip,
    unavailable: Seq<char>,
    content: FrameContent,
) -> bool {
    exists|frame: Option<VideoFrameRef<'_>>, state: Option<VideoFrameLoadState>|
        {
            &&& frame is Some ==> frame->0 is Gpu
            &&& runtime.vulkan.frame_answers(false, clip, texture_of(frame))
            &&& runtime.vulkan.load_answers(false, clip, load_view(state))
            &&& #[trigger] frame_shows(runtime, frame, state, unavailable, content)
        }
}

/// What is shown of the missing preview of `clip`, or of its missing current frame, where `shown` is
/// that frame and the Vulkan backend serves.
pub open spec fn told_label(
    runtime: RuntimeView,
    clip: VideoClip,
    preview: bool,
    shown: Option<(VideoTextureHandle, VideoFrameMetadata)>,
) -> Option<Seq<char>> {
    match runtime.vulkan.missing(preview, clip, shown) {
        Some(state) => Some(load_text(runtime.active, state)),
        None => None,
    }
}

/// Whether `content` is the texture of `shown`, the current frame of `clip`, or the notice and why
/// there is none.
pub open spec fn panel_is(
    runtime: RuntimeView,
    clip: VideoClip,
    shown: Option<(VideoTextureHandle, VideoFrameMetadata)>,
    unavailable: Seq<char>,
    content: FrameContent,
) -> bool {
    match shown {
        Some((handle, metadata)) => content == (FrameContent::Texture { handle, metadata }),
        None => {
            &&& content is Notice
            &&& content->text@ == unavailable
            &&& text_view(content->reason) == told_label(runtime, clip, false, shown)
        },
    }
}

/// Whether `label` is what is shown of the missing preview of `clip`, or of its missing current
/// frame, while the Vulkan backend serves.
pub open spec fn label_tells(
    runtime: RuntimeView,
    clip: VideoClip,
    preview: bool,
    label: Option<String>,
) -> bool {
    exists|state: Option<LoadView>|
        #[trigger] runtime.vulkan.load_answers(preview, clip, state) && text_view(label) == (
        match state {
            Some(state) => Some(load_text(runtime.active, state)),
            None => None,
        })
}

/// The video view of the workspace.
pub struct Video {
    state: VideoState,
}

impl Video {
    /// What the view knows of the workspace.
    pub closed spec fn state(&self) -> VideoState {
        self.state
    }

    pub fn new(state: VideoState) -> (video: Self)
        ensures
            video.state() == state,
    {
        Video { state }
    }

    /// The name that a backend is shown by.
    pub fn backend_label(backend: VideoRuntimeBackend) -> (label: String)
        ensures
            label@ == backend_text(backend),
    {
        match backend {
            VideoRuntimeBackend::Cpu => "CPU".to_owned(),
            VideoRuntimeBackend::Vulkan => "Vulkan".to_owned(),
        }
    }

    /// What is shown of a frame that is missing for the reason `state`.
    pub fn load_state_label(
        backend: VideoRuntimeBackend,
        state: &Option<VideoFrameLoadState>,
    ) -> (label: Option<String>)
        ensures
            match load_view(*state) {
                Some(state) => label is Some && label->0@ == load_text(backend, state),
                None => label is None,
            },
    {
        let label: String = Video::backend_label(backend);
        match state {
            Some(VideoFrameLoadState::Loading) => Some(joined(label.as_str(), " • loading")),
            Some(VideoFrameLoadState::Failed(reason)) => {
                let reason: String = joined(" • ", reason.as_str());
                Some(joined(label.as_str(), reason.as_str()))
            },
            None => None,
        }
    }

    /// What the panel of a clip shows where its current frame is `frame` and `state` is why it is
    /// missing.
    pub fn frame_element(
        runtime: &VideoRuntime,
        frame: &Option<VideoFrameRef<'_>>,
        state: &Option<VideoFrameLoadState>,
        unavailable: &str,
    ) -> (content: FrameContent)
        ensures
            frame_shows(runtime@, *frame, *state, unavailable@, content),
    {
        if let Some(frame) = frame {
            match runtime.presentable_frame(frame) {
                Some(PresentableFrame::CpuImage(image)) => {
                    return FrameContent::Image(image);
                },
                Some(PresentableFrame::GpuTexture(handle)) => {
                    if let VideoFrameRef::Gpu { metadata, .. } = frame {
                        if runtime.texture_registry().is_some() {
                            return FrameContent::Texture { handle, metadata: *metadata };
                        }
                    }
                },
                None => {},
            }
        }
        FrameContent::Notice {
            text: unavailable.to_owned(),
            reason: Video::load_state_label(runtime.backend(), state),
        }
    }

    /// What is shown of the missing current frame of `clip`, or of its missing preview where not
    /// `current`. The caller's CPU backend tells where that one serves.
    pub fn clip_load_state_label(runtime: &VideoRuntime, clip: &VideoClip, current: bool) -> (label:
        Served<Option<String>>)
        requires
            runtime.wf(),
        ensures
            label is ByCpu <==> runtime@.active == VideoRuntimeBackend::Cpu,
            label matches Served::ByVulkan(label) ==> {
                &&& text_view(label) == told_label(
                    runtime@,
                    *clip,
                    !current,
                    runtime.shown(!current, *clip),
                )
                &&& label_tells(runtime@, *clip, !current, label)
            },
    {
        let served: Served<Option<VideoFrameLoadState>> = if current {
            runtime.current_load_state(clip)
        } else {
            runtime.preview_load_state(clip)
        };
        match served {
            Served::ByCpu => Served::ByCpu,
            Served::ByVulkan(state) => {
                let label: Option<String> = Video::load_state_label(runtime.backend(), &state);
                assert(runtime@.vulkan.load_answers(!current, *clip, load_view(state)));
                Served::ByVulkan(label)
            },
        }
    }

    /// What the panel of `clip` shows: its current frame, or `unavailable` and why the frame is
    /// missing. The caller's CPU backend has the frame where that one serves.
    pub fn panel_content(runtime: &VideoRuntime, clip: &VideoClip, unavailable: &str) -> (content:
        Served<FrameContent>)
        requires
            runtime.wf(),
        ensures
            content is ByCpu <==> runtime@.active == VideoRuntimeBackend::Cpu,
            content matches Served::ByVulkan(content) ==> {
                &&& panel_is(
                    runtime@,
                    *clip,
                    runtime.shown(false, *clip),
                    unavailable@,
                    content,
                )
                &&& panel_shows(runtime@, *clip, unavailable@, content)
            },
    {
        match (runtime.current_frame(clip), runtime.current_load_state(clip)) {
            (Served::ByVulkan(frame), Served::ByVulkan(state)) => {
                let content: FrameContent = Video::frame_element(
                    runtime,
                    &frame,
                    &state,
                    unavailable,
                );
                assert(frame_shows(runtime@, frame, state, unavailable@, content));
                Served::ByVulkan(content)
            },
            _ => Served::ByCpu,
        }
    }

    /// The first track with a video; where `name` is given, the first of that name.
    fn first_video(&self, name: &Option<String>) -> (found: Option<&VideoClip>)
        ensures
            match found {
                Some(clip) => exists|i: int|
                    #[trigger] is_first_video(
                        self.state().tracks@,
                        text_view(*name),
                        i,
                    ) && self.state().tracks@[i].video == Some(*clip),
                None => no_video(self.state().tracks@, text_view(*name)),
            },
    {
        let mut i: usize = 0;
        while i < self.state.tracks.len()
            invariant
                i <= self.state.tracks@.len(),
                forall|j: int|
                    0 <= j < i ==> !has_video(
                        #[trigger] self.state.tracks@[j],
                        text_view(*name),
                    ),
            decreases self.state.tracks@.len() - i,
        {
            let named: bool = match name {
                Some(name) => same_text(self.state.tracks[i].name.as_str(), name.as_str()),
                None => true,
            };
            if named {
                if let Some(clip) = &self.state.tracks[i].video {
                    assert(is_first_video(
                        self.state().tracks@,
                        text_view(*name),
                        i as int,
                    ));
                    return Some(clip);
                }
            }
            i = i + 1;
        }
        None
    }

    /// What the view shows while `backend` serves.
    pub fn view(&self, backend: VideoRuntimeBackend) -> (content: VideoContent<'_>)
        ensures
            shows(self.state(), backend, content),
    {
        let selected: bool = self.state.selected.is_some();
        match self.first_video(&self.state.selected) {
            Some(clip) => {
                let label: String = Video::backend_label(backend);
                let effects: String = joined("VFX ", label.as_str());
                if selected {
                    VideoContent::Player {
                        clip,
                        effects,
                        unavailable: "Selected video preview unavailable".to_owned(),
                        fit: FrameFit::Fill,
                    }
                } else {
                    VideoContent::Player {
                        clip,
                        effects,
                        unavailable: "Video player unavailable".to_owned(),
                        fit: FrameFit::Contain,
                    }
                }
            },
            None => if selected {
                VideoContent::FilesOnly {
                    notice: "Selected track has no video subtrack".to_owned(),
                }
            } else {
                VideoContent::Nothing { notice: "No imported video available".to_owned() }
            },
        }
    }
}

/// The panel of a clip shows a texture exactly where some current frame serves the clip, and its own
/// before all others. Else it shows the notice, with what the requests tell of the frame.
pub proof fn panel_shows_frame_or_reason(
    runtime: RuntimeView,
    clip: VideoClip,
    unavailable: Seq<char>,
    content: FrameContent,
)
    requires
        runtime.active == VideoRuntimeBackend::Vulkan,
        runtime.vulkan.config is Some,
        runtime.vulkan.sound(),
        panel_shows(runtime, clip, unavailable, content),
    ensures
        ({
            let lane = runtime.vulkan.current;
            let textures = runtime.vulkan.textures.textures;
            if lane.no_slot_serves(clip) {
                &&& content is Notice
                &&& content->text@ == unavailable
                &&& text_view(content->reason) == (match runtime.vulkan.told(false, clip_text(clip)) {
                    Some(state) => Some(load_text(runtime.active, state)),
                    None => None,
                })
            } else {
                &&& content is Texture
                &&& lane.slot_serves(clip, content->handle)
                &&& textures.contains_key(content->handle)
                &&& content->metadata == textures[content->handle].metadata
                &&& lane.slots.contains_key(clip_text(clip)) ==> content->handle
                    == lane.slots[clip_text(clip)]
            }
        }),
{
    let (frame, state) = choose|
        frame: Option<VideoFrameRef<'_>>,
        state: Option<VideoFrameLoadState>,
    |
        {
            &&& frame is Some ==> frame->0 is Gpu
            &&& runtime.vulkan.frame_answers(false, clip, texture_of(frame))
            &&& runtime.vulkan.load_answers(false, clip, load_view(state))
            &&& #[trigger] frame_shows(runtime, frame, state, unavailable, content)
        };
    sound_backend_answers(runtime.vulkan, false, clip, texture_of(frame), load_view(state));
}

/// Whether `a` comes before `b` or is equal to it, by the numbers of their characters from the
/// first one on. The bytes of the texts give the same order.
pub open spec fn in_order(a: Seq<char>, b: Seq<char>) -> bool
    decreases a.len(),
{
    if a.len() == 0 || b.len() == 0 {
        a.len() == 0
    } else if a[0] != b[0] {
        a[0] < b[0]
    } else {
        in_order(a.drop_first(), b.drop_first())
    }
}

/// Texts are in order one way or the other, and both ways only where they are equal.
proof fn lemma_in_order_total(a: Seq<char>, b: Seq<char>)
    ensures
        in_order(a, b) || in_order(b, a),
        in_order(a, b) && in_order(b, a) ==> a == b,
    decreases a.len(),
{
    if a.len() == 0 || b.len() == 0 {
        if a.len() == 0 && b.len() == 0 {
            assert(a =~= b);
        }
    } else if a[0] == b[0] {
        lemma_in_order_total(a.drop_first(), b.drop_first());
        if in_order(a, b) && in_order(b, a) {
            assert(a =~= seq![a[0]] + a.drop_first());
            assert(b =~= seq![b[0]] + b.drop_first());
        }
    }
}

proof fn lemma_in_order_transitive(a: Seq<char>, b: Seq<char>, c: Seq<char>)
    requires
        in_order(a, b),
        in_order(b, c),
    ensures
        in_order(a, c),
    decreases a.len(),
{
    if a.len() > 0 && a[0] == b[0] && b[0] == c[0] {
        lemma_in_order_transitive(a.drop_first(), b.drop_first(), c.drop_first());
    }
}

/// From a place on up to which two texts are equal, the rest decides on their order.
proof fn lemma_in_order_after_prefix(a: Seq<char>, b: Seq<char>, i: int)
    requires
        0 <= i <= a.len(),
        i <= b.len(),
        a.take(i) == b.take(i),
    ensures
        in_order(a, b) == in_order(a.skip(i), b.skip(i)),
    decreases i,
{
    if i == 0 {
        assert(a.skip(0) =~= a);
        assert(b.skip(0) =~= b);
    } else {
        assert(a[0] == a.take(i)[0]);
        assert(b[0] == b.take(i)[0]);
        let (a_rest, b_rest) = (a.drop_first(), b.drop_first());
        assert(a_rest.take(i - 1) =~= a.take(i).drop_first());
        assert(b_rest.take(i - 1) =~= b.take(i).drop_first());
        lemma_in_order_after_prefix(a_rest, b_rest, i - 1);
        assert(a_rest.skip(i - 1) =~= a.skip(i));
        assert(b_rest.skip(i - 1) =~= b.skip(i));
    }
}

fn is_in_order(a: &str, b: &str) -> (ordered: bool)
    ensures
        ordered == in_order(a@, b@),
{
    let a: Vec<char> = chars_of(a);
    let b: Vec<char> = chars_of(b);
    let mut i: usize = 0;
    while i < a.len() && i < b.len() && a[i] == b[i]
        invariant
            i <= a@.len(),
            i <= b@.len(),
            a@.take(i as int) == b@.take(i as int),
        decreases a@.len() - i,
    {
        i = i + 1;
        assert(a@.take(i as int) =~= a@.take(i - 1).push(a@[i - 1]));
        assert(b@.take(i as int) =~= b@.take(i - 1).push(b@[i - 1]));
    }
    proof {
        lemma_in_order_after_prefix(a@, b@, i as int);
    }
    if i == a.len() {
        true
    } else if i == b.len() {
        false
    } else {
        a[i] < b[i]
    }
}

/// The texts of a list.
pub open spec fn texts(list: Seq<String>) -> Seq<Seq<char>> {
    list.map_values(|text: String| text@)
}

/// Whether every text of a list is in order with those after it.
pub open spec fn sorted(list: Seq<Seq<char>>) -> bool {
    forall|i: int, j: int|
        #![trigger list[i], list[j]]
        0 <= i < j < list.len() ==> in_order(list[i], list[j])
}

impl Video {
    /// Sorts the files of the session by their names.
    pub fn session_video_files(files: &Vec<String>) -> (names: Vec<String>)
        ensures
            sorted(texts(names@)),
            texts(names@).to_multiset() == texts(files@).to_multiset(),
    {
        let mut names: Vec<String> = Vec::new();
        let mut i: usize = 0;
        proof {
            assert(texts(names@) =~= texts(files@.take(0)));
        }
        while i < files.len()
            invariant
                i <= files@.len(),
                sorted(texts(names@)),
                texts(names@).to_multiset() == texts(files@.take(i as int)).to_multiset(),
                names@.len() == i,
            decreases files@.len() - i,
        {
            let file: String = files[i].clone();
            let mut place: usize = 0;
            while place < names.len() && is_in_order(names[place].as_str(), file.as_str())
                invariant
                    place <= names@.len(),
                    forall|j: int| 0 <= j < place ==> in_order(#[trigger] texts(names@)[j], file@),
                decreases names@.len() - place,
            {
                assert(texts(names@)[place as int] == names@[place as int]@);
                place = place + 1;
            }
            let ghost before = texts(names@);
            names.insert(place, file);
            proof {
                assert(texts(names@) =~= before.insert(place as int, file@));
                lemma_insertion_keeps_sorted(before, place as int, file@);
                lemma_insertion_counts(before, place as int, file@);
                assert(texts(files@.take(i + 1)) =~= texts(files@.take(i as int)).push(file@));
                to_multiset_build(texts(files@.take(i as int)), file@);
            }
            i = i + 1;
        }
        assert(files@.take(files@.len() as int) =~= files@);
        names
    }
}

proof fn lemma_insertion_keeps_sorted(list: Seq<Seq<char>>, place: int, text: Seq<char>)
    requires
        sorted(list),
        0 <= place <= list.len(),
        forall|j: int| 0 <= j < place ==> in_order(#[trigger] list[j], text),
        place < list.len() ==> !in_order(list[place], text),
    ensures
        sorted(list.insert(place, text)),
{
    let after = list.insert(place, text);
    assert forall|i: int, j: int|
        #![trigger after[i], after[j]]
        0 <= i < j < after.len() implies in_order(after[i], after[j]) by {
        if place < list.len() {
            lemma_in_order_total(list[place], text);
        }
        if i == place {
            assert(after[j] == list[j - 1]);
            if j - 1 > place {
                lemma_in_order_transitive(text, list[place], list[j - 1]);
            }
        }
    }
}

proof fn lemma_insertion_counts(list: Seq<Seq<char>>, place: int, text: Seq<char>)
    requires
        0 <= place <= list.len(),
    ensures
        list.insert(place, text).to_multiset() == list.to_multiset().insert(text),
{
    let after = list.insert(place, text);
    assert(after.remove(place) =~= list);
    to_multiset_remove(after, place);
    assert(after[place] == text);
    to_multiset_contains(after, text);
    assert(after.to_multiset() =~= list.to_multiset().insert(text));
}

/// A row of the list of files.
#[derive(Debug)]
pub struct FileRow {
    pub name: String,
    pub selected: bool,
}

/// The list of files, or a notice where there are none.
#[derive(Debug)]
pub enum FileList {
    Notice(String),
    Rows(Vec<FileRow>),
}

/// The names in the rows of a list.
pub open spec fn row_names(rows: Seq<FileRow>) -> Seq<Seq<char>> {
    rows.map_values(|row: FileRow| row.name@)
}

impl Video {
    /// The list of the files of the session, sorted by name, with the file of the name `selected_name`
    /// marked.
    pub fn video_file_list(files: &Vec<String>, selected_name: Option<&str>) -> (list: FileList)
        ensures
            match list {
                FileList::Notice(notice) => files@.len() == 0 && notice@ == "No files in session/video"@,
                FileList::Rows(rows) => {
                    &&& files@.len() > 0
                    &&& sorted(row_names(rows@))
                    &&& row_names(rows@).to_multiset() == texts(files@).to_multiset()
                    &&& forall|i: int|
                        0 <= i < rows@.len() ==> (#[trigger] rows@[i]).selected == (selected_name is Some
                            && selected_name->0@ == rows@[i].name@)
                },
            },
    {
        if files.is_empty() {
            return FileList::Notice("No files in session/video".to_owned());
        }
        let names: Vec<String> = Video::session_video_files(files);
        let mut rows: Vec<FileRow> = Vec::new();
        let mut i: usize = 0;
        while i < names.len()
            invariant
                i <= names@.len(),
                rows@.len() == i,
                forall|j: int|
                    0 <= j < i ==> {
                        &&& (#[trigger] rows@[j]).name == names@[j]
                        &&& rows@[j].selected == (selected_name is Some && selected_name->0@
                            == rows@[j].name@)
                    },
            decreases names@.len() - i,
        {
            let name: String = names[i].clone();
            let selected: bool = match selected_name {
                Some(selected_name) => same_text(selected_name, name.as_str()),
                None => false,
            };
            rows.push(FileRow { name, selected });
            i = i + 1;
        }
        assert(row_names(rows@) =~= texts(names@));
        FileList::Rows(rows)
    }
}

/// There is one way only to sort a list of names.
pub proof fn sorted_files_are_unique(a: Seq<Seq<char>>, b: Seq<Seq<char>>)
    requires
        sorted(a),
        sorted(b),
        a.to_multiset() == b.to_multiset(),
    ensures
        a == b,
    decreases a.len(),
{
    broadcast use vstd::seq_lib::group_to_multiset_ensures;

    assert(a.len() == a.to_multiset().len() && b.len() == b.to_multiset().len());
    if a.len() == 0 {
        assert(a =~= b);
    } else {
        assert(a.contains(a[0]) && b.contains(b[0]));
        assert(b.contains(a[0])) by {
            assert(b.to_multiset().count(a[0]) > 0);
        }
        assert(a.contains(b[0])) by {
            assert(a.to_multiset().count(b[0]) > 0);
        }
        let i = choose|i: int| 0 <= i < b.len() && b[i] == a[0];
        let j = choose|j: int| 0 <= j < a.len() && a[j] == b[0];
        lemma_in_order_total(a[0], b[0]);
        if i > 0 && j > 0 {
            assert(in_order(b[0], b[i]));
            assert(in_order(a[0], a[j]));
        }
        assert(a[0] == b[0]);
        let (a_rest, b_rest) = (a.remove(0), b.remove(0));
        to_multiset_remove(a, 0);
        to_multiset_remove(b, 0);
        assert(sorted(a_rest)) by {
            assert forall|p: int, q: int|
                #![trigger a_rest[p], a_rest[q]]
                0 <= p < q < a_rest.len() implies in_order(a_rest[p], a_rest[q]) by {
                assert(in_order(a[p + 1], a[q + 1]));
            }
        }
        assert(sorted(b_rest)) by {
            assert forall|p: int, q: int|
                #![trigger b_rest[p], b_rest[q]]
                0 <= p < q < b_rest.len() implies in_order(b_rest[p], b_rest[q]) by {
                assert(in_order(b[p + 1], b[q + 1]));
            }
        }
        sorted_files_are_unique(a_rest, b_rest);
        assert(a =~= seq![a[0]] + a_rest);
        assert(b =~= seq![b[0]] + b_rest);
    }
}

/// The view shows a video exactly where the track that is selected has one, or where nothing is
/// selected and any track has one. It always shows the same one.
pub proof fn view_shows_selected_or_first_video(
    state: VideoState,
    backend: VideoRuntimeBackend,
    a: VideoContent<'_>,
    b: VideoContent<'_>,
)
    requires
        shows(state, backend, a),
        shows(state, backend, b),
    ensures
        a is Player <==> exists|i: int|
            0 <= i < state.tracks@.len() && has_video(
                #[trigger] state.tracks@[i],
                selected_name(state),
            ),
        a is Player ==> b is Player && a->clip == b->clip,
        a is FilesOnly ==> b is FilesOnly,
        a is Nothing ==> b is Nothing,
{
    let name = selected_name(state);
    let tracks = state.tracks@;
    if a is Player {
        let i = choose|i: int|
            #[trigger] is_first_video(tracks, name, i) && tracks[i].video == Some(*a->clip);
        assert(has_video(tracks[i], name));
        if b is Player {
            let j = choose|j: int|
                #[trigger] is_first_video(tracks, name, j) && tracks[j].video == Some(*b->clip);
            assert(has_video(tracks[j], name));
            assert(i == j);
        }
    }
    if b is Player {
        let j = choose|j: int|
            #[trigger] is_first_video(tracks, name, j) && tracks[j].video == Some(*b->clip);
        assert(has_video(tracks[j], name));
    }
}

/// Texts are ordered as in a dictionary, by the codes of their characters: the first character in
/// which they differ decides, and a text comes before every longer one that starts with it.
pub proof fn texts_are_ordered_by_first_difference(a: Seq<char>, b: Seq<char>, i: int)
    requires
        0 <= i <= a.len(),
        i <= b.len(),
        forall|j: int| 0 <= j < i ==> #[trigger] a[j] == b[j],
    ensures
        i < a.len() && i < b.len() && a[i] != b[i] ==> (in_order(a, b) <==> (a[i] as int) < (
        b[i] as int)),
        i == a.len() ==> in_order(a, b),
        i == b.len() && i < a.len() ==> !in_order(a, b),
{
    assert(a.take(i) =~= b.take(i));
    lemma_in_order_after_prefix(a, b, i);
    if i < a.len() && i < b.len() {
        assert(a.skip(i)[0] == a[i] && b.skip(i)[0] == b[i]);
    }
}

/// In a sorted list every text is in order with all behind it, and a list that is not sorted has two
/// texts that are not.
pub proof fn sorted_list_is_in_order_throughout(list: Seq<Seq<char>>)
    ensures
        sorted(list) ==> forall|i: int, j: int|
            #![trigger list[i], list[j]]
            0 <= i < j < list.len() ==> in_order(list[i], list[j]),
        !sorted(list) ==> exists|i: int, j: int|
            #![trigger list[i], list[j]]
            0 <= i < j < list.len() && !in_order(list[i], list[j]),
{
}

/// The texts of a list and the names of rows are seen one by one and in their order.
pub proof fn lists_are_seen_as_they_are(list: Seq<String>, rows: Seq<FileRow>, i: int)
    ensures
        texts(list).len() == list.len(),
        0 <= i < list.len() ==> texts(list)[i] == list[i]@,
        row_names(rows).len() == rows.len(),
        0 <= i < rows.len() ==> row_names(rows)[i] == rows[i].name@,
{
}

/// A missing frame is told of by the name of the backend, with that it is loading or why it failed.
pub proof fn label_names_backend_and_reason(
    backend: VideoRuntimeBackend,
    state: LoadView,
)
    ensures
        backend is Cpu ==> backend_text(backend) == "CPU"@,
        backend is Vulkan ==> backend_text(backend) == "Vulkan"@,
        state is Loading ==> load_text(backend, state) == backend_text(backend) + " • loading"@,
        state matches LoadView::Failed(reason) ==> load_text(backend, state) == backend_text(backend)
            + " • "@ + reason,
{
    if let LoadView::Failed(reason) = state {
        assert(backend_text(backend) + (" • "@ + reason) =~= backend_text(backend) + " • "@ + reason);
    }
}

/// The video that is shown is that of the first track that has one, among those of the name that is
/// selected where one is. The texts and the fit around it go by whether a track is selected.
pub proof fn view_shows_first_video(
    state: VideoState,
    backend: VideoRuntimeBackend,
    content: VideoContent<'_>,
    i: int,
)
    requires
        shows(state, backend, content),
        0 <= i < state.tracks@.len(),
        state.tracks@[i].video is Some,
        state.selected is Some ==> state.tracks@[i].name@ == state.selected->0@,
        forall|j: int|
            0 <= j < i ==> (#[trigger] state.tracks@[j]).video is None || state.selected is Some
                && state.tracks@[j].name@ != state.selected->0@,
    ensures
        content matches VideoContent::Player { clip, effects, unavailable, fit } && {
            &&& *clip == state.tracks@[i].video->0
            &&& effects@ == "VFX "@ + backend_text(backend)
            &&& state.selected is Some ==> unavailable@ == "Selected video preview unavailable"@
                && fit is Fill
            &&& state.selected is None ==> unavailable@ == "Video player unavailable"@
                && fit is Contain
        },
{
    let name = selected_name(state);
    assert(has_video(state.tracks@[i], name));
    if let VideoContent::Player { clip, .. } = content {
        let first = choose|first: int|
            #[trigger] is_first_video(state.tracks@, name, first) && state.tracks@[first].video
                == Some(*clip);
        if first < i {
            assert(has_video(state.tracks@[first], name));
        }
        if i < first {
            assert(!has_video(state.tracks@[i], name));
        }
    }
}

/// Where no track has a video, among those of the name that is selected where one is, a notice is
/// shown: that the selected track has none, beside the files, or that there is none at all.
pub proof fn view_without_video_shows_notice(
    state: VideoState,
    backend: VideoRuntimeBackend,
    content: VideoContent<'_>,
)
    requires
        shows(state, backend, content),
        forall|j: int|
            0 <= j < state.tracks@.len() ==> (#[trigger] state.tracks@[j]).video is None
                || state.selected is Some && state.tracks@[j].name@ != state.selected->0@,
    ensures
        state.selected is Some ==> (content matches VideoContent::FilesOnly { notice } && notice@
            == "Selected track has no video subtrack"@),
        state.selected is None ==> (content matches VideoContent::Nothing { notice } && notice@
            == "No imported video available"@),
{
    let name = selected_name(state);
    if let VideoContent::Player { clip, .. } = content {
        let first = choose|first: int|
            #[trigger] is_first_video(state.tracks@, name, first) && state.tracks@[first].video
                == Some(*clip);
        assert(has_video(state.tracks@[first], name));
    }
}

/// A frame is shown as it is: one in main memory as the image of its size and bytes, one of the
/// registry as its texture while Vulkan serves. Without one the notice is shown, with the reason
/// where there is one.
pub proof fn frame_is_shown_as_it_is(
    runtime: RuntimeView,
    frame: Option<VideoFrameRef<'_>>,
    state: Option<VideoFrameLoadState>,
    unavailable: Seq<char>,
    content: FrameContent,
)
    requires
        frame_shows(runtime, frame, state, unavailable, content),
    ensures
        frame matches Some(VideoFrameRef::Cpu(buffer)) ==> (buffer.width > 0 && buffer.height > 0
            && buffer.rgba@.len() > 0 <==> content is Image),
        frame matches Some(VideoFrameRef::Cpu(buffer)) ==> content is Image ==> rgba_image(
            content->Image_0,
        ) == (buffer.width, buffer.height, buffer.rgba@),
        frame matches Some(VideoFrameRef::Gpu { handle, metadata }) ==> (runtime.active is Vulkan
            <==> content is Texture),
        frame matches Some(VideoFrameRef::Gpu { handle, metadata }) ==> content is Texture
            ==> content->handle == handle && content->metadata == metadata,
        content is Image ==> frame is Some && frame->0 is Cpu,
        content is Texture ==> frame is Some && frame->0 is Gpu,
        content is Notice ==> {
            &&& content->text@ == unavailable
            &&& content->reason is Some <==> state is Some
            &&& state matches Some(VideoFrameLoadState::Loading) ==> content->reason->0@
                == backend_text(runtime.active) + " • loading"@
            &&& state matches Some(VideoFrameLoadState::Failed(reason)) ==> content->reason->0@
                == backend_text(runtime.active) + " • "@ + reason@
        },
        frame is None ==> content is Notice,
{
    if let Some(VideoFrameLoadState::Failed(reason)) = state {
        assert(backend_text(runtime.active) + (" • "@ + reason@) =~= backend_text(runtime.active)
            + " • "@ + reason@);
    }
}

/// The panel shows the texture of the frame that is found; without one the notice, with what the
/// requests tell of the current frame behind the name of the backend.
pub proof fn panel_is_texture_or_notice(
    runtime: RuntimeView,
    clip: VideoClip,
    shown: Option<(VideoTextureHandle, VideoFrameMetadata)>,
    unavailable: Seq<char>,
    content: FrameContent,
)
    requires
        panel_is(runtime, clip, shown, unavailable, content),
    ensures
        shown matches Some((handle, metadata)) ==> content is Texture && content->handle == handle
            && content->metadata == metadata,
        shown is None ==> {
            let told = runtime.vulkan.told(false, clip_text(clip));
            &&& content is Notice
            &&& content->text@ == unavailable
            &&& content->reason is Some <==> told is Some
            &&& told is Some ==> content->reason->0@ == load_text(runtime.active, told->0)
        },
{
}

/// Of a frame that is shown no label tells; of a missing one the label tells what the requests do,
/// behind the name of the backend.
pub proof fn label_tells_what_requests_tell(
    runtime: RuntimeView,
    clip: VideoClip,
    preview: bool,
    found: (VideoTextureHandle, VideoFrameMetadata),
)
    ensures
        told_label(runtime, clip, preview, Some(found)) is None,
        ({
            let told = runtime.vulkan.told(preview, clip_text(clip));
            &&& told is None ==> told_label(runtime, clip, preview, None) is None
            &&& told is Some ==> told_label(runtime, clip, preview, None) == Some(
                load_text(runtime.active, told->0),
            )
        }),
{
}

/// A label that may be shown is one of a state that may be: none where nothing is told, else the text
/// of what is told.
pub proof fn label_is_that_of_a_state(
    runtime: RuntimeView,
    clip: VideoClip,
    preview: bool,
    label: Option<String>,
)
    requires
        label_tells(runtime, clip, preview, label),
    ensures
        label is None ==> runtime.vulkan.load_answers(preview, clip, None),
        label is Some ==> exists|state: LoadView|
            runtime.vulkan.load_answers(preview, clip, Some(state)) && label->0@
                == #[trigger] load_text(runtime.active, state),
{
    let state = choose|state: Option<LoadView>|
        #[trigger] runtime.vulkan.load_answers(preview, clip, state) && text_view(label) == (
        match state {
            Some(state) => Some(load_text(runtime.active, state)),
            None => None,
        });
    if label is Some {
        assert(state is Some);
        assert(label->0@ == load_text(runtime.active, state->0));
    }
}

} // verus!
