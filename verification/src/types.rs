//! The plain values that the video runtime passes around.
use crate::text::same_text;
use vstd::prelude::*;

verus! {

/// The backend that serves frames.
#[derive(Debug, Clone, Copy, PartialEq, Eq, Structural)]
pub enum VideoRuntimeBackend {
    Cpu,
    Vulkan,
}

/// The backend that the user asks for.
#[derive(Debug, Clone, Copy, PartialEq, Eq, Structural)]
pub enum VideoRuntimeBackendPreference {
    Auto,
    Cpu,
    Vulkan,
}

/// The error of reading a [`VideoRuntimeBackendPreference`] from a name that is none of its own.
#[derive(Debug, Clone, Copy, PartialEq, Eq, Structural)]
pub struct UnknownBackendPreference;

/// The preference with the name `name`, where there is one.
pub open spec fn preference_named(name: Seq<char>) -> Option<VideoRuntimeBackendPreference> {
    if name == "auto"@ {
        Some(VideoRuntimeBackendPreference::Auto)
    } else if name == "cpu"@ {
        Some(VideoRuntimeBackendPreference::Cpu)
    } else if name == "vulkan"@ {
        Some(VideoRuntimeBackendPreference::Vulkan)
    } else {
        None
    }
}

impl VideoRuntimeBackendPreference {
    /// The preference with the name `name`: `auto`, `cpu` or `vulkan`.
    pub fn from_name(name: &str) -> (preference: Option<Self>)
        ensures
            preference == preference_named(name@),
    {
        if same_text(name, "auto") {
            Some(VideoRuntimeBackendPreference::Auto)
        } else if same_text(name, "cpu") {
            Some(VideoRuntimeBackendPreference::Cpu)
        } else if same_text(name, "vulkan") {
            Some(VideoRuntimeBackendPreference::Vulkan)
        } else {
            None
        }
    }
}

impl Default for VideoRuntimeBackendPreference {
    /// Vulkan where it is available, the CPU elsewhere.
    fn default() -> (preference: Self)
        ensures
            preference == VideoRuntimeBackendPreference::Auto,
    {
        VideoRuntimeBackendPreference::Auto
    }
}

impl std::str::FromStr for VideoRuntimeBackendPreference {
    type Err = UnknownBackendPreference;

    fn from_str(name: &str) -> (outcome: Result<Self, UnknownBackendPreference>)
        ensures
            match outcome {
                Ok(preference) => preference_named(name@) == Some(preference),
                Err(_) => preference_named(name@) is None,
            },
    {
        match VideoRuntimeBackendPreference::from_name(name) {
            Some(preference) => Ok(preference),
            None => Err(UnknownBackendPreference),
        }
    }
}

/// Names one texture of a registry.
#[derive(Debug, Clone, Copy, PartialEq, Eq, Hash, Structural)]
pub struct VideoTextureHandle {
    pub slot: u32,
    pub generation: u64,
}

/// The size of a frame and its place on the timeline.
#[derive(Debug, Clone, Copy, PartialEq, Eq, Structural)]
pub struct VideoFrameMetadata {
    pub width: u32,
    pub height: u32,
    pub pts_samples: usize,
}

/// Where a frame came from.
#[derive(Debug, Clone, PartialEq, Eq)]
pub struct VideoFrameDebugInfo {
    pub producer_label: String,
    pub fallback_reason: Option<String>,
}

/// Why a clip has no frame to show.
#[derive(Debug, Clone, PartialEq, Eq)]
pub enum VideoFrameLoadState {
    Loading,
    Failed(String),
}

/// A decoded frame: `width * height` RGBA pixels.
#[derive(Debug)]
pub struct VideoFrameBuffer {
    pub width: u32,
    pub height: u32,
    pub rgba: Vec<u8>,
    pub pts_samples: usize,
}

/// What a [`VideoFrameBuffer`] holds.
#[verifier::ext_equal]
pub struct FrameView {
    pub width: u32,
    pub height: u32,
    pub rgba: Seq<u8>,
    pub pts_samples: usize,
}

impl View for VideoFrameBuffer {
    type V = FrameView;

    open spec fn view(&self) -> FrameView {
        FrameView {
            width: self.width,
            height: self.height,
            rgba: self.rgba@,
            pts_samples: self.pts_samples,
        }
    }
}

impl FrameView {
    /// Whether there is nothing in the frame to show.
    pub open spec fn is_blank(self) -> bool {
        self.width == 0 || self.height == 0 || self.rgba.len() == 0
    }

    /// The size and the place of the frame.
    pub open spec fn metadata(self) -> VideoFrameMetadata {
        VideoFrameMetadata {
            width: self.width,
            height: self.height,
            pts_samples: self.pts_samples,
        }
    }
}

impl VideoFrameBuffer {
    /// Whether there is nothing in the frame to show: no column, no row or no pixel data.
    pub fn is_blank(&self) -> (blank: bool)
        ensures
            blank == self@.is_blank(),
    {
        self.width == 0 || self.height == 0 || self.rgba.is_empty()
    }

    /// The size and the place of the frame.
    pub fn metadata(&self) -> (metadata: VideoFrameMetadata)
        ensures
            metadata == self@.metadata(),
    {
        VideoFrameMetadata {
            width: self.width,
            height: self.height,
            pts_samples: self.pts_samples,
        }
    }
}

impl Clone for VideoFrameBuffer {
    fn clone(&self) -> (copy: Self)
        ensures
            copy@ == self@,
    {
        let rgba: Vec<u8> = self.rgba.clone();
        assert(rgba@ =~= self.rgba@);
        VideoFrameBuffer {
            width: self.width,
            height: self.height,
            rgba,
            pts_samples: self.pts_samples,
        }
    }
}

/// A clip as the workspace shows it: a stretch of a video file on the timeline, in samples.
#[derive(Debug)]
pub struct VideoClip {
    pub path: String,
    pub start: usize,
    pub length: usize,
    pub offset: usize,
}

/// A clip as a decoder gets it.
#[derive(Debug)]
pub struct VideoClipData {
    pub path: String,
    pub start: usize,
    pub length: usize,
    pub offset: usize,
}

impl Clone for VideoClip {
    fn clone(&self) -> (copy: Self)
        ensures
            copy == *self,
    {
        VideoClip {
            path: self.path.clone(),
            start: self.start,
            length: self.length,
            offset: self.offset,
        }
    }
}

impl Clone for VideoClipData {
    fn clone(&self) -> (copy: Self)
        ensures
            copy == *self,
    {
        VideoClipData {
            path: self.path.clone(),
            start: self.start,
            length: self.length,
            offset: self.offset,
        }
    }
}

/// A frame that can be shown: one in main memory, or one of a texture registry.
pub enum VideoFrameRef<'a> {
    Cpu(&'a VideoFrameBuffer),
    Gpu { handle: VideoTextureHandle, metadata: VideoFrameMetadata },
}

impl<'a> Clone for VideoFrameRef<'a> {
    fn clone(&self) -> (copy: Self)
        ensures
            copy == *self,
    {
        match self {
            VideoFrameRef::Cpu(frame) => VideoFrameRef::Cpu(*frame),
            VideoFrameRef::Gpu { handle, metadata } => VideoFrameRef::Gpu {
                handle: *handle,
                metadata: *metadata,
            },
        }
    }
}

/// Each preference has one name, and no other text is one.
pub proof fn preferences_have_one_name(name: Seq<char>)
    ensures
        preference_named(name) == Some(VideoRuntimeBackendPreference::Auto) <==> name == "auto"@,
        preference_named(name) == Some(VideoRuntimeBackendPreference::Cpu) <==> name == "cpu"@,
        preference_named(name) == Some(VideoRuntimeBackendPreference::Vulkan) <==> name
            == "vulkan"@,
{
    reveal_strlit("auto");
    reveal_strlit("cpu");
    reveal_strlit("vulkan");
    assert("auto"@.len() == 4 && "cpu"@.len() == 3 && "vulkan"@.len() == 6);
}

/// A frame is seen as it is, and its metadata are its own size and place.
pub proof fn frame_is_seen_as_it_is(frame: VideoFrameBuffer)
    ensures
        frame@.width == frame.width,
        frame@.height == frame.height,
        frame@.rgba == frame.rgba@,
        frame@.pts_samples == frame.pts_samples,
        frame@.metadata().width == frame.width,
        frame@.metadata().height == frame.height,
        frame@.metadata().pts_samples == frame.pts_samples,
{
}

/// A frame has something to show exactly where it has a column, a row and a byte.
pub proof fn frame_with_pixels_is_not_blank(frame: FrameView)
    ensures
        !frame.is_blank() <==> frame.width > 0 && frame.height > 0 && frame.rgba.len() > 0,
{
}

} // verus!
