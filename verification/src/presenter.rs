//! What a renderer is handed to show a frame.
use crate::types::{VideoFrameRef, VideoTextureHandle};
use vstd::prelude::*;

verus! {

/// A handle of an image of the toolkit, from `iced`.
#[verifier::external_type_specification]
#[verifier::external_body]
pub struct ExImageHandle(iced::widget::image::Handle);

/// The width, the height and the RGBA bytes that an image handle holds.
pub uninterp spec fn rgba_image(handle: iced::widget::image::Handle) -> (u32, u32, Seq<u8>);

/// Calls `Handle::from_rgba` of `iced`: the handle that it gives holds the size and the bytes that
/// it was given. Nothing is said of the number by which the toolkit tells handles apart, which is
/// another one for each call.
#[verifier::external_body]
fn image_from_rgba(width: u32, height: u32, pixels: Vec<u8>) -> (handle:
    iced::widget::image::Handle)
    ensures
        rgba_image(handle) == (width, height, pixels@),
{
    iced::widget::image::Handle::from_rgba(width, height, pixels)
}

/// A frame as a renderer takes it: an image, or a texture of the registry.
pub enum PresentableFrame {
    CpuImage(iced::widget::image::Handle),
    GpuTexture(VideoTextureHandle),
}

/// Whether `presentable` shows `frame`: a frame in main memory as an image of its pixels, unless
/// there is nothing in it, and a frame of the registry as its texture.
pub open spec fn presents(frame: VideoFrameRef<'_>, presentable: Option<PresentableFrame>) -> bool {
    match frame {
        VideoFrameRef::Cpu(buffer) => if buffer@.is_blank() {
            presentable is None
        } else {
            match presentable {
                Some(PresentableFrame::CpuImage(image)) => rgba_image(image) == (
                    buffer.width,
                    buffer.height,
                    buffer.rgba@,
                ),
                _ => false,
            }
        },
        VideoFrameRef::Gpu { handle, .. } => presentable == Some(
            PresentableFrame::GpuTexture(handle),
        ),
    }
}

/// Whether `image` is the image of `frame`: only a frame in main memory has one.
pub open spec fn pictures(
    frame: VideoFrameRef<'_>,
    image: Option<iced::widget::image::Handle>,
) -> bool {
    match frame {
        VideoFrameRef::Cpu(buffer) => if buffer@.is_blank() {
            image is None
        } else {
            image is Some && rgba_image(image->0) == (buffer.width, buffer.height, buffer.rgba@)
        },
        VideoFrameRef::Gpu { .. } => image is None,
    }
}

/// Turns frames into what a renderer takes.
pub struct VideoPresenter;

impl VideoPresenter {
    pub fn new() -> (presenter: Self)
        ensures
            presenter == VideoPresenter,
    {
        VideoPresenter
    }

    /// The frame as a renderer takes it.
    pub fn presentable_frame(&self, frame: &VideoFrameRef<'_>) -> (presentable: Option<
        PresentableFrame,
    >)
        ensures
            presents(*frame, presentable),
    {
        match frame {
            VideoFrameRef::Cpu(buffer) => if buffer.is_blank() {
                None
            } else {
                let pixels: Vec<u8> = buffer.rgba.clone();
                assert(pixels@ =~= buffer.rgba@);
                Some(
                    PresentableFrame::CpuImage(
                        image_from_rgba(buffer.width, buffer.height, pixels),
                    ),
                )
            },
            VideoFrameRef::Gpu { handle, .. } => Some(PresentableFrame::GpuTexture(*handle)),
        }
    }

    /// The image of a frame in main memory.
    pub fn image_handle(&self, frame: &VideoFrameRef<'_>) -> (image: Option<
        iced::widget::image::Handle,
    >)
        ensures
            pictures(*frame, image),
    {
        match self.presentable_frame(frame) {
            Some(PresentableFrame::CpuImage(image)) => Some(image),
            Some(PresentableFrame::GpuTexture(_)) | None => None,
        }
    }
}

impl Default for VideoPresenter {
    fn default() -> (presenter: Self)
        ensures
            presenter == VideoPresenter,
    {
        VideoPresenter::new()
    }
}

/// A frame has an image exactly where it is shown as one, of the same pixels.
pub proof fn image_is_what_is_presented(
    frame: VideoFrameRef<'_>,
    presentable: Option<PresentableFrame>,
    image: Option<iced::widget::image::Handle>,
)
    requires
        presents(frame, presentable),
        pictures(frame, image),
    ensures
        image is Some <==> presentable is Some && presentable->0 is CpuImage,
        image is Some ==> rgba_image(image->0) == rgba_image(presentable->0->CpuImage_0),
        presentable is None <==> frame is Cpu && frame->Cpu_0@.is_blank(),
{
}

/// A frame in main memory is shown as an image of its own width, height and bytes, and by nothing
/// where a column, a row or its bytes are missing. A frame of the registry is shown as its own
/// texture and has no image.
pub proof fn presented_frame_keeps_size_and_pixels(
    frame: VideoFrameRef<'_>,
    presentable: Option<PresentableFrame>,
    image: Option<iced::widget::image::Handle>,
)
    requires
        presents(frame, presentable),
        pictures(frame, image),
    ensures
        frame matches VideoFrameRef::Cpu(buffer) ==> {
            let empty = buffer.width == 0 || buffer.height == 0 || buffer.rgba@.len() == 0;
            &&& empty ==> presentable is None && image is None
            &&& !empty ==> {
                &&& presentable is Some
                &&& presentable->0 is CpuImage
                &&& rgba_image(presentable->0->CpuImage_0) == (
                    buffer.width,
                    buffer.height,
                    buffer.rgba@,
                )
                &&& image is Some
                &&& rgba_image(image->0) == (buffer.width, buffer.height, buffer.rgba@)
            }
        },
        frame matches VideoFrameRef::Gpu { handle, metadata } ==> {
            &&& presentable == Some(PresentableFrame::GpuTexture(handle))
            &&& image is None
        },
{
}

} // verus!
