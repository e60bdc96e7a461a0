//! What a surface that shows a texture uploads to its device.
use crate::registry::{RegisteredVideoTextureSource, VideoTextureRegistry};
use crate::types::VideoTextureHandle;
use vstd::prelude::*;
#[allow(unused_imports)]
use crate::producer::ProducedFrame;
#[allow(unused_imports)]
use crate::registry::{RegisteredVideoTexture, RegistryView};
#[allow(unused_imports)]
use crate::types::VideoFrameMetadata;
#[allow(unused_imports)]
use crate::vulkan::{decoded_frame_is_kept, BackendView};

verus! {

/// An upload: the size and the pixels of a texture, how they lie in memory, and the revision that
/// they belong to.
#[derive(Debug)]
pub struct TextureUpload<'a> {
    pub width: u32,
    pub height: u32,
    pub bytes_per_row: u32,
    pub rows_per_image: u32,
    pub pixels: &'a Vec<u8>,
    pub revision: u64,
}

/// Whether a texture has to be uploaded where the device holds the revision `cached`.
pub open spec fn needs_upload(
    registry: RegistryView,
    handle: VideoTextureHandle,
    cached: Option<u64>,
) -> bool {
    registry.textures.contains_key(handle) && cached != Some(registry.textures[handle].revision)
}

/// The bytes of a row of RGBA pixels, as far as they can be counted.
pub open spec fn row_bytes(width: u32) -> u32 {
    if width * 4 > u32::MAX {
        u32::MAX
    } else {
        (width * 4) as u32
    }
}

fn bytes_per_row(width: u32) -> (bytes: u32)
    ensures
        bytes == row_bytes(width),
{
    match width.checked_mul(4) {
        Some(bytes) => bytes,
        None => u32::MAX,
    }
}

/// Whether `upload` holds all of `texture`.
pub open spec fn uploads(upload: TextureUpload<'_>, texture: RegisteredVideoTexture) -> bool {
    match texture.source {
        RegisteredVideoTextureSource::Rgba8 { width, height, pixels } => {
            &&& upload.width == width
            &&& upload.height == height
            &&& upload.bytes_per_row == row_bytes(width)
            &&& upload.rows_per_image == height
            &&& upload.pixels@ == pixels@
            &&& upload.revision == texture.revision
        },
    }
}

/// The upload of a texture to a device that holds the revision `cached` of it, or nothing. There
/// is none where the handle has no texture, or where the device has its revision.
pub fn texture_upload<'a>(
    registry: &'a VideoTextureRegistry,
    handle: &VideoTextureHandle,
    cached: Option<u64>,
) -> (upload: Option<TextureUpload<'a>>)
    ensures
        upload is Some <==> needs_upload(registry@, *handle, cached),
        upload is Some ==> uploads(upload->0, registry@.textures[*handle]),
{
    let registered: &RegisteredVideoTexture = match registry.get(handle) {
        Some(registered) => registered,
        None => {
            return None;
        },
    };
    if let Some(revision) = cached {
        if revision == registered.revision {
            return None;
        }
    }
    match &registered.source {
        RegisteredVideoTextureSource::Rgba8 { width, height, pixels } => Some(
            TextureUpload {
                width: *width,
                height: *height,
                bytes_per_row: bytes_per_row(*width),
                rows_per_image: *height,
                pixels,
                revision: registered.revision,
            },
        ),
    }
}

/// Once a texture is uploaded it is not uploaded again before its frame is replaced; then it is,
/// while revisions are left. The replacement of another texture does not count.
pub proof fn texture_is_uploaded_once_per_frame(
    registry: RegistryView,
    handle: VideoTextureHandle,
    replaced: VideoTextureHandle,
    metadata: VideoFrameMetadata,
    source: RegisteredVideoTextureSource,
    producer_label: String,
    fallback_reason: Option<String>,
)
    requires
        registry.revisions_left(),
        registry.textures.contains_key(handle),
    ensures
        ({
            let cached = Some(registry.textures[handle].revision);
            let after = registry.replaced(
                replaced,
                metadata,
                source,
                producer_label,
                fallback_reason,
            );
            &&& needs_upload(registry, handle, None)
            &&& !needs_upload(registry, handle, cached)
            &&& needs_upload(after, handle, cached) <==> replaced == handle
        }),
{
}

/// A frame that is decoded for a clip is uploaded to a device that holds the frame before it, or
/// none, while revisions are left.
pub proof fn decoded_frame_is_uploaded(
    backend: BackendView,
    preview: bool,
    clip_key: Seq<char>,
    generation: u64,
    produced: ProducedFrame,
    cached: Option<u64>,
)
    requires
        backend.sound(),
        backend.textures.revisions_left(),
        backend.lane(preview).decoding_generation(clip_key, generation),
        !produced.frame@.is_blank(),
        cached is Some ==> backend.has_slot(preview, clip_key) && cached
            == Some(backend.textures.textures[backend.slot(preview, clip_key)].revision),
    ensures
        ({
            let after = backend.committed(preview, clip_key, generation, Ok(produced));
            needs_upload(after.textures, after.slot(preview, clip_key), cached)
        }),
{
    decoded_frame_is_kept(backend, preview, clip_key, generation, produced);
    if backend.has_slot(preview, clip_key) {
        assert(backend.textures.textures.contains_key(backend.slot(preview, clip_key)));
    }
}

/// The rows of an upload lie as the pixels of the texture do: where the length of a row fits in
/// `u32`, it is four bytes for each pixel, so that the rows together are the bytes of the picture,
/// each row starts where the pixels of its row start, and the last ends with the last pixel.
pub proof fn upload_rows_lie_as_pixels(
    upload: TextureUpload<'_>,
    texture: RegisteredVideoTexture,
    y: int,
)
    requires
        uploads(upload, texture),
        upload.width * 4 <= u32::MAX,
        0 <= y < upload.height,
    ensures
        upload.bytes_per_row == 4 * upload.width,
        upload.bytes_per_row * upload.rows_per_image == upload.width * upload.height * 4,
        y * upload.bytes_per_row == y * upload.width * 4,
        (y + 1) * upload.bytes_per_row <= upload.width * upload.height * 4,
{
    let w = upload.width as int;
    let h = upload.height as int;
    assert(4 * w * h == w * h * 4 && y * (4 * w) == y * w * 4 && (y + 1) * (4 * w) <= w * h * 4)
        by (nonlinear_arith)
        requires
            0 <= y < h,
            w >= 0,
    ;
}

/// A row is four bytes for each pixel as long as `u32` can count them, and never more than that: one
/// more pixel is four more bytes.
pub proof fn rows_grow_by_four_bytes(width: u32)
    ensures
        row_bytes(0) == 0,
        width < u32::MAX && 4 * (width + 1) <= u32::MAX ==> row_bytes((width + 1) as u32)
            == row_bytes(width) + 4,
        width <= u32::MAX / 4 ==> row_bytes(width) == width + width + width + width,
        width > u32::MAX / 4 ==> row_bytes(width) == u32::MAX,
{
}

/// An upload holds the texture unchanged: its size, its pixels and its revision.
pub proof fn upload_holds_texture(upload: TextureUpload<'_>, texture: RegisteredVideoTexture)
    requires
        uploads(upload, texture),
    ensures
        texture.source matches RegisteredVideoTextureSource::Rgba8 { width, height, pixels } ==> {
            &&& upload.width == width
            &&& upload.height == height
            &&& upload.rows_per_image == height
            &&& upload.pixels@ == pixels@
        },
        upload.revision == texture.revision,
{
}

/// A texture is uploaded exactly where the device does not hold its revision.
pub proof fn other_revisions_are_uploaded(
    registry: RegistryView,
    handle: VideoTextureHandle,
    held: u64,
)
    ensures
        needs_upload(registry, handle, None) <==> registry.textures.dom().contains(handle),
        needs_upload(registry, handle, Some(held)) <==> registry.textures.dom().contains(handle) && (
        held < registry.textures[handle].revision || held > registry.textures[handle].revision),
{
}

} // verus!
