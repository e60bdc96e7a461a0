//! Pixel work: taking rows out of a decoder's picture, thumbnail sizes, and strips of thumbnails.
use vstd::prelude::*;

verus! {

/// The height of a preview thumbnail, in pixels.
pub const PREVIEW_THUMB_HEIGHT: u32 = 48;

/// The number of thumbnails in a preview strip.
pub const PREVIEW_MAX_THUMBS: usize = 8;

/// The first `rows` rows of a picture whose rows start `stride` bytes apart, each cut to
/// `row_len` bytes, one behind the other.
pub open spec fn packed_rows(data: Seq<u8>, stride: int, row_len: int, rows: int) -> Seq<u8>
    decreases rows,
{
    if rows <= 0 {
        Seq::empty()
    } else {
        packed_rows(data, stride, row_len, rows - 1) + data.subrange(
            (rows - 1) * stride,
            (rows - 1) * stride + row_len,
        )
    }
}

/// Whether a picture of `len` bytes holds `rows` rows of `row_len` bytes, `stride` bytes apart.
pub open spec fn rows_inside(len: int, stride: int, row_len: int, rows: int) -> bool {
    rows > 0 ==> (rows - 1) * stride + row_len <= len
}

/// Whether `data` holds a picture of the given size, and whether its pixels fit in memory once
/// more.
pub fn picture_holds(data: &[u8], stride: usize, width: u32, height: u32) -> (holds: bool)
    ensures
        holds == (rows_inside(data@.len() as int, stride as int, width * 4, height as int) && width
            * height * 4 <= isize::MAX),
{
    let width: u128 = width as u128;
    let height: u128 = height as u128;
    proof {
        assert(width * height <= 0xffff_ffff * 0xffff_ffff) by (nonlinear_arith)
            requires
                width <= 0xffff_ffff,
                height <= 0xffff_ffff,
        ;
        assert(width * height * 4 == width * 4 * height) by (nonlinear_arith);
    }
    if width * height * 4 > isize::MAX as u128 {
        return false;
    }
    if height == 0 {
        return true;
    }
    proof {
        assert((height - 1) * stride <= 0xffff_ffff * 0xffff_ffff_ffff_ffff) by (nonlinear_arith)
            requires
                1 <= height <= 0xffff_ffff,
                stride <= 0xffff_ffff_ffff_ffff,
        ;
        assert((height - 1) * stride >= 0) by (nonlinear_arith)
            requires
                1 <= height,
        ;
    }
    (height - 1) * (stride as u128) + width * 4 <= data.len() as u128
}

/// The RGBA pixels of a picture of `width` by `height` pixels whose rows start `stride` bytes
/// apart, without what stands between the rows.
pub fn rgba_pixels(data: &[u8], stride: usize, width: u32, height: u32) -> (pixels: Vec<u8>)
    requires
        rows_inside(data@.len() as int, stride as int, width * 4, height as int),
        width * height * 4 <= isize::MAX,
    ensures
        pixels@ == packed_rows(data@, stride as int, width * 4, height as int),
{
    let mut pixels: Vec<u8> = Vec::new();
    if height == 0 {
        return pixels;
    }
    proof {
        assert(width * 4 <= width * height * 4) by (nonlinear_arith)
            requires
                height >= 1,
                width >= 0,
        ;
    }
    let row_len: usize = width as usize * 4;
    let len: usize = data.len();
    let mut y: u32 = 0;
    while y < height
        invariant
            len == data@.len(),
            row_len == width * 4,
            y <= height,
            rows_inside(data@.len() as int, stride as int, row_len as int, height as int),
            pixels@ == packed_rows(data@, stride as int, row_len as int, y as int),
        decreases height - y,
    {
        proof {
            assert(0 <= y * stride <= (height - 1) * stride) by (nonlinear_arith)
                requires
                    0 <= y <= height - 1,
                    stride >= 0,
            ;
        }
        let start: usize = y as usize * stride;
        let row: &[u8] = &data[start..start + row_len];
        let ghost before: Seq<u8> = pixels@;
        pixels.extend_from_slice(row);
        assert(pixels@ =~= before + data@.subrange(y * stride, y * stride + row_len));
        y = y + 1;
    }
    pixels
}

/// Packed rows hold `row_len` bytes each, and every byte of a row stands where it stood in its
/// row of the picture.
pub proof fn packed_rows_keep_bytes(
    data: Seq<u8>,
    stride: int,
    row_len: int,
    rows: int,
    y: int,
    x: int,
)
    requires
        0 <= stride,
        0 <= row_len,
        0 <= rows,
        rows_inside(data.len() as int, stride, row_len, rows),
        0 <= y < rows,
        0 <= x < row_len,
    ensures
        packed_rows(data, stride, row_len, rows).len() == rows * row_len,
        0 <= y * row_len + x < rows * row_len,
        packed_rows(data, stride, row_len, rows)[y * row_len + x] == data[y * stride + x],
{
    lemma_packed_len(data, stride, row_len, rows);
    lemma_packed_byte(data, stride, row_len, rows, y, x);
}

/// Packed rows hold `row_len` bytes each.
pub(crate) proof fn lemma_packed_len(data: Seq<u8>, stride: int, row_len: int, rows: int)
    requires
        0 <= stride,
        0 <= row_len,
        0 <= rows,
        rows_inside(data.len() as int, stride, row_len, rows),
    ensures
        packed_rows(data, stride, row_len, rows).len() == rows * row_len,
    decreases rows,
{
    if rows > 0 {
        lemma_row_inside(data.len() as int, stride, row_len, rows);
        lemma_packed_len(data, stride, row_len, rows - 1);
        assert((rows - 1) * row_len + row_len == rows * row_len) by (nonlinear_arith);
    } else {
        assert(rows * row_len == 0) by (nonlinear_arith)
            requires
                rows == 0,
        ;
    }
}

/// Where a picture holds its last row, it holds all rows before it.
proof fn lemma_row_inside(len: int, stride: int, row_len: int, rows: int)
    requires
        0 <= stride,
        rows > 0,
        rows_inside(len, stride, row_len, rows),
    ensures
        rows_inside(len, stride, row_len, rows - 1),
        0 <= (rows - 1) * stride,
{
    assert(0 <= (rows - 1) * stride && (rows - 2) * stride <= (rows - 1) * stride)
        by (nonlinear_arith)
        requires
            0 <= stride,
            rows >= 1,
    ;
}

proof fn lemma_packed_byte(data: Seq<u8>, stride: int, row_len: int, rows: int, y: int, x: int)
    requires
        0 <= stride,
        0 <= row_len,
        rows_inside(data.len() as int, stride, row_len, rows),
        0 <= y < rows,
        0 <= x < row_len,
    ensures
        0 <= y * row_len + x < rows * row_len,
        packed_rows(data, stride, row_len, rows)[y * row_len + x] == data[y * stride + x],
    decreases rows,
{
    assert(0 <= y * row_len && y * row_len + row_len <= rows * row_len) by (nonlinear_arith)
        requires
            0 <= y < rows,
            0 <= row_len,
    ;
    lemma_row_inside(data.len() as int, stride, row_len, rows);
    lemma_packed_len(data, stride, row_len, rows - 1);
    if y == rows - 1 {
    } else {
        lemma_packed_byte(data, stride, row_len, rows - 1, y, x);
    }
}

/// The pixel format and the size of a decoder's picture.
#[derive(Debug, Clone, Copy, PartialEq, Eq, Structural)]
pub struct PictureShape {
    pub format: i32,
    pub width: u32,
    pub height: u32,
}

/// A number of pixels, one at least.
pub open spec fn at_least_one(n: u32) -> u32 {
    if n < 1 {
        1
    } else {
        n
    }
}

impl PictureShape {
    /// The shape of a picture, which is taken to have one column and one row at least.
    pub fn new(format: i32, width: u32, height: u32) -> (shape: Self)
        ensures
            shape == (PictureShape {
                format,
                width: at_least_one(width),
                height: at_least_one(height),
            }),
    {
        PictureShape {
            format,
            width: if width < 1 { 1 } else { width },
            height: if height < 1 { 1 } else { height },
        }
    }

    /// Whether a scaler for pictures of the shape `scaler` cannot convert a picture of this one.
    pub fn needs_new_scaler(&self, scaler: Option<PictureShape>) -> (needed: bool)
        ensures
            needed == (scaler != Some(*self)),
    {
        match scaler {
            Some(shape) => shape != *self,
            None => true,
        }
    }
}

/// The height of the thumbnail of a picture of the given height.
pub open spec fn thumb_height_of(height: u32) -> u32 {
    if height == 0 {
        1
    } else if height < PREVIEW_THUMB_HEIGHT {
        height
    } else {
        PREVIEW_THUMB_HEIGHT
    }
}

/// `a / b` to the nearest whole number, with halves upward.
pub open spec fn nearest(a: int, b: int) -> int {
    (2 * a + b) / (2 * b)
}

/// The width of the thumbnail of a picture of the given size: the one that keeps its shape, to
/// the nearest pixel, and at least one.
pub open spec fn thumb_width_of(width: u32, height: u32) -> int {
    let scaled = nearest(width * thumb_height_of(height), height as int);
    if scaled < 1 {
        1
    } else {
        scaled
    }
}

/// The width and the height of the thumbnail of a picture of the given size.
pub fn thumb_size(width: u32, height: u32) -> (size: (u32, u32))
    requires
        height > 0,
    ensures
        size.0 == thumb_width_of(width, height),
        size.1 == thumb_height_of(height),
{
    let thumb_height: u32 = if height < PREVIEW_THUMB_HEIGHT {
        height
    } else {
        PREVIEW_THUMB_HEIGHT
    };
    proof {
        assert(width * thumb_height <= 0xffff_ffff * 48) by (nonlinear_arith)
            requires
                width <= 0xffff_ffff,
                thumb_height <= 48,
        ;
        assert((2 * (width * thumb_height) + height) / (2 * height) <= width) by (nonlinear_arith)
            requires
                0 < thumb_height <= height,
                width >= 0,
        ;
    }
    let area: u64 = width as u64 * thumb_height as u64;
    let scaled: u64 = (2 * area + height as u64) / (2 * height as u64);
    let thumb_width: u32 = if scaled < 1 { 1 } else { scaled as u32 };
    (thumb_width, thumb_height)
}

/// A thumbnail is as high as its picture, and at most as high as a strip, and no wider than its
/// picture.
pub proof fn thumbs_only_shrink(width: u32, height: u32)
    requires
        width > 0,
        height > 0,
    ensures
        1 <= thumb_height_of(height) <= height,
        thumb_height_of(height) <= PREVIEW_THUMB_HEIGHT,
        1 <= thumb_width_of(width, height) <= width,
{
    let thumb_height = thumb_height_of(height);
    assert((2 * (width * thumb_height) + height) / (2 * height as int) <= width)
        by (nonlinear_arith)
        requires
            0 < thumb_height <= height,
            width >= 0,
    ;
}

/// A scaled picture for a preview strip.
#[derive(Debug)]
pub struct Thumb {
    pub width: u32,
    pub height: u32,
    pub pixels: Vec<u8>,
}

/// What a [`Thumb`] holds.
#[verifier::ext_equal]
pub struct ThumbView {
    pub width: u32,
    pub height: u32,
    pub pixels: Seq<u8>,
}

impl View for Thumb {
    type V = ThumbView;

    open spec fn view(&self) -> ThumbView {
        ThumbView { width: self.width, height: self.height, pixels: self.pixels@ }
    }
}

impl Clone for Thumb {
    fn clone(&self) -> (copy: Self)
        ensures
            copy@ == self@,
    {
        let pixels: Vec<u8> = self.pixels.clone();
        assert(pixels@ =~= self.pixels@);
        Thumb { width: self.width, height: self.height, pixels }
    }
}

/// What a sequence of thumbnails holds.
pub open spec fn thumbs_view(thumbs: Seq<Thumb>) -> Seq<ThumbView> {
    thumbs.map_values(|thumb: Thumb| thumb@)
}

/// The sum of the widths of `thumbs`.
pub open spec fn total_width(thumbs: Seq<ThumbView>) -> nat
    decreases thumbs.len(),
{
    if thumbs.len() == 0 {
        0
    } else {
        total_width(thumbs.drop_last()) + thumbs.last().width as nat
    }
}

/// Row `y` of a thumbnail.
pub open spec fn thumb_row(thumb: ThumbView, y: int) -> Seq<u8> {
    thumb.pixels.subrange(y * (thumb.width * 4), y * (thumb.width * 4) + thumb.width * 4)
}

/// Row `y` of thumbnails that stand side by side.
pub open spec fn strip_row(thumbs: Seq<ThumbView>, y: int) -> Seq<u8>
    decreases thumbs.len(),
{
    if thumbs.len() == 0 {
        Seq::empty()
    } else {
        strip_row(thumbs.drop_last(), y) + thumb_row(thumbs.last(), y)
    }
}

/// The first `rows` rows of thumbnails that stand side by side, one behind the other.
pub open spec fn strip_rows(thumbs: Seq<ThumbView>, rows: int) -> Seq<u8>
    decreases rows,
{
    if rows <= 0 {
        Seq::empty()
    } else {
        strip_rows(thumbs, rows - 1) + strip_row(thumbs, rows - 1)
    }
}

/// Whether `thumbs` can stand side by side in a strip of `rows` rows: each holds that many rows,
/// and the strip fits in memory.
pub open spec fn thumbs_fit(thumbs: Seq<ThumbView>, rows: int) -> bool {
    &&& forall|i: int|
        0 <= i < thumbs.len() ==> rows * ((#[trigger] thumbs[i]).width * 4)
            <= thumbs[i].pixels.len()
    &&& total_width(thumbs) <= u32::MAX
    &&& total_width(thumbs) * rows * 4 <= isize::MAX
}

/// Thumbnails at the front are no wider than all of them.
proof fn lemma_total_width_prefix(thumbs: Seq<ThumbView>, n: int)
    requires
        0 <= n <= thumbs.len(),
    ensures
        total_width(thumbs.take(n)) <= total_width(thumbs),
    decreases thumbs.len(),
{
    if n == thumbs.len() {
        assert(thumbs.take(n) =~= thumbs);
    } else {
        assert(thumbs.drop_last().take(n) =~= thumbs.take(n));
        lemma_total_width_prefix(thumbs.drop_last(), n);
    }
}

/// The sum of the widths of the thumbnails, where it fits in `u32`.
pub(crate) fn sum_widths(thumbs: &Vec<Thumb>) -> (sum: Option<u32>)
    ensures
        match sum {
            Some(sum) => sum == total_width(thumbs_view(thumbs@)),
            None => total_width(thumbs_view(thumbs@)) > u32::MAX,
        },
{
    let ghost views = thumbs_view(thumbs@);
    let mut sum: u32 = 0;
    let mut i: usize = 0;
    while i < thumbs.len()
        invariant
            i <= thumbs.len(),
            views == thumbs_view(thumbs@),
            sum == total_width(views.take(i as int)),
        decreases thumbs.len() - i,
    {
        proof {
            assert(views.take(i + 1).drop_last() =~= views.take(i as int));
            lemma_total_width_prefix(views, i + 1);
        }
        match sum.checked_add(thumbs[i].width) {
            Some(next) => {
                sum = next;
            },
            None => {
                return None;
            },
        }
        i = i + 1;
    }
    assert(views.take(i as int) =~= views);
    Some(sum)
}

/// Whether `thumbs` can stand side by side in a strip of `rows` rows.
pub fn thumbs_fit_strip(thumbs: &Vec<Thumb>, rows: u32) -> (fit: bool)
    ensures
        fit == thumbs_fit(thumbs_view(thumbs@), rows as int),
{
    let ghost views = thumbs_view(thumbs@);
    let sum: u32 = match sum_widths(thumbs) {
        Some(sum) => sum,
        None => return false,
    };
    proof {
        assert(sum * rows <= 0xffff_ffff * 0xffff_ffff) by (nonlinear_arith)
            requires
                sum <= 0xffff_ffff,
                rows <= 0xffff_ffff,
        ;
    }
    if sum as u128 * rows as u128 * 4 > isize::MAX as u128 {
        return false;
    }
    let mut i: usize = 0;
    while i < thumbs.len()
        invariant
            i <= thumbs.len(),
            views == thumbs_view(thumbs@),
            forall|j: int|
                0 <= j < i ==> rows * ((#[trigger] views[j]).width * 4) <= views[j].pixels.len(),
        decreases thumbs.len() - i,
    {
        let width: u32 = thumbs[i].width;
        proof {
            assert(views[i as int] == thumbs@[i as int]@);
            assert(rows * (width * 4) <= 0xffff_ffff * 0x3_ffff_fffc) by (nonlinear_arith)
                requires
                    width <= 0xffff_ffff,
                    rows <= 0xffff_ffff,
            ;
        }
        if rows as u128 * (width as u128 * 4) > thumbs[i].pixels.len() as u128 {
            return false;
        }
        i = i + 1;
    }
    true
}

/// The pixels of a strip of `rows` rows in which `thumbs` stand side by side.
pub fn strip_pixels(thumbs: &Vec<Thumb>, rows: u32) -> (pixels: Vec<u8>)
    requires
        thumbs_fit(thumbs_view(thumbs@), rows as int),
    ensures
        pixels@ == strip_rows(thumbs_view(thumbs@), rows as int),
{
    let ghost views = thumbs_view(thumbs@);
    let mut pixels: Vec<u8> = Vec::new();
    let mut y: u32 = 0;
    while y < rows
        invariant
            y <= rows,
            views == thumbs_view(thumbs@),
            thumbs_fit(views, rows as int),
            pixels@ == strip_rows(views, y as int),
        decreases rows - y,
    {
        let ghost done: Seq<u8> = pixels@;
        let mut i: usize = 0;
        while i < thumbs.len()
            invariant
                i <= thumbs.len(),
                y < rows,
                views == thumbs_view(thumbs@),
                thumbs_fit(views, rows as int),
                pixels@ == done + strip_row(views.take(i as int), y as int),
            decreases thumbs.len() - i,
        {
            let width: u32 = thumbs[i].width;
            let available: usize = thumbs[i].pixels.len();
            proof {
                assert(views[i as int] == thumbs@[i as int]@);
                assert(rows * (width * 4) <= available);
                assert(0 <= y * (width * 4) && y * (width * 4) + width * 4 <= rows * (width * 4))
                    by (nonlinear_arith)
                    requires
                        0 <= y < rows,
                        width >= 0,
                ;
            }
            let row_bytes: usize = width as usize * 4;
            let start: usize = y as usize * row_bytes;
            let row: &[u8] = &thumbs[i].pixels.as_slice()[start..start + row_bytes];
            let ghost before: Seq<u8> = pixels@;
            pixels.extend_from_slice(row);
            assert(pixels@ =~= before + thumb_row(views[i as int], y as int));
            assert(views.take(i + 1).drop_last() =~= views.take(i as int));
            assert(pixels@ =~= done + strip_row(views.take(i + 1), y as int));
            i = i + 1;
        }
        assert(views.take(i as int) =~= views);
        y = y + 1;
    }
    assert(pixels@ =~= strip_rows(views, rows as int));
    pixels
}

/// A row of a strip is four bytes per pixel of all its thumbnails.
proof fn lemma_strip_row_len(thumbs: Seq<ThumbView>, rows: int, y: int)
    requires
        forall|i: int|
            0 <= i < thumbs.len() ==> rows * ((#[trigger] thumbs[i]).width * 4)
                <= thumbs[i].pixels.len(),
        0 <= y < rows,
    ensures
        strip_row(thumbs, y).len() == total_width(thumbs) * 4,
    decreases thumbs.len(),
{
    if thumbs.len() > 0 {
        let shorter = thumbs.drop_last();
        assert forall|i: int| 0 <= i < shorter.len() implies rows * ((#[trigger] shorter[i]).width * 4)
            <= shorter[i].pixels.len() by {
            assert(shorter[i] == thumbs[i]);
        }
        lemma_strip_row_len(shorter, rows, y);
        let width = thumbs.last().width;
        assert(0 <= y * (width * 4) && y * (width * 4) + width * 4 <= rows * (width * 4))
            by (nonlinear_arith)
            requires
                0 <= y < rows,
                width >= 0,
        ;
        assert(thumbs.last() == thumbs[thumbs.len() - 1]);
    }
}

/// Thumbnails at the front are the front of a row of all of them.
proof fn lemma_strip_row_prefix(thumbs: Seq<ThumbView>, rows: int, y: int, n: int)
    requires
        forall|i: int|
            0 <= i < thumbs.len() ==> rows * ((#[trigger] thumbs[i]).width * 4)
                <= thumbs[i].pixels.len(),
        0 <= y < rows,
        0 <= n <= thumbs.len(),
    ensures
        strip_row(thumbs.take(n), y).is_prefix_of(strip_row(thumbs, y)),
    decreases thumbs.len(),
{
    if n == thumbs.len() {
        assert(thumbs.take(n) =~= thumbs);
        assert(strip_row(thumbs, y).subrange(0, strip_row(thumbs, y).len() as int) =~= strip_row(
            thumbs,
            y,
        ));
    } else {
        let shorter = thumbs.drop_last();
        assert forall|i: int| 0 <= i < shorter.len() implies rows * ((#[trigger] shorter[i]).width * 4)
            <= shorter[i].pixels.len() by {
            assert(shorter[i] == thumbs[i]);
        }
        lemma_strip_row_prefix(shorter, rows, y, n);
        assert(shorter.take(n) =~= thumbs.take(n));
        let front = strip_row(thumbs.take(n), y);
        let row = strip_row(shorter, y);
        assert(front =~= (row + thumb_row(thumbs.last(), y)).subrange(0, front.len() as int)) by {
            assert(front =~= row.subrange(0, front.len() as int));
        }
    }
}

/// A strip shows every thumbnail unchanged, side by side: byte `x` of row `y` of a thumbnail
/// stands in row `y` of the strip, behind the rows of the thumbnails to its left.
pub proof fn strip_shows_every_thumb(thumbs: Seq<ThumbView>, rows: int, n: int, y: int, x: int)
    requires
        thumbs_fit(thumbs, rows),
        0 <= n < thumbs.len(),
        0 <= y < rows,
        0 <= x < thumbs[n].width * 4,
    ensures
        strip_rows(thumbs, rows).len() == rows * (total_width(thumbs) * 4),
        ({
            let at = y * (total_width(thumbs) * 4) + total_width(thumbs.take(n)) * 4 + x;
            &&& 0 <= at < strip_rows(thumbs, rows).len()
            &&& strip_rows(thumbs, rows)[at] == thumbs[n].pixels[y * (thumbs[n].width * 4) + x]
        }),
{
    lemma_strip_rows_len(thumbs, rows, rows);
    let row = strip_row(thumbs, y);
    lemma_strip_row_len(thumbs, rows, y);
    let upto = thumbs.take(n + 1);
    lemma_strip_row_prefix(thumbs, rows, y, n + 1);
    assert(upto.drop_last() =~= thumbs.take(n));
    assert(upto.last() == thumbs[n]);
    assert forall|i: int| 0 <= i < upto.len() implies rows * ((#[trigger] upto[i]).width * 4)
        <= upto[i].pixels.len() by {
        assert(upto[i] == thumbs[i]);
    }
    lemma_strip_row_len(upto, rows, y);
    assert forall|i: int| 0 <= i < n implies rows * ((#[trigger] thumbs.take(n)[i]).width * 4)
        <= thumbs.take(n)[i].pixels.len() by {
        assert(thumbs.take(n)[i] == thumbs[i]);
    }
    lemma_strip_row_len(thumbs.take(n), rows, y);
    let width = thumbs[n].width;
    assert(0 <= y * (width * 4) && y * (width * 4) + width * 4 <= rows * (width * 4))
        by (nonlinear_arith)
        requires
            0 <= y < rows,
            width >= 0,
    ;
    let across = total_width(thumbs.take(n)) * 4 + x;
    assert(strip_row(upto, y)[across] == thumb_row(thumbs[n], y)[x]);
    assert(strip_row(upto, y) =~= row.subrange(0, strip_row(upto, y).len() as int));
    assert(row[across] == thumb_row(thumbs[n], y)[x]);
    lemma_strip_byte(thumbs, rows, rows, y, across);
}

/// Rows of a strip are four bytes per pixel of all its thumbnails each.
proof fn lemma_strip_rows_len(thumbs: Seq<ThumbView>, rows: int, n: int)
    requires
        forall|i: int|
            0 <= i < thumbs.len() ==> rows * ((#[trigger] thumbs[i]).width * 4)
                <= thumbs[i].pixels.len(),
        0 <= n <= rows,
    ensures
        strip_rows(thumbs, n).len() == n * (total_width(thumbs) * 4),
    decreases n,
{
    let row_len = total_width(thumbs) * 4;
    if n > 0 {
        lemma_strip_rows_len(thumbs, rows, n - 1);
        lemma_strip_row_len(thumbs, rows, n - 1);
        assert((n - 1) * row_len + row_len == n * row_len) by (nonlinear_arith);
    } else {
        assert(n * row_len == 0) by (nonlinear_arith)
            requires
                n == 0,
        ;
    }
}

proof fn lemma_strip_byte(thumbs: Seq<ThumbView>, rows: int, n: int, y: int, across: int)
    requires
        forall|i: int|
            0 <= i < thumbs.len() ==> rows * ((#[trigger] thumbs[i]).width * 4)
                <= thumbs[i].pixels.len(),
        0 <= y < n <= rows,
        0 <= across < total_width(thumbs) * 4,
    ensures
        0 <= y * (total_width(thumbs) * 4) + across < strip_rows(thumbs, n).len(),
        strip_rows(thumbs, n)[y * (total_width(thumbs) * 4) + across] == strip_row(thumbs, y)[across],
    decreases n,
{
    let row_len = total_width(thumbs) * 4;
    lemma_strip_rows_len(thumbs, rows, n);
    lemma_strip_rows_len(thumbs, rows, n - 1);
    lemma_strip_row_len(thumbs, rows, y);
    assert(0 <= y * row_len && y * row_len + row_len <= n * row_len) by (nonlinear_arith)
        requires
            0 <= y < n,
            0 <= row_len,
    ;
    if y < n - 1 {
        lemma_strip_byte(thumbs, rows, n - 1, y, across);
    }
}

/// A picture holds its rows exactly where each of them ends inside it.
pub proof fn rows_inside_end_inside(len: int, stride: int, row_len: int, rows: int)
    requires
        0 <= stride,
        0 <= rows,
    ensures
        rows_inside(len, stride, row_len, rows) <==> forall|y: int|
            0 <= y < rows ==> #[trigger] (y * stride) + row_len <= len,
{
    if rows > 0 {
        if rows_inside(len, stride, row_len, rows) {
            assert forall|y: int| 0 <= y < rows implies #[trigger] (y * stride) + row_len <= len by {
                assert(y * stride <= (rows - 1) * stride) by (nonlinear_arith)
                    requires
                        y <= rows - 1,
                        0 <= stride,
                ;
            }
        }
    }
}

/// A thumbnail is 48 rows high, or as high as its picture where that has fewer, and as wide as keeps
/// the shape of the picture to half a pixel, with halves upward; and one pixel wide at least.
pub proof fn thumb_keeps_shape_of_picture(width: u32, height: u32)
    requires
        height > 0,
    ensures
        ({
            let thumb_width = thumb_width_of(width, height);
            let thumb_height = thumb_height_of(height);
            &&& height <= 48 ==> thumb_height == height
            &&& height >= 48 ==> thumb_height == 48
            &&& thumb_width >= 1
            &&& 2 * (width * thumb_height) < 2 * (thumb_width * height) + height
            &&& thumb_width > 1 ==> 2 * (thumb_width * height) <= 2 * (width * thumb_height)
                + height
        }),
{
    let a = width * thumb_height_of(height);
    let b = height as int;
    let q = nearest(a, b);
    assert(2 * (q * b) <= 2 * a + b < 2 * (q * b) + 2 * b) by (nonlinear_arith)
        requires
            q == (2 * a + b) / (2 * b),
            b > 0,
    ;
    assert(q < 1 ==> q * b <= 0) by (nonlinear_arith)
        requires
            b > 0,
    ;
}

/// A picture is taken to have one column and one row at least, and else as it is.
pub proof fn empty_size_counts_as_one(n: u32)
    ensures
        n == 0 ==> at_least_one(n) == 1,
        n > 0 ==> at_least_one(n) == n,
{
}

/// A strip is as wide as its thumbnails together: one more thumbnail adds its own width.
pub proof fn widths_add_up(thumbs: Seq<ThumbView>, thumb: ThumbView)
    ensures
        total_width(Seq::empty()) == 0,
        total_width(thumbs.push(thumb)) == total_width(thumbs) + thumb.width,
{
    assert(thumbs.push(thumb).drop_last() =~= thumbs);
}

/// Thumbnails are seen as they are, one by one and in their order.
pub proof fn thumbs_are_seen_as_they_are(thumbs: Seq<Thumb>, i: int)
    requires
        0 <= i < thumbs.len(),
    ensures
        thumbs_view(thumbs).len() == thumbs.len(),
        thumbs_view(thumbs)[i].width == thumbs[i].width,
        thumbs_view(thumbs)[i].height == thumbs[i].height,
        thumbs_view(thumbs)[i].pixels == thumbs[i].pixels@,
{
}

/// Thumbnails can stand side by side exactly where each holds the rows of the strip, the strip's
/// width fits in `u32`, and its pixels of four bytes fit in memory.
pub proof fn fitting_thumbs_hold_all_rows(thumbs: Seq<ThumbView>, rows: int)
    ensures
        thumbs_fit(thumbs, rows) <==> {
            &&& forall|i: int|
                0 <= i < thumbs.len() ==> (#[trigger] thumbs[i]).pixels.len() >= 4
                    * thumbs[i].width * rows
            &&& total_width(thumbs) <= u32::MAX
            &&& 4 * (total_width(thumbs) * rows) <= isize::MAX
        },
{
    assert forall|i: int| 0 <= i < thumbs.len() implies rows * ((#[trigger] thumbs[i]).width * 4)
        == 4 * thumbs[i].width * rows by {
        let w = thumbs[i].width;
        assert(rows * (w * 4) == 4 * w * rows) by (nonlinear_arith);
    }
}

} // verus!
