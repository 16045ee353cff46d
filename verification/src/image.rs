//! Paletted images: full-rectangle bitmaps with a trailing embedded
//! palette, and vertically sparse sprites whose rows are spans copied out
//! of a compacted pixel stream, with an external palette looked up by id.

use vstd::prelude::*;

use crate::bytes::{as_i16, le16, le32};
use crate::error::LodError;
use crate::lod_data::inflated_bytes;
use crate::palette::Palettes;
use crate::zlib::{decompress, inflated};

verus! {

/// Byte size of a bitmap entry's header.
pub const BITMAP_HEADER_SIZE: usize = 48;

/// Byte size of a sprite entry's header.
pub const SPRITE_HEADER_SIZE: usize = 32;

/// Byte size of an embedded palette: 256 RGB triples.
pub const IMAGE_PALETTE_SIZE: usize = 768;

/// A decoded paletted image. The pixel buffer may be longer than
/// `width * height` (trailing mip levels); only the leading
/// `width * height` bytes are meaningful.
pub struct Image {
    /// Image height in pixels.
    pub height: usize,
    /// Image width in pixels.
    pub width: usize,
    /// Palette indices, row-major; at least `width * height` bytes.
    pub data: Vec<u8>,
    /// 256 RGB triples.
    pub palette: Vec<u8>,
    /// Whether the palette index at buffer position 0 renders transparent.
    pub transparency: bool,
}

impl Image {
    /// A decoded image is well formed: the palette is whole, the buffer
    /// covers the rectangle, and both dimensions fit 16 bits.
    pub open spec fn wf(&self) -> bool {
        &&& self.palette@.len() == 768
        &&& self.data@.len() >= self.width * self.height
        &&& self.width <= 0xffff
        &&& self.height <= 0xffff
        &&& 4 * (self.width * self.height) <= usize::MAX
    }
}

/// A sequence with the bytes at `at .. at + v.len()` replaced by `v`.
pub open spec fn seq_write(s: Seq<u8>, at: int, v: Seq<u8>) -> Seq<u8>
    recommends
        0 <= at,
        at + v.len() <= s.len(),
{
    s.take(at) + v + s.skip(at + v.len())
}

/// One step per sprite row: a row whose span table entry is negative is
/// skipped (the cursor retreats by one column); otherwise `end - start + 1`
/// bytes are copied from the stream at the row's offset into the buffer at
/// column `start`, and the cursor advances a full row. `None` is a decode
/// failure: a reversed span, a span past the row, or a copy out of bounds.
pub open spec fn sprite_rows(
    data: Seq<u8>,
    t: Seq<u8>,
    w: int,
    img: Seq<u8>,
    cur: int,
    r: int,
    h: int,
) -> Option<Seq<u8>>
    decreases h - r,
{
    if r >= h {
        Some(img)
    } else {
        let start = as_i16(le16(t, 8 * r));
        let endc = as_i16(le16(t, 8 * r + 2));
        let off = le32(t, 8 * r + 4);
        if start < 0 || endc < 0 {
            if w < 1 {
                None
            } else {
                sprite_rows(data, t, w, img, cur + (w - 1), r + 1, h)
            }
        } else if endc < start || start > w {
            None
        } else {
            let chunk = endc - start + 1;
            if off + chunk > data.len() || cur + start + chunk > img.len() {
                None
            } else {
                let img2 = seq_write(img, cur + start, data.subrange(off, off + chunk));
                sprite_rows(data, t, w, img2, cur + w, r + 1, h)
            }
        }
    }
}

/// The full sprite buffer: every pixel defaults to palette index 0, then
/// each row's span is copied in.
pub open spec fn sprite_decoded(data: Seq<u8>, t: Seq<u8>, w: int, h: int) -> Option<Seq<u8>> {
    sprite_rows(data, t, w, Seq::new((w * h) as nat, |i: int| 0u8), 0, 0, h)
}

/// A successful sprite decode keeps the buffer length.
pub proof fn lemma_sprite_rows_len(
    data: Seq<u8>,
    t: Seq<u8>,
    w: int,
    img: Seq<u8>,
    cur: int,
    r: int,
    h: int,
)
    requires
        0 <= cur,
        sprite_rows(data, t, w, img, cur, r, h) is Some,
    ensures
        sprite_rows(data, t, w, img, cur, r, h) matches Some(v) && v.len() == img.len(),
    decreases h - r,
{
    if r < h {
        let start = as_i16(le16(t, 8 * r));
        let endc = as_i16(le16(t, 8 * r + 2));
        let off = le32(t, 8 * r + 4);
        if start < 0 || endc < 0 {
            lemma_sprite_rows_len(data, t, w, img, cur + (w - 1), r + 1, h);
        } else {
            let chunk = endc - start + 1;
            let img2 = seq_write(img, cur + start, data.subrange(off, off + chunk));
            assert(img2.len() == img.len());
            lemma_sprite_rows_len(data, t, w, img2, cur + w, r + 1, h);
        }
    }
}

/// Why decoding a bitmap entry fails, if it does.
pub open spec fn bitmap_err(d: Seq<u8>) -> Option<LodError> {
    if d.len() < 44 {
        Some(LodError::Truncated)
    } else if le32(d, 16) == 0 {
        Some(LodError::ZeroPixelSize)
    } else if d.len() <= 816 {
        Some(LodError::InsufficientData)
    } else {
        let payload = d.subrange(48, d.len() - 768);
        if payload.len() != le32(d, 20) {
            Some(LodError::SizeMismatch)
        } else if inflated(payload) is None {
            Some(LodError::Truncated)
        } else if inflated_bytes(payload).len() != le32(d, 40) {
            Some(LodError::SizeMismatch)
        } else if inflated_bytes(payload).len() < le16(d, 24) * le16(d, 26) || 4 * (le16(d, 24)
            * le16(d, 26)) > usize::MAX {
            Some(LodError::InsufficientData)
        } else {
            None
        }
    }
}

impl Image {
    /// Decode a bitmap entry: a 48-byte header with pixel count,
    /// compressed size, dimensions and uncompressed size, a zlib payload,
    /// and a trailing 768-byte palette. The result has no transparency.
    pub fn try_from(d: &[u8]) -> (r: Result<Image, LodError>)
        ensures
            match r {
                Ok(img) => {
                    &&& bitmap_err(d@) is None
                    &&& img.wf()
                    &&& img.width == le16(d@, 24)
                    &&& img.height == le16(d@, 26)
                    &&& img.data@ == inflated_bytes(d@.subrange(48, d@.len() - 768))
                    &&& img.palette@ == d@.subrange(d@.len() - 768, d@.len() as int)
                    &&& img.transparency == false
                },
                Err(e) => bitmap_err(d@) == Some(e),
            },
    {
        let len: usize = d.len();
        if len < 44 {
            return Err(LodError::Truncated);
        }
        let pixel_size: u32 = crate::bytes::read_u32_le(d, 16);
        let compressed_size: u32 = crate::bytes::read_u32_le(d, 20);
        let width: u16 = crate::bytes::read_u16_le(d, 24);
        let height: u16 = crate::bytes::read_u16_le(d, 26);
        let uncompressed_size: u32 = crate::bytes::read_u32_le(d, 40);
        if pixel_size == 0 {
            return Err(LodError::ZeroPixelSize);
        }
        if len <= BITMAP_HEADER_SIZE + IMAGE_PALETTE_SIZE {
            return Err(LodError::InsufficientData);
        }
        let payload: &[u8] = &d[48..len - 768];
        proof {
            assert(payload@ =~= d@.subrange(48, d@.len() - 768));
        }
        if payload.len() != compressed_size as usize {
            return Err(LodError::SizeMismatch);
        }
        let data: Vec<u8> = match decompress(
            payload,
            compressed_size as usize,
            uncompressed_size as usize,
        ) {
            Ok(v) => v,
            Err(e) => {
                return Err(e);
            },
        };
        proof {
            assert(width as int * height as int <= 0xffff * 0xffff) by (nonlinear_arith)
                requires
                    width <= 0xffff,
                    height <= 0xffff,
            ;
        }
        let area: u64 = width as u64 * height as u64;
        if (data.len() as u64) < area || 4 * area > usize::MAX as u64 {
            return Err(LodError::InsufficientData);
        }
        let palette: Vec<u8> = crate::bytes::copy_range(d, len - 768, len);
        Ok(
            Image {
                height: height as usize,
                width: width as usize,
                data,
                palette,
                transparency: false,
            },
        )
    }
}

/// Why decoding a sprite entry against a palette table fails, if it does.
pub open spec fn sprite_err(d: Seq<u8>, pals: Map<u16, Seq<u8>>) -> Option<LodError> {
    if d.len() < 32 {
        Some(LodError::Truncated)
    } else if !pals.contains_key(le16(d, 20) as u16) {
        Some(LodError::PaletteNotFound)
    } else if d.len() <= 32 + 8 * le16(d, 18) {
        Some(LodError::InsufficientData)
    } else if 4 * (le16(d, 16) * le16(d, 18)) > usize::MAX {
        Some(LodError::InsufficientData)
    } else {
        let payload = d.skip(32 + 8 * le16(d, 18));
        if payload.len() != le32(d, 12) {
            Some(LodError::SizeMismatch)
        } else if inflated(payload) is None {
            Some(LodError::Truncated)
        } else if inflated_bytes(payload).len() != le32(d, 28) {
            Some(LodError::SizeMismatch)
        } else if sprite_decoded(
            inflated_bytes(payload),
            d.subrange(32, 32 + 8 * le16(d, 18)),
            le16(d, 16),
            le16(d, 18),
        ) is None {
            Some(LodError::Truncated)
        } else {
            None
        }
    }
}

impl Image {
    /// Decode a sprite entry: a 32-byte header naming an external palette
    /// id, a per-row span table of `height` entries, and a zlib-compressed
    /// pixel stream. The result is transparent on the palette index stored
    /// at buffer position 0.
    pub fn try_from_with_palettes(d: &[u8], palettes: &Palettes) -> (r: Result<Image, LodError>)
        requires
            crate::palette::palettes_wf(palettes@),
        ensures
            match r {
                Ok(img) => {
                    &&& sprite_err(d@, palettes@) is None
                    &&& img.wf()
                    &&& img.width == le16(d@, 16)
                    &&& img.height == le16(d@, 18)
                    &&& Some(img.data@) == sprite_decoded(
                        inflated_bytes(d@.skip(32 + 8 * le16(d@, 18))),
                        d@.subrange(32, 32 + 8 * le16(d@, 18)),
                        le16(d@, 16),
                        le16(d@, 18),
                    )
                    &&& img.data@.len() == img.width * img.height
                    &&& img.palette@ == palettes@[le16(d@, 20) as u16]
                    &&& img.transparency == true
                },
                Err(e) => sprite_err(d@, palettes@) == Some(e),
            },
    {
        let len: usize = d.len();
        if len < 32 {
            return Err(LodError::Truncated);
        }
        let compressed_size: u32 = crate::bytes::read_u32_le(d, 12);
        let width: u16 = crate::bytes::read_u16_le(d, 16);
        let height: u16 = crate::bytes::read_u16_le(d, 18);
        let palette_id: u16 = crate::bytes::read_u16_le(d, 20);
        let uncompressed_size: u32 = crate::bytes::read_u32_le(d, 28);
        let palette: &crate::palette::Palette = match palettes.get(palette_id) {
            Some(p) => p,
            None => {
                return Err(LodError::PaletteNotFound);
            },
        };
        let table_size: usize = height as usize * 8;
        if len <= SPRITE_HEADER_SIZE + table_size {
            return Err(LodError::InsufficientData);
        }
        proof {
            assert(width as int * height as int <= 0xffff * 0xffff) by (nonlinear_arith)
                requires
                    width <= 0xffff,
                    height <= 0xffff,
            ;
        }
        let area: u64 = width as u64 * height as u64;
        if 4 * area > usize::MAX as u64 {
            return Err(LodError::InsufficientData);
        }
        let table: &[u8] = &d[32..32 + table_size];
        let payload: &[u8] = &d[32 + table_size..len];
        proof {
            assert(table@ =~= d@.subrange(32, 32 + 8 * le16(d@, 18)));
            assert(payload@ =~= d@.skip(32 + 8 * le16(d@, 18)));
        }
        if payload.len() != compressed_size as usize {
            return Err(LodError::SizeMismatch);
        }
        let stream: Vec<u8> = match decompress(
            payload,
            compressed_size as usize,
            uncompressed_size as usize,
        ) {
            Ok(v) => v,
            Err(e) => {
                return Err(e);
            },
        };
        let data: Vec<u8> = match process_sprite_data(
            stream.as_slice(),
            table,
            width as usize,
            height as usize,
        ) {
            Ok(v) => v,
            Err(e) => {
                return Err(e);
            },
        };
        let pal: Vec<u8> = palette.data.clone();
        proof {
            lemma_sprite_rows_len(
                stream@,
                table@,
                width as int,
                Seq::new((width as int * height as int) as nat, |i: int| 0u8),
                0,
                0,
                height as int,
            );
        }
        Ok(
            Image {
                height: height as usize,
                width: width as usize,
                data,
                palette: pal,
                transparency: true,
            },
        )
    }
}

/// Rebuild a sprite's full `width * height` pixel buffer out of its span
/// table and compacted pixel stream. Every pixel defaults to index 0.
fn process_sprite_data(data: &[u8], table: &[u8], width: usize, height: usize) -> (r: Result<
    Vec<u8>,
    LodError,
>)
    requires
        table@.len() == 8 * height,
        width <= 0xffff,
        height <= 0xffff,
        width * height <= usize::MAX,
    ensures
        match r {
            Ok(v) => Some(v@) == sprite_decoded(data@, table@, width as int, height as int),
            Err(e) => sprite_decoded(data@, table@, width as int, height as int) is None && e
                == LodError::Truncated,
        },
{
    let area: usize = width * height;
    let mut img: Vec<u8> = vec![0u8; area];
    let mut cur: usize = 0;
    let mut r: usize = 0;
    proof {
        assert(img@ =~= Seq::new((width * height) as nat, |i: int| 0u8));
    }
    while r < height
        invariant
            r <= height,
            table@.len() == 8 * height,
            width <= 0xffff,
            height <= 0xffff,
            img@.len() == width * height,
            width * height <= usize::MAX,
            cur <= r * width,
            sprite_decoded(data@, table@, width as int, height as int) == sprite_rows(
                data@,
                table@,
                width as int,
                img@,
                cur as int,
                r as int,
                height as int,
            ),
        decreases height - r,
    {
        let start: i16 = crate::bytes::read_i16_le(table, 8 * r);
        let endc: i16 = crate::bytes::read_i16_le(table, 8 * r + 2);
        let off: u32 = crate::bytes::read_u32_le(table, 8 * r + 4);
        if start < 0 || endc < 0 {
            if width < 1 {
                return Err(LodError::Truncated);
            }
            proof {
                assert(cur + (width - 1) <= (r + 1) * width && (r + 1) * width <= height * width
                    && height * width == width * height) by (nonlinear_arith)
                    requires
                        cur <= r * width,
                        width >= 1,
                        r < height,
                ;
            }
            cur = cur + (width - 1);
            r += 1;
            continue ;
        }
        if endc < start || start as usize > width {
            return Err(LodError::Truncated);
        }
        let chunk: usize = (endc - start) as usize + 1;
        proof {
            assert(cur + width <= (r + 1) * width && (r + 1) * width <= height * width && height
                * width == width * height && width * height <= 0xffff * 0xffff) by (
            nonlinear_arith)
                requires
                    cur <= r * width,
                    r < height,
                    width <= 0xffff,
                    height <= 0xffff,
            ;
        }
        let p: usize = cur + start as usize;
        if (off as u64 + chunk as u64 > data.len() as u64) || (p as u64 + chunk as u64
            > img.len() as u64) {
            return Err(LodError::Truncated);
        }
        let ghost img_before = img@;
        let mut q: usize = 0;
        while q < chunk
            invariant
                q <= chunk,
                img@.len() == img_before.len(),
                off + chunk <= data@.len(),
                data@.len() <= usize::MAX,
                p + chunk <= img@.len(),
                img@.len() <= usize::MAX,
                forall|x: int| 0 <= x < p ==> img@[x] == img_before[x],
                forall|x: int| 0 <= x < q ==> #[trigger] img@[p + x] == data@[off + x],
                forall|x: int| p + chunk <= x < img@.len() ==> img@[x] == img_before[x],
                forall|x: int| p + q <= x < img@.len() ==> img@[x] == img_before[x],
            decreases chunk - q,
        {
            let b: u8 = data[off as usize + q];
            img.set(p + q, b);
            q += 1;
        }
        proof {
            let v = data@.subrange(off as int, off + chunk);
            let sw = seq_write(img_before, p as int, v);
            assert(sw.len() == img@.len());
            assert forall|x: int| 0 <= x < img@.len() implies img@[x] == sw[x] by {
                if p <= x < p + chunk {
                    assert(sw[x] == v[x - p]);
                    assert(v[x - p] == data@[off + (x - p)]);
                    assert(img@[p + (x - p)] == data@[off + (x - p)]);
                }
            }
            assert(img@ =~= sw);
        }
        cur = p + (width - start as usize);
        r += 1;
    }
    Ok(img)
}

/// A full-color image: 4 bytes (red, green, blue, alpha) per pixel,
/// row-major.
pub struct RgbaImage {
    /// Image width in pixels.
    pub width: usize,
    /// Image height in pixels.
    pub height: usize,
    /// The pixel bytes: exactly `4 * width * height`.
    pub data: Vec<u8>,
}

impl RgbaImage {
    /// The buffer holds exactly the rectangle.
    pub open spec fn wf(&self) -> bool {
        self.data@.len() == 4 * (self.width * self.height)
    }
}

/// Byte `k` of the full-color rendering of a paletted buffer: pixel `k / 4`,
/// channel `k % 4`. The color channels come from the palette entry of the
/// pixel's index; the alpha channel is 0 exactly when the image is
/// transparent and the index equals the index at buffer position 0, else 255.
pub open spec fn rgba_byte(data: Seq<u8>, palette: Seq<u8>, transparency: bool, k: int) -> u8 {
    let i = k / 4;
    let c = k % 4;
    if c < 3 {
        palette[3 * data[i] + c]
    } else if transparency && data[i] == data[0] {
        0
    } else {
        255
    }
}

/// The full-color rendering of the first `n` pixels of a paletted buffer.
pub open spec fn rgba_of(data: Seq<u8>, palette: Seq<u8>, transparency: bool, n: int) -> Seq<u8> {
    Seq::new((4 * n) as nat, |k: int| rgba_byte(data, palette, transparency, k))
}

impl Image {
    /// Render the paletted image as full color, reading exactly the
    /// leading `width * height` bytes of the buffer.
    pub fn to_image_buffer(&self) -> (r: RgbaImage)
        requires
            self.wf(),
        ensures
            r.wf(),
            r.width == self.width,
            r.height == self.height,
            r.data@ == rgba_of(
                self.data@,
                self.palette@,
                self.transparency,
                self.width * self.height,
            ),
    {
        let n: usize = self.width * self.height;
        let mut out: Vec<u8> = Vec::new();
        let first: u8 = if n > 0 {
            self.data[0]
        } else {
            0
        };
        let mut i: usize = 0;
        while i < n
            invariant
                self.wf(),
                i <= n == self.width * self.height,
                n > 0 ==> first == self.data@[0],
                out@.len() == 4 * i,
                forall|k: int|
                    0 <= k < 4 * i ==> out@[k] == rgba_byte(
                        self.data@,
                        self.palette@,
                        self.transparency,
                        k,
                    ),
            decreases n - i,
        {
            let idx: u8 = self.data[i];
            let base: usize = 3 * idx as usize;
            out.push(self.palette[base]);
            out.push(self.palette[base + 1]);
            out.push(self.palette[base + 2]);
            let alpha: u8 = if self.transparency && idx == first {
                0
            } else {
                255
            };
            out.push(alpha);
            proof {
                assert forall|k: int| 4 * i <= k < 4 * (i + 1) implies out@[k] == rgba_byte(
                    self.data@,
                    self.palette@,
                    self.transparency,
                    k,
                ) by {
                    assert(k / 4 == i && k % 4 == k - 4 * i);
                }
            }
            i += 1;
        }
        proof {
            assert(out@ =~= rgba_of(
                self.data@,
                self.palette@,
                self.transparency,
                self.width * self.height,
            ));
        }
        RgbaImage { width: self.width, height: self.height, data: out }
    }
}

/// What `image::imageops::resize` with the triangle filter returns for the
/// given pixels and dimensions: a function of its arguments alone.
pub uninterp spec fn triangle_resized(data: Seq<u8>, w: int, h: int, nw: int, nh: int) -> Seq<u8>;

/// Relies on `image::imageops::resize` with `FilterType::Triangle`: the
/// result is an image of exactly the requested dimensions, and depends on
/// the pixels and dimensions alone. `from_raw` accepts every buffer whose
/// length matches its dimensions, as the caller here guarantees, so the
/// fallback arm never runs.
#[verifier::external_body]
fn resize_rgba(data: &Vec<u8>, w: u32, h: u32, nw: u32, nh: u32) -> (r: Vec<u8>)
    requires
        data@.len() == 4 * ((w as int) * (h as int)),
        w >= 1,
        h >= 1,
        nw >= 1,
        nh >= 1,
        4 * ((nw as int) * (nh as int)) <= usize::MAX,
    ensures
        r@ == triangle_resized(data@, w as int, h as int, nw as int, nh as int),
        r@.len() == 4 * ((nw as int) * (nh as int)),
{
    let img = match image::ImageBuffer::<image::Rgba<u8>, Vec<u8>>::from_raw(w, h, data.clone()) {
        Some(b) => b,
        None => image::ImageBuffer::new(w, h),
    };
    image::imageops::resize(&img, nw, nh, image::imageops::FilterType::Triangle).into_raw()
}

/// The magic color key: a pixel whose red, green and blue channels are
/// exactly (0, 255, 255) is treated as transparent while compositing.
pub open spec fn is_color_key(src: Seq<u8>, base: int) -> bool {
    &&& src[base] == 0
    &&& src[base + 1] == 255
    &&& src[base + 2] == 255
}

/// The pixel buffers of a tile sequence.
pub open spec fn rgba_views(s: Seq<RgbaImage>) -> Seq<Seq<u8>> {
    s.map_values(|im: RgbaImage| im.data@)
}

/// Byte `k` of an atlas built from 128-by-128 tiles laid out row-major in a
/// grid `gw` tiles wide: pixels of cells past the tile list, and pixels
/// matching the color key, stay zero.
pub open spec fn atlas_byte(imgs: Seq<Seq<u8>>, gw: int, k: int) -> u8 {
    let p = k / 4;
    let c = k % 4;
    let wout = 128 * gw;
    let x = p % wout;
    let y = p / wout;
    let cell = (y / 128) * gw + x / 128;
    let sx = x % 128;
    let sy = y % 128;
    let base = 4 * (sy * 128 + sx);
    if cell < imgs.len() && !is_color_key(imgs[cell], base) {
        imgs[cell][base + c]
    } else {
        0
    }
}

/// Number of grid rows needed for `n` tiles in rows of `gw`.
pub open spec fn grid_rows(n: int, gw: int) -> int {
    (n + gw - 1) / gw
}

/// Composite 128-by-128 tiles into one atlas image, row-major in a grid
/// `grid_width` tiles wide, skipping color-keyed pixels.
pub fn join_images_in_grid(images: &Vec<RgbaImage>, grid_width: usize) -> (r: RgbaImage)
    requires
        1 <= images@.len() <= 0xffff,
        grid_width >= 1,
        forall|i: int|
            0 <= i < images@.len() ==> (#[trigger] images@[i]).wf() && images@[i].width == 128
                && images@[i].height == 128,
        128 * grid_width <= 0xffff,
        128 * grid_rows(images@.len() as int, grid_width as int) <= 0xffff,
        4 * ((128 * grid_width) * (128 * grid_rows(images@.len() as int, grid_width as int)))
            <= usize::MAX,
    ensures
        r.wf(),
        r.width == 128 * grid_width,
        r.height == 128 * grid_rows(images@.len() as int, grid_width as int),
        r.data@ == Seq::new(
            (4 * (r.width * r.height)) as nat,
            |k: int| atlas_byte(rgba_views(images@), grid_width as int, k),
        ),
{
    let n: usize = images.len();
    let rows: usize = (n + grid_width - 1) / grid_width;
    let wout: usize = 128 * grid_width;
    let hout: usize = 128 * rows;
    let ghost imgs = rgba_views(images@);
    proof {
        assert(rows >= 1) by (nonlinear_arith)
            requires
                rows as int == (n as int + grid_width - 1) / (grid_width as int),
                n >= 1,
                grid_width >= 1,
        ;
        assert(wout * hout <= 0xffff * 0xffff) by (nonlinear_arith)
            requires
                wout <= 0xffff,
                hout <= 0xffff,
        ;
        assert(wout as int * hout as int == (128 * grid_width as int) * (128 * rows as int)) by (
        nonlinear_arith)
            requires
                wout == 128 * grid_width,
                hout == 128 * rows,
        ;
        assert(4 * (wout * hout) <= usize::MAX);
    }
    let total: usize = wout * hout;
    let mut out: Vec<u8> = Vec::new();
    let mut p: usize = 0;
    while p < total
        invariant
            p <= total == wout * hout,
            wout == 128 * grid_width,
            hout == 128 * grid_rows(images@.len() as int, grid_width as int),
            grid_width >= 1,
            n == images@.len(),
            imgs == rgba_views(images@),
            forall|i: int|
                0 <= i < images@.len() ==> (#[trigger] images@[i]).wf() && images@[i].width == 128
                    && images@[i].height == 128,
            4 * total <= usize::MAX,
            rows >= 1,
            rows <= 0xffff,
            grid_width <= 0xffff,
            hout == 128 * rows,
            out@.len() == 4 * p,
            forall|k: int| 0 <= k < 4 * p ==> out@[k] == atlas_byte(imgs, grid_width as int, k),
        decreases total - p,
    {
        let x: usize = p % wout;
        let y: usize = p / wout;
        proof {
            assert(y < hout && x < wout) by (nonlinear_arith)
                requires
                    p < wout * hout,
                    x as int == p as int % (wout as int),
                    y as int == p as int / (wout as int),
                    wout >= 1,
            ;
            assert(y / 128 < rows && x / 128 < grid_width && (y / 128) * grid_width + x / 128
                < rows * grid_width && rows * grid_width <= 0xffff * 0xffff) by (nonlinear_arith)
                requires
                    y < hout,
                    x < wout,
                    wout == 128 * grid_width,
                    hout == 128 * rows,
                    grid_width >= 1,
                    rows >= 1,
                    rows <= 0xffff,
                    grid_width <= 0xffff,
            ;
        }
        let cell: usize = (y / 128) * grid_width + x / 128;
        let sx: usize = x % 128;
        let sy: usize = y % 128;
        let base: usize = 4 * (sy * 128 + sx);
        if cell < n {
            let src: &Vec<u8> = &images[cell].data;
            proof {
                assert(images@[cell as int].wf());
                assert(src@.len() == 4 * (128 * 128));
                assert(sy * 128 + sx < 128 * 128);
            }
            if src[base] == 0 && src[base + 1] == 255 && src[base + 2] == 255 {
                out.push(0);
                out.push(0);
                out.push(0);
                out.push(0);
            } else {
                out.push(src[base]);
                out.push(src[base + 1]);
                out.push(src[base + 2]);
                out.push(src[base + 3]);
            }
        } else {
            out.push(0);
            out.push(0);
            out.push(0);
            out.push(0);
        }
        proof {
            assert forall|k: int| 4 * p <= k < 4 * (p + 1) implies out@[k] == atlas_byte(
                imgs,
                grid_width as int,
                k,
            ) by {
                assert(k / 4 == p && k % 4 == k - 4 * p);
                assert(imgs.len() == images@.len());
                if cell < n {
                    assert(rgba_views(images@)[cell as int] == images@[cell as int].data@);
                }
            }
        }
        p += 1;
    }
    proof {
        assert(out@ =~= Seq::new(
            (4 * (wout * hout)) as nat,
            |k: int| atlas_byte(imgs, grid_width as int, k),
        ));
    }
    RgbaImage { width: wout, height: hout, data: out }
}

/// The virtual path of a tile bitmap: the `bitmaps` archive namespace.
pub open spec fn bitmaps_path(nm: Seq<char>) -> Seq<char> {
    "bitmaps/"@ + nm
}

/// The bytes a path resolves to (empty if it resolves to nothing).
pub open spec fn resolved_bytes(
    m: Map<Seq<char>, Map<Seq<char>, Seq<u8>>>,
    p: Seq<char>,
) -> Seq<u8> {
    match crate::resolve_spec(m, p) {
        Some(b) => b,
        None => Seq::empty(),
    }
}

/// Why one named tile bitmap cannot be turned into a 128-by-128 atlas
/// tile: its path resolves to nothing, its bitmap does not decode, or a
/// dimension is zero and it cannot be resized.
pub open spec fn tile_err(m: Map<Seq<char>, Map<Seq<char>, Seq<u8>>>, nm: Seq<char>) -> Option<
    LodError,
> {
    match crate::resolve_spec(m, bitmaps_path(nm)) {
        None => Some(LodError::MissingAsset),
        Some(bytes) => match bitmap_err(bytes) {
            Some(e) => Some(e),
            None => if le16(bytes, 24) == 0 || le16(bytes, 26) == 0 {
                Some(LodError::ZeroPixelSize)
            } else {
                None
            },
        },
    }
}

/// The 128-by-128 full-color tile a named bitmap yields: its decoded
/// pixels rendered through its embedded palette, resized with the triangle
/// filter when it is not already 128 by 128.
pub open spec fn tile_rgba(m: Map<Seq<char>, Map<Seq<char>, Seq<u8>>>, nm: Seq<char>) -> Seq<u8> {
    let bytes = resolved_bytes(m, bitmaps_path(nm));
    let w = le16(bytes, 24);
    let h = le16(bytes, 26);
    let img = rgba_of(
        inflated_bytes(bytes.subrange(48, bytes.len() - 768)),
        bytes.subrange(bytes.len() - 768, bytes.len() as int),
        false,
        w * h,
    );
    if w == 128 && h == 128 {
        img
    } else {
        triangle_resized(img, w, h, 128, 128)
    }
}

/// The name views of a tile name list.
pub open spec fn name_views(s: Seq<String>) -> Seq<Seq<char>> {
    s.map_values(|x: String| x@)
}

/// The first tile of the list from index `i` on that fails, if any.
pub open spec fn atlas_err(
    m: Map<Seq<char>, Map<Seq<char>, Seq<u8>>>,
    names: Seq<Seq<char>>,
    i: int,
) -> Option<LodError>
    decreases names.len() - i,
{
    if i < 0 || i >= names.len() {
        None
    } else {
        match tile_err(m, names[i]) {
            Some(e) => Some(e),
            None => atlas_err(m, names, i + 1),
        }
    }
}

/// The atlas tiles of a name list.
pub open spec fn atlas_tiles(
    m: Map<Seq<char>, Map<Seq<char>, Seq<u8>>>,
    names: Seq<Seq<char>>,
) -> Seq<Seq<u8>> {
    Seq::new(names.len(), |i: int| tile_rgba(m, names[i]))
}

/// Build a pixel atlas out of named tile bitmaps: each name is looked up
/// under the `bitmaps` namespace of the archive set, decoded, rendered,
/// resized to 128 by 128 where needed, and composited row-major into a
/// grid `row_size` tiles wide.
pub fn get_atlas(manager: &crate::LodManager, names: &Vec<String>, row_size: usize) -> (r: Result<
    RgbaImage,
    LodError,
>)
    requires
        1 <= names@.len() <= 0xffff,
        row_size >= 1,
        128 * row_size <= 0xffff,
        128 * grid_rows(names@.len() as int, row_size as int) <= 0xffff,
        4 * ((128 * row_size) * (128 * grid_rows(names@.len() as int, row_size as int)))
            <= usize::MAX,
    ensures
        r is Ok <==> atlas_err(manager@, name_views(names@), 0) is None,
        match r {
            Ok(a) => {
                &&& a.wf()
                &&& a.width == 128 * row_size
                &&& a.height == 128 * grid_rows(names@.len() as int, row_size as int)
                &&& a.data@ == Seq::new(
                    (4 * (a.width * a.height)) as nat,
                    |k: int|
                        atlas_byte(
                            atlas_tiles(manager@, name_views(names@)),
                            row_size as int,
                            k,
                        ),
                )
            },
            Err(e) => atlas_err(manager@, name_views(names@), 0) == Some(e),
        },
{
    let n: usize = names.len();
    let mut images: Vec<RgbaImage> = Vec::new();
    let mut i: usize = 0;
    while i < n
        invariant
            n == names@.len(),
            i <= n,
            images@.len() == i,
            forall|j: int| 0 <= j < i ==> tile_err(manager@, name_views(names@)[j]) is None,
            forall|j: int|
                0 <= j < i ==> (#[trigger] images@[j]).wf() && images@[j].width == 128
                    && images@[j].height == 128,
            forall|j: int|
                0 <= j < i ==> (#[trigger] images@[j]).data@ == tile_rgba(
                    manager@,
                    name_views(names@)[j],
                ),
            atlas_err(manager@, name_views(names@), 0) == atlas_err(
                manager@,
                name_views(names@),
                i as int,
            ),
        decreases n - i,
    {
        let ghost nm = name_views(names@)[i as int];
        let mut path: String = <String as vstd::string::StringExecFns>::from_str("bitmaps/");
        <String as vstd::string::StringExecFns>::append(&mut path, names[i].as_str());
        proof {
            assert(path@ == bitmaps_path(nm));
        }
        let bytes: &[u8] = match manager.try_get_bytes(path.as_str()) {
            Ok(v) => v,
            Err(_) => {
                return Err(LodError::MissingAsset);
            },
        };
        let img: Image = match Image::try_from(bytes) {
            Ok(v) => v,
            Err(e) => {
                return Err(e);
            },
        };
        let rgba: RgbaImage = img.to_image_buffer();
        if img.width == 128 && img.height == 128 {
            images.push(rgba);
        } else {
            if img.width == 0 || img.height == 0 {
                return Err(LodError::ZeroPixelSize);
            }
            let resized: Vec<u8> = resize_rgba(
                &rgba.data,
                img.width as u32,
                img.height as u32,
                128,
                128,
            );
            images.push(RgbaImage { width: 128, height: 128, data: resized });
        }
        i += 1;
    }
    let atlas: RgbaImage = join_images_in_grid(&images, row_size);
    proof {
        assert(rgba_views(images@) =~= atlas_tiles(manager@, name_views(names@)));
        assert(atlas.data@ =~= Seq::new(
            (4 * (atlas.width * atlas.height)) as nat,
            |k: int| atlas_byte(atlas_tiles(manager@, name_views(names@)), row_size as int, k),
        ));
    }
    Ok(atlas)
}

/// Rendering reads exactly the leading `n = width * height` bytes of the
/// pixel buffer: two buffers that agree there render identically through
/// the same palette, whatever trailing bytes either carries.
pub proof fn lemma_rgba_reads_exact_rectangle(
    data1: Seq<u8>,
    data2: Seq<u8>,
    palette: Seq<u8>,
    transparency: bool,
    n: int,
)
    requires
        0 <= n <= data1.len(),
        n <= data2.len(),
        forall|i: int| 0 <= i < n ==> data1[i] == data2[i],
    ensures
        rgba_of(data1, palette, transparency, n) == rgba_of(data2, palette, transparency, n),
{
    assert forall|k: int| 0 <= k < 4 * n implies rgba_byte(data1, palette, transparency, k)
        == rgba_byte(data2, palette, transparency, k) by {
        assert(0 <= k / 4 < n);
        assert(data1[k / 4] == data2[k / 4]);
        assert(data1[0] == data2[0]);
    }
    assert(rgba_of(data1, palette, transparency, n) =~= rgba_of(
        data2,
        palette,
        transparency,
        n,
    ));
}

proof fn lemma_sprite_rows_all_skipped(
    data: Seq<u8>,
    t: Seq<u8>,
    w: int,
    img: Seq<u8>,
    cur: int,
    r: int,
    h: int,
)
    requires
        w >= 1,
        forall|q: int|
            r <= q < h ==> (as_i16(le16(t, 8 * q)) < 0 || as_i16(#[trigger] le16(t, 8 * q + 2))
                < 0),
    ensures
        sprite_rows(data, t, w, img, cur, r, h) == Some(img),
    decreases h - r,
{
    if r < h {
        lemma_sprite_rows_all_skipped(data, t, w, img, cur + (w - 1), r + 1, h);
    }
}

/// A span table that marks every row as skipped decodes to the all-zero
/// buffer: every pixel keeps palette index 0.
pub proof fn lemma_sprite_all_rows_skipped(data: Seq<u8>, t: Seq<u8>, w: int, h: int)
    requires
        w >= 1,
        forall|q: int|
            0 <= q < h ==> (as_i16(le16(t, 8 * q)) < 0 || as_i16(#[trigger] le16(t, 8 * q + 2))
                < 0),
    ensures
        sprite_decoded(data, t, w, h) == Some(Seq::new((w * h) as nat, |i: int| 0u8)),
{
    lemma_sprite_rows_all_skipped(data, t, w, Seq::new((w * h) as nat, |i: int| 0u8), 0, 0, h);
}

/// The transparency rule renders an all-zero buffer fully transparent:
/// every pixel's index equals the index at buffer position 0, so every
/// alpha byte is 0.
pub proof fn lemma_zero_buffer_renders_transparent(palette: Seq<u8>, n: int)
    requires
        0 < n,
    ensures
        forall|i: int|
            0 <= i < n ==> #[trigger] zero_buffer_rgba(palette, n)[4 * i + 3] == 0,
{
    let zeros = Seq::new(n as nat, |x: int| 0u8);
    assert forall|i: int| 0 <= i < n implies #[trigger] zero_buffer_rgba(palette, n)[4 * i + 3]
        == 0 by {
        assert((4 * i + 3) / 4 == i && (4 * i + 3) % 4 == 3);
        assert(zeros[i] == 0 && zeros[0] == 0);
    }
}

/// The rendering of an all-zero pixel buffer marked transparent.
pub open spec fn zero_buffer_rgba(palette: Seq<u8>, n: int) -> Seq<u8> {
    rgba_of(Seq::new(n as nat, |x: int| 0u8), palette, true, n)
}

} // verus!
