//! Decoded bitmaps of four bytes per pixel, and the copying of rectangles
//! out of them.

use vstd::prelude::*;
use vstd::arithmetic::div_mod::{lemma_fundamental_div_mod, lemma_fundamental_div_mod_converse};
use vstd::arithmetic::mul::lemma_mul_inequality;

verus! {

/// What a bitmap holds: its dimensions in pixels and its bytes, scanline
/// after scanline from the top, four bytes to the pixel.
pub struct Pixels {
    pub width: nat,
    pub height: nat,
    pub bytes: Seq<u8>,
}

impl Pixels {
    /// The bytes are exactly those of `width * height` pixels.
    pub open spec fn wf(self) -> bool {
        self.bytes.len() == self.width * self.height * 4
    }

    /// Place in `bytes` of channel `c` of the pixel in column `x` of
    /// scanline `y`.
    pub open spec fn index_of(self, x: int, y: int, c: int) -> int {
        (y * self.width + x) * 4 + c
    }

    /// Channel `c` of the pixel in column `x` of scanline `y`.
    pub open spec fn byte_at(self, x: int, y: int, c: int) -> u8 {
        self.bytes[self.index_of(x, y, c)]
    }

    /// Place in `bytes` that byte `i` of a rectangle `w` pixels wide, cut
    /// out at `(x0, y0)`, is copied from.
    pub open spec fn source_index(self, x0: int, y0: int, w: int, i: int) -> int {
        ((y0 + i / (w * 4)) * self.width + x0) * 4 + i % (w * 4)
    }

    /// The rectangle `[x0, x0 + w) x [y0, y0 + h)` as a bitmap of its own.
    pub open spec fn crop(self, x0: int, y0: int, w: int, h: int) -> Pixels {
        Pixels {
            width: w as nat,
            height: h as nat,
            bytes: Seq::new((w * h * 4) as nat, |i: int| self.bytes[self.source_index(x0, y0, w, i)]),
        }
    }

    /// Column of the pixel that byte `i` belongs to.
    pub open spec fn column_of(self, i: int) -> int {
        (i / 4) % (self.width as int)
    }

    /// Scanline of the pixel that byte `i` belongs to.
    pub open spec fn scanline_of(self, i: int) -> int {
        (i / 4) / (self.width as int)
    }

    /// The bitmap with `patch` painted over it, the top left corner of the
    /// patch at `(x0, y0)`.
    pub open spec fn painted(self, patch: Pixels, x0: int, y0: int) -> Pixels {
        Pixels {
            width: self.width,
            height: self.height,
            bytes: Seq::new(
                self.bytes.len(),
                |i: int|
                    {
                        let x = self.column_of(i);
                        let y = self.scanline_of(i);
                        if x0 <= x < x0 + patch.width && y0 <= y < y0 + patch.height {
                            patch.byte_at(x - x0, y - y0, i % 4)
                        } else {
                            self.bytes[i]
                        }
                    },
            ),
        }
    }

    /// The rectangle `[x0, x0 + w) x [y0, y0 + h)` lies within the bitmap.
    pub open spec fn holds_rect(self, x0: int, y0: int, w: int, h: int) -> bool {
        &&& 0 <= x0
        &&& 0 <= y0
        &&& 0 <= w
        &&& 0 <= h
        &&& x0 + w <= self.width
        &&& y0 + h <= self.height
    }
}

/// Scanline `y` of a bitmap `width` pixels wide starts at a byte that the
/// bitmap holds, as long as the bitmap has more than `y` scanlines.
pub proof fn lemma_scanline_bounds(width: int, height: int, y: int)
    requires
        0 <= width,
        0 <= y < height,
    ensures
        0 <= y * width,
        (y + 1) * width == y * width + width,
        (y + 1) * width <= height * width,
        height * width == width * height,
{
    assert(0 <= y * width) by (nonlinear_arith)
        requires
            0 <= width,
            0 <= y,
    ;
    assert((y + 1) * width == y * width + width) by (nonlinear_arith);
    lemma_mul_inequality(y + 1, height, width);
    assert(height * width == width * height) by (nonlinear_arith);
}

/// Each channel of each pixel of a bitmap has a byte of the bitmap, and a
/// byte of its own.
pub proof fn lemma_index_of(px: Pixels, x: int, y: int, c: int)
    requires
        px.wf(),
        0 <= x < px.width,
        0 <= y < px.height,
        0 <= c < 4,
    ensures
        0 <= px.index_of(x, y, c) < px.bytes.len(),
        px.column_of(px.index_of(x, y, c)) == x,
        px.scanline_of(px.index_of(x, y, c)) == y,
        px.index_of(x, y, c) % 4 == c,
{
    let width = px.width as int;
    let height = px.height as int;
    lemma_scanline_bounds(width, height, y);
    assert(width * height * 4 == (width * height) * 4);
    let p = y * width + x;
    let i = p * 4 + c;
    lemma_fundamental_div_mod_converse(i, 4, p, c);
    lemma_fundamental_div_mod_converse(p, width, y, x);
}

/// Each byte of a bitmap is a channel of one of its pixels.
pub proof fn lemma_byte_of_pixel(px: Pixels, i: int)
    requires
        px.wf(),
        0 <= i < px.bytes.len(),
    ensures
        0 <= px.column_of(i) < px.width,
        0 <= px.scanline_of(i) < px.height,
        0 <= i % 4 < 4,
        px.index_of(px.column_of(i), px.scanline_of(i), i % 4) == i,
{
    let width = px.width as int;
    let height = px.height as int;
    assert(width * height * 4 == (width * height) * 4);
    let p = i / 4;
    assert(0 <= p < width * height);
    assert(width > 0) by (nonlinear_arith)
        requires
            0 <= p < width * height,
            0 <= width,
    ;
    lemma_fundamental_div_mod(i, 4);
    lemma_fundamental_div_mod(p, width);
    let y = p / width;
    let x = p % width;
    assert(0 <= x < width);
    assert(p == width * y + x);
    assert(0 <= y < height) by (nonlinear_arith)
        requires
            p == width * y + x,
            0 <= x < width,
            0 <= p < width * height,
    ;
    assert(width * y == y * width) by (nonlinear_arith);
    assert(4 * p == p * 4);
}

/// A cropped rectangle holds, pixel for pixel, what the source holds at the
/// rectangle's place.
pub proof fn lemma_crop_byte_at(src: Pixels, x0: int, y0: int, w: int, h: int, x: int, y: int, c: int)
    requires
        src.holds_rect(x0, y0, w, h),
        0 <= x < w,
        0 <= y < h,
        0 <= c < 4,
    ensures
        src.crop(x0, y0, w, h).wf(),
        0 <= src.crop(x0, y0, w, h).index_of(x, y, c) < src.crop(x0, y0, w, h).bytes.len(),
        src.crop(x0, y0, w, h).byte_at(x, y, c) == src.byte_at(x0 + x, y0 + y, c),
{
    let cropped = src.crop(x0, y0, w, h);
    let i = (y * w + x) * 4 + c;
    lemma_scanline_bounds(w, h, y);
    assert(w * h * 4 == (w * h) * 4);
    assert(0 <= i < w * h * 4);
    assert(i == y * (w * 4) + (x * 4 + c)) by (nonlinear_arith)
        requires
            i == (y * w + x) * 4 + c,
    ;
    lemma_fundamental_div_mod_converse(i, w * 4, y, x * 4 + c);
    assert(cropped.index_of(x, y, c) == i);
    assert(src.source_index(x0, y0, w, i) == src.index_of(x0 + x, y0 + y, c));
}

/// A decoded bitmap of four bytes per pixel.
#[derive(Debug, PartialEq, Eq)]
pub struct Bitmap {
    width: u32,
    height: u32,
    data: Vec<u8>,
}

impl View for Bitmap {
    type V = Pixels;

    closed spec fn view(&self) -> Pixels {
        Pixels { width: self.width as nat, height: self.height as nat, bytes: self.data@ }
    }
}

impl Clone for Bitmap {
    fn clone(&self) -> (copy: Bitmap)
        ensures
            copy@ == self@,
    {
        proof {
            use_type_invariant(self);
        }
        let data = self.data.clone();
        assert(data@ =~= self.data@);
        Bitmap { width: self.width, height: self.height, data }
    }
}

impl Bitmap {
    #[verifier::type_invariant]
    spec fn well_formed(self) -> bool {
        self.data@.len() == self.width * self.height * 4
    }

    /// A bitmap of `width` by `height` pixels over `data`, if `data` has
    /// four bytes for each pixel and no others.
    pub fn new(width: u32, height: u32, data: Vec<u8>) -> (bitmap: Option<Bitmap>)
        ensures
            bitmap is Some <==> data@.len() == width * height * 4,
            bitmap matches Some(b) ==> b@ == (Pixels {
                width: width as nat,
                height: height as nat,
                bytes: data@,
            }),
    {
        assert(width * height * 4 <= 0xffff_ffff * 0xffff_ffff * 4) by (nonlinear_arith)
            requires
                0 <= width <= 0xffff_ffff,
                0 <= height <= 0xffff_ffff,
        ;
        let wanted: u128 = (width as u128) * (height as u128) * 4;
        if data.len() as u128 == wanted {
            Some(Bitmap { width, height, data })
        } else {
            None
        }
    }

    /// Width in pixels.
    pub fn width(&self) -> (width: u32)
        ensures
            width == self@.width,
            self@.wf(),
            self@.bytes.len() <= usize::MAX,
    {
        proof {
            use_type_invariant(self);
            assert(self.data@.len() == self.data.len());
        }
        self.width
    }

    /// Height in pixels.
    pub fn height(&self) -> (height: u32)
        ensures
            height == self@.height,
            self@.wf(),
            self@.bytes.len() <= usize::MAX,
    {
        proof {
            use_type_invariant(self);
            assert(self.data@.len() == self.data.len());
        }
        self.height
    }

    /// Number of bytes: four for each pixel.
    pub fn byte_len(&self) -> (len: usize)
        ensures
            len == self@.bytes.len(),
            self@.wf(),
    {
        proof {
            use_type_invariant(self);
        }
        self.data.len()
    }

    /// The bytes, scanline after scanline.
    pub fn data(&self) -> (data: &Vec<u8>)
        ensures
            data@ == self@.bytes,
            self@.wf(),
    {
        proof {
            use_type_invariant(self);
        }
        &self.data
    }

    /// A bitmap of `width` by `height` pixels whose bytes are all zero, if
    /// the machine can address that many bytes.
    pub fn blank(width: u32, height: u32) -> (bitmap: Option<Bitmap>)
        ensures
            bitmap is Some <==> width * height * 4 <= usize::MAX,
            bitmap matches Some(b) ==> b@ == (Pixels {
                width: width as nat,
                height: height as nat,
                bytes: Seq::new((width * height * 4) as nat, |i: int| 0u8),
            }),
    {
        let pixels = match (width as usize).checked_mul(height as usize) {
            Some(pixels) => pixels,
            None => {
                assert(width * height * 4 >= width * height) by (nonlinear_arith);
                return None;
            },
        };
        let len = match pixels.checked_mul(4) {
            Some(len) => len,
            None => {
                return None;
            },
        };
        let data = vec![0u8; len];
        assert(data@ =~= Seq::new((width * height * 4) as nat, |i: int| 0u8));
        Some(Bitmap { width, height, data })
    }

    /// Paints `patch` over the bitmap, the top left corner of the patch at
    /// `(x0, y0)`. Nothing is painted where the patch would leave the
    /// bitmap.
    pub fn paint(&mut self, patch: &Bitmap, x0: u32, y0: u32) -> (fits: bool)
        ensures
            fits == old(self)@.holds_rect(
                x0 as int,
                y0 as int,
                patch@.width as int,
                patch@.height as int,
            ),
            final(self)@ == (if fits {
                old(self)@.painted(patch@, x0 as int, y0 as int)
            } else {
                old(self)@
            }),
    {
        proof {
            use_type_invariant(&*self);
            use_type_invariant(patch);
        }
        let w = patch.width;
        let h = patch.height;
        if x0 as u64 + w as u64 > self.width as u64 || y0 as u64 + h as u64 > self.height as u64 {
            return false;
        }
        let ghost before = self@;
        let ghost over = patch@;
        let total: usize = self.width as usize;
        let line: usize = w as usize;
        let len: usize = self.data.len();
        let patch_len: usize = patch.data.len();
        let mut j: u32 = 0;
        while j < h
            invariant
                0 <= j <= h,
                over == patch@,
                over.wf(),
                before.wf(),
                w == over.width,
                h == over.height,
                total == before.width,
                line == w,
                self.width == before.width,
                self.height == before.height,
                self.data@.len() == before.bytes.len(),
                len == before.bytes.len(),
                patch_len == over.bytes.len(),
                patch.data@ == over.bytes,
                before.holds_rect(x0 as int, y0 as int, w as int, h as int),
                forall|px: int, py: int, pc: int|
                    0 <= px < before.width && 0 <= py < before.height && 0 <= pc < 4
                        ==> self.data@[#[trigger] before.index_of(px, py, pc)] == (if x0 <= px < x0
                        + w && y0 <= py < y0 + j {
                        over.byte_at(px - x0, py - y0, pc)
                    } else {
                        before.bytes[before.index_of(px, py, pc)]
                    }),
            decreases h - j,
        {
            let mut x: u32 = 0;
            while x < w
                invariant
                    0 <= j < h,
                    0 <= x <= w,
                    over == patch@,
                    over.wf(),
                    before.wf(),
                    w == over.width,
                    h == over.height,
                    total == before.width,
                    line == w,
                    self.width == before.width,
                    self.height == before.height,
                    self.data@.len() == before.bytes.len(),
                    len == before.bytes.len(),
                    patch_len == over.bytes.len(),
                    patch.data@ == over.bytes,
                    before.holds_rect(x0 as int, y0 as int, w as int, h as int),
                    forall|px: int, py: int, pc: int|
                        0 <= px < before.width && 0 <= py < before.height && 0 <= pc < 4
                            ==> self.data@[#[trigger] before.index_of(px, py, pc)] == (if x0 <= px
                            < x0 + w && (y0 <= py < y0 + j || (py == y0 + j && px < x0 + x)) {
                            over.byte_at(px - x0, py - y0, pc)
                        } else {
                            before.bytes[before.index_of(px, py, pc)]
                        }),
                decreases w - x,
            {
                let ghost tx = x0 as int + x as int;
                let ghost ty = y0 as int + j as int;
                proof {
                    lemma_index_of(over, x as int, j as int, 0);
                    lemma_index_of(over, x as int, j as int, 3);
                    lemma_index_of(before, tx, ty, 0);
                    lemma_index_of(before, tx, ty, 3);
                    lemma_scanline_bounds(over.width as int, over.height as int, j as int);
                    lemma_scanline_bounds(before.width as int, before.height as int, ty);
                }
                let from: usize = (j as usize * line + x as usize) * 4;
                let to: usize = ((y0 as usize + j as usize) * total + x0 as usize + x as usize) * 4;
                let ghost prev = self.data@;
                self.data[to] = patch.data[from];
                self.data[to + 1] = patch.data[from + 1];
                self.data[to + 2] = patch.data[from + 2];
                self.data[to + 3] = patch.data[from + 3];
                proof {
                    assert forall|px: int, py: int, pc: int|
                        0 <= px < before.width && 0 <= py < before.height && 0 <= pc < 4 implies self.data@[#[trigger] before.index_of(
                        px,
                        py,
                        pc,
                    )] == (if x0 <= px < x0 + w && (y0 <= py < y0 + j || (py == y0 + j && px < x0
                        + x + 1)) {
                        over.byte_at(px - x0, py - y0, pc)
                    } else {
                        before.bytes[before.index_of(px, py, pc)]
                    }) by {
                        lemma_index_of(before, px, py, pc);
                        let i = before.index_of(px, py, pc);
                        if px == tx && py == ty {
                            assert(i == to + pc);
                            assert(over.index_of(x as int, j as int, pc) == from + pc);
                        } else {
                            if to <= i < to + 4 {
                                lemma_index_of(before, tx, ty, i - to);
                                assert(before.index_of(tx, ty, i - to) == i);
                            }
                            assert(self.data@[i] == prev[i]);
                        }
                    }
                }
                x = x + 1;
            }
            j = j + 1;
        }
        proof {
            let wanted = before.painted(over, x0 as int, y0 as int);
            assert forall|i: int| 0 <= i < len implies self.data@[i] == wanted.bytes[i] by {
                lemma_byte_of_pixel(before, i);
                let px = before.column_of(i);
                let py = before.scanline_of(i);
                assert(before.index_of(px, py, i % 4) == i);
            }
            assert(self.data@ =~= wanted.bytes);
        }
        true
    }

    /// Copies the rectangle `[x0, x0 + w) x [y0, y0 + h)` out, scanline by
    /// scanline. There is no copy where the rectangle leaves the bitmap.
    pub fn crop(&self, x0: u32, y0: u32, w: u32, h: u32) -> (patch: Option<Bitmap>)
        ensures
            patch is Some <==> self@.holds_rect(x0 as int, y0 as int, w as int, h as int),
            patch matches Some(p) ==> p@ == self@.crop(x0 as int, y0 as int, w as int, h as int),
    {
        proof {
            use_type_invariant(self);
        }
        if x0 as u64 + w as u64 > self.width as u64 || y0 as u64 + h as u64 > self.height as u64 {
            return None;
        }
        let ghost src = self@;
        let total: usize = self.width as usize;
        let len: usize = self.data.len();
        let mut data: Vec<u8> = Vec::new();
        let mut j: u32 = 0;
        while j < h
            invariant
                0 <= j <= h,
                src == self@,
                src.wf(),
                src.holds_rect(x0 as int, y0 as int, w as int, h as int),
                total == self.width,
                len == src.bytes.len(),
                self.data@ == src.bytes,
                data@.len() == j * (w * 4),
                forall|i: int|
                    0 <= i < data@.len() ==> data@[i] == src.bytes[#[trigger] src.source_index(
                        x0 as int,
                        y0 as int,
                        w as int,
                        i,
                    )],
            decreases h - j,
        {
            let row: usize = y0 as usize + j as usize;
            proof {
                lemma_scanline_bounds(src.width as int, src.height as int, row as int);
                assert(src.bytes.len() == (src.height * src.width) * 4) by (nonlinear_arith)
                    requires
                        src.bytes.len() == src.width * src.height * 4,
                ;
                assert(row * total + x0 + w <= src.height * src.width);
                assert((row * total + x0 + w) * 4 <= len);
            }
            let start: usize = (row * total + x0 as usize) * 4;
            let end: usize = start + w as usize * 4;
            let ghost before = data@;
            data.extend_from_slice(&self.data.as_slice()[start..end]);
            proof {
                assert((j + 1) * (w * 4) == j * (w * 4) + w * 4) by (nonlinear_arith);
                assert forall|i: int| 0 <= i < data@.len() implies data@[i] == src.bytes[#[trigger] src.source_index(
                    x0 as int,
                    y0 as int,
                    w as int,
                    i,
                )] by {
                    if i >= before.len() {
                        let k = i - before.len();
                        assert(i == j * (w * 4) + k);
                        lemma_fundamental_div_mod_converse(i, w * 4, j as int, k);
                        assert(data@[i] == self.data@.subrange(start as int, end as int)[k]);
                    } else {
                        assert(data@[i] == before[i]);
                    }
                }
            }
            j = j + 1;
        }
        proof {
            assert(h * (w * 4) == w * h * 4) by (nonlinear_arith);
            assert(data@ =~= src.crop(x0 as int, y0 as int, w as int, h as int).bytes);
        }
        Some(Bitmap { width: w, height: h, data })
    }
}

} // verus!
