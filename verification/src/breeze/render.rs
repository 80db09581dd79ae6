//! RGBA pixmaps with straight alpha and their source-over composition, as
//! Qt paints `Format_ARGB32` pixmaps onto each other.

use vstd::prelude::*;

verus! {

/// A pixel: red, green, blue and alpha bytes.
pub type Rgba = (u8, u8, u8, u8);

/// A picture: its size and the pixel at each position.
#[verifier::ext_equal]
pub struct Img {
    /// Width in pixels.
    pub w: int,
    /// Height in pixels.
    pub h: int,
    /// The pixel at `(x, y)`, meaningful inside the picture.
    pub at: spec_fn(int, int) -> Rgba,
}

impl Img {
    /// Whether `(x, y)` lies inside the picture.
    pub open spec fn inside(self, x: int, y: int) -> bool {
        0 <= x < self.w && 0 <= y < self.h
    }
}

/// The pixel of `i` at `(x, y)`.
pub open spec fn pix(i: Img, x: int, y: int) -> Rgba {
    (i.at)(x, y)
}

/// Two pictures of one size that show the same pixel everywhere inside.
pub open spec fn same(a: Img, b: Img) -> bool {
    &&& a.w == b.w
    &&& a.h == b.h
    &&& forall|x: int, y: int| a.inside(x, y) ==> #[trigger] pix(a, x, y) == pix(b, x, y)
}

/// The `j`-th pixel of row-major RGBA bytes.
pub open spec fn quad(s: Seq<u8>, j: int) -> Rgba {
    (s[4 * j], s[4 * j + 1], s[4 * j + 2], s[4 * j + 3])
}

/// One channel of a source-over blend: the alpha-weighted mean of the
/// source channel `sc` (weight `sa`) and the destination channel `dc`
/// (weight `da * (255 - sa) / 255`) over the blended alpha `oa`, with
/// truncating division, at most 255 (the floors of the two weights can
/// leave the mean a little above the channel range).
pub open spec fn over_value(sc: u8, dc: u8, sa: int, da: int, oa: int) -> u8 {
    let v = (sc * sa + dc * da * (255 - sa) / 255) / oa;
    if v > 255 {
        255u8
    } else {
        v as u8
    }
}

/// Source-over of a straight-alpha pixel `s` onto `d`, in integer
/// arithmetic with truncating division (`QPainter` `CompositionMode_SourceOver`
/// on `ARGB32`): a transparent source leaves `d`; otherwise the alpha is
/// `sa + da * (255 - sa) / 255` and each channel [`over_value`].
pub open spec fn blend(d: Rgba, s: Rgba) -> Rgba {
    let sa = s.3 as int;
    let da = d.3 as int;
    let out_a = sa + da * (255 - sa) / 255;
    if sa == 0 {
        d
    } else if out_a == 0 {
        (0u8, 0u8, 0u8, 0u8)
    } else {
        (
            over_value(s.0, d.0, sa, da, out_a),
            over_value(s.1, d.1, sa, da, out_a),
            over_value(s.2, d.2, sa, da, out_a),
            out_a as u8,
        )
    }
}

/// One channel of a source-over blend (see [`over_value`]).
pub(crate) fn over_channel(sc: u8, dc: u8, sa: u32, da: u32, oa: u32) -> (r: u8)
    requires
        sa <= 255,
        da <= 255,
        oa > 0,
    ensures
        r == over_value(sc, dc, sa as int, da as int, oa as int),
{
    assert(dc * da <= 255 * 255) by (nonlinear_arith)
        requires
            dc <= 255,
            da <= 255,
    ;
    assert(dc * da * (255 - sa) <= 255 * 255 * 255) by (nonlinear_arith)
        requires
            dc <= 255,
            da <= 255,
            sa <= 255,
    ;
    assert(sc * sa <= 255 * 255) by (nonlinear_arith)
        requires
            sc <= 255,
            sa <= 255,
    ;
    let v: u32 = (sc as u32 * sa + dc as u32 * da * (255 - sa) / 255) / oa;
    if v > 255 {
        255
    } else {
        v as u8
    }
}

/// An RGBA pixmap with straight (non-premultiplied) alpha, row-major.
#[derive(Debug, Clone)]
pub struct Pixmap {
    /// Width in pixels.
    pub width: u32,
    /// Height in pixels.
    pub height: u32,
    /// Non-premultiplied RGBA bytes, four per pixel, row by row.
    pub data: Vec<u8>,
}

impl Pixmap {
    /// Four bytes for each pixel.
    pub open spec fn wf(&self) -> bool {
        self.data@.len() == self.width * self.height * 4
    }

    /// The pixel at `(x, y)`.
    pub open spec fn pixel(&self, x: int, y: int) -> Rgba {
        quad(self.data@, y * self.width + x)
    }
}

impl View for Pixmap {
    type V = Img;

    open spec fn view(&self) -> Img {
        Img { w: self.width as int, h: self.height as int, at: |x: int, y: int| self.pixel(x, y) }
    }
}

/// A pixel inside a `w`-wide, `h`-high grid has a row-major number below
/// `w * h`.
pub proof fn lemma_pixel_number(w: int, h: int, x: int, y: int)
    by (nonlinear_arith)
    requires
        0 <= x < w,
        0 <= y < h,
    ensures
        0 <= y * w,
        0 <= y * w + x < w * h,
{
}

/// Distinct positions inside one row width have distinct row-major numbers.
pub proof fn lemma_pixel_distinct(w: int, x1: int, y1: int, x2: int, y2: int)
    requires
        0 <= x1 < w,
        0 <= x2 < w,
        0 <= y1,
        0 <= y2,
        x1 != x2 || y1 != y2,
    ensures
        y1 * w + x1 != y2 * w + x2,
{
    if y1 < y2 {
        assert(y1 * w + w <= y2 * w) by (nonlinear_arith)
            requires
                y1 < y2,
                0 <= w,
        ;
    } else if y2 < y1 {
        assert(y2 * w + w <= y1 * w) by (nonlinear_arith)
            requires
                y2 < y1,
                0 <= w,
        ;
    }
}

/// A fully transparent pixmap of the given size.
pub open spec fn blank(width: int, height: int) -> Img {
    Img { w: width, h: height, at: |x: int, y: int| (0u8, 0u8, 0u8, 0u8) }
}

impl Pixmap {
    /// A transparent pixmap of `width` x `height` pixels.
    pub fn new(width: u32, height: u32) -> (p: Pixmap)
        requires
            width * height * 4 <= u32::MAX,
        ensures
            p.wf(),
            p.width == width,
            p.height == height,
            forall|k: int| 0 <= k < p.data@.len() ==> p.data@[k] == 0,
            same(p@, blank(width as int, height as int)),
    {
        let n = (width * height * 4) as usize;
        let mut data: Vec<u8> = Vec::new();
        while data.len() < n
            invariant
                data@.len() <= n,
                forall|k: int| 0 <= k < data@.len() ==> data@[k] == 0,
            decreases n - data@.len(),
        {
            data.push(0);
        }
        let p = Pixmap { width, height, data };
        proof {
            assert forall|x: int, y: int| p@.inside(x, y) implies #[trigger] pix(p@, x, y) == pix(
                blank(width as int, height as int),
                x,
                y,
            ) by {
                lemma_pixel_number(width as int, height as int, x, y);
            }
        }
        p
    }

    /// Make every pixel transparent.
    pub fn fill_transparent(&mut self)
        ensures
            final(self).width == old(self).width,
            final(self).height == old(self).height,
            final(self).data@.len() == old(self).data@.len(),
            forall|k: int| 0 <= k < final(self).data@.len() ==> final(self).data@[k] == 0,
            old(self).wf() ==> final(self).wf() && same(final(self)@, blank(old(self).width as int, old(self).height as int)),
    {
        let n = self.data.len();
        let mut i: usize = 0;
        while i < n
            invariant
                i <= n,
                n == self.data@.len(),
                n == old(self).data@.len(),
                self.width == old(self).width,
                self.height == old(self).height,
                forall|k: int| 0 <= k < i ==> self.data@[k] == 0,
            decreases n - i,
        {
            self.data.set(i, 0);
            i = i + 1;
        }
        proof {
            if old(self).wf() {
                let w = self.width as int;
                let h = self.height as int;
                assert forall|x: int, y: int| self@.inside(x, y) implies #[trigger] pix(self@, x, y)
                    == pix(blank(w, h), x, y) by {
                    lemma_pixel_number(w, h, x, y);
                }
            }
        }
    }

    /// The position of the first byte of pixel `(x, y)` in `data`.
    fn index_of(&self, x: u32, y: u32) -> (i: usize)
        requires
            self.wf(),
            x < self.width,
            y < self.height,
        ensures
            i == 4 * (y * self.width + x),
            i + 3 < self.data@.len(),
    {
        proof {
            lemma_pixel_number(self.width as int, self.height as int, x as int, y as int);
        }
        let n = self.data.len();
        let row = (y as usize) * (self.width as usize);
        let j = row + (x as usize);
        j * 4
    }

    /// The pixel at `(x, y)`.
    pub fn get_pixel(&self, x: u32, y: u32) -> (r: Rgba)
        requires
            self.wf(),
            x < self.width,
            y < self.height,
        ensures
            r == self.pixel(x as int, y as int),
    {
        let i = self.index_of(x, y);
        (self.data[i], self.data[i + 1], self.data[i + 2], self.data[i + 3])
    }

    /// Overwrite the pixel at `(x, y)`.
    pub fn put_pixel(&mut self, x: u32, y: u32, px: Rgba)
        requires
            old(self).wf(),
            x < old(self).width,
            y < old(self).height,
        ensures
            final(self).wf(),
            final(self).width == old(self).width,
            final(self).height == old(self).height,
            final(self).pixel(x as int, y as int) == px,
            forall|x2: int, y2: int|
                #![trigger final(self).pixel(x2, y2)]
                0 <= x2 < old(self).width && 0 <= y2 < old(self).height && (x2 != x || y2 != y)
                    ==> final(self).pixel(x2, y2) == old(self).pixel(x2, y2),
    {
        let ghost w = self.width as int;
        let ghost d0 = self.data@;
        let i = self.index_of(x, y);
        self.data.set(i, px.0);
        self.data.set(i + 1, px.1);
        self.data.set(i + 2, px.2);
        self.data.set(i + 3, px.3);
        proof {
            let j = y * w + x;
            assert(i == 4 * j);
            assert(self.data@ == d0.update(i as int, px.0).update(i + 1, px.1).update(i + 2, px.2).update(i + 3, px.3));
            assert forall|x2: int, y2: int|
                0 <= x2 < w && 0 <= y2 < old(self).height && (x2 != x || y2 != y) implies
                #[trigger] self.pixel(x2, y2) == old(self).pixel(x2, y2) by {
                lemma_pixel_distinct(w, x as int, y as int, x2, y2);
                lemma_pixel_number(w, old(self).height as int, x2, y2);
                let j2 = y2 * w + x2;
                assert(j2 != j);
                assert(self.data@[4 * j2] == d0[4 * j2]);
                assert(self.data@[4 * j2 + 1] == d0[4 * j2 + 1]);
                assert(self.data@[4 * j2 + 2] == d0[4 * j2 + 2]);
                assert(self.data@[4 * j2 + 3] == d0[4 * j2 + 3]);
            }
        }
    }
}

/// Source-over blend of one pixel onto another.
fn blend_over(dst: Rgba, src: Rgba) -> (r: Rgba)
    ensures
        r == blend(dst, src),
{
    let sa = src.3 as u32;
    if sa == 0 {
        return dst;
    }
    let da = dst.3 as u32;
    assert(da * (255 - sa) <= 255 * 255) by (nonlinear_arith)
        requires
            da <= 255,
            sa <= 255,
    ;
    let out_a = sa + da * (255 - sa) / 255;
    if out_a == 0 {
        return (0, 0, 0, 0);
    }
    let r = over_channel(src.0, dst.0, sa, da, out_a);
    let g = over_channel(src.1, dst.1, sa, da, out_a);
    let b = over_channel(src.2, dst.2, sa, da, out_a);
    (r, g, b, #[verifier::truncate] (out_a as u8))
}

/// `d` with `s` blended over it at offset `(x, y)`: every pixel of `d`
/// covered by the shifted `s` is source-over blended, the rest is kept.
pub open spec fn draw_img(d: Img, s: Img, x: int, y: int) -> Img {
    Img {
        w: d.w,
        h: d.h,
        at: |px: int, py: int|
            if s.inside(px - x, py - y) {
                blend(pix(d, px, py), pix(s, px - x, py - y))
            } else {
                pix(d, px, py)
            },
    }
}

impl Pixmap {
    /// Blend `src` onto this pixmap at integer offset `(x, y)`, source-over
    /// with straight alpha; the parts of `src` outside this pixmap are
    /// clipped.
    pub fn draw_pixmap(&mut self, x: i32, y: i32, src: &Pixmap)
        requires
            old(self).wf(),
            src.wf(),
        ensures
            final(self).wf(),
            final(self).width == old(self).width,
            final(self).height == old(self).height,
            same(final(self)@, draw_img(old(self)@, src@, x as int, y as int)),
    {
        let ghost d0 = self@;
        let ghost s0 = src@;
        let w = self.width as i64;
        let h = self.height as i64;
        let mut sy: u32 = 0;
        while sy < src.height
            invariant
                self.wf(),
                src.wf(),
                self.width == old(self).width,
                self.height == old(self).height,
                w == self.width,
                h == self.height,
                d0 == old(self)@,
                s0 == src@,
                sy <= src.height,
                forall|px: int, py: int|
                    #![trigger self.pixel(px, py)]
                    0 <= px < w && 0 <= py < h ==> self.pixel(px, py) == if py - y < sy {
                        pix(draw_img(d0, s0, x as int, y as int), px, py)
                    } else {
                        pix(d0, px, py)
                    },
            decreases src.height - sy,
        {
            let dy = y as i64 + sy as i64;
            if 0 <= dy && dy < h {
                let mut sx: u32 = 0;
                while sx < src.width
                    invariant
                        self.wf(),
                        src.wf(),
                        self.width == old(self).width,
                        self.height == old(self).height,
                        w == self.width,
                        h == self.height,
                        d0 == old(self)@,
                        s0 == src@,
                        sy < src.height,
                        dy == y + sy,
                        0 <= dy < h,
                        sx <= src.width,
                        forall|px: int, py: int|
                            #![trigger self.pixel(px, py)]
                            0 <= px < w && 0 <= py < h ==> self.pixel(px, py) == if py - y < sy
                                || (py == dy && px - x < sx) {
                                pix(draw_img(d0, s0, x as int, y as int), px, py)
                            } else {
                                pix(d0, px, py)
                            },
                    decreases src.width - sx,
                {
                    let dx = x as i64 + sx as i64;
                    if 0 <= dx && dx < w {
                        let d = self.get_pixel(dx as u32, dy as u32);
                        let s = src.get_pixel(sx, sy);
                        let out = blend_over(d, s);
                        self.put_pixel(dx as u32, dy as u32, out);
                    }
                    sx = sx + 1;
                }
            }
            sy = sy + 1;
        }
    }
}

/// The straight-alpha pixel of a premultiplied one: each color channel
/// scaled by `255 / alpha` (kept to its low byte), and all zero when the
/// pixel is fully transparent.
pub open spec fn unpremul(p: Rgba) -> Rgba {
    if p.3 == 0 {
        (0u8, 0u8, 0u8, 0u8)
    } else {
        (
            (p.0 * 255 / (p.3 as int)) as u8,
            (p.1 * 255 / (p.3 as int)) as u8,
            (p.2 * 255 / (p.3 as int)) as u8,
            p.3,
        )
    }
}

/// The premultiplied pixel of a straight-alpha one: each color channel
/// scaled by `alpha / 255`.
pub open spec fn premul(p: Rgba) -> Rgba {
    ((p.0 * p.3 / 255) as u8, (p.1 * p.3 / 255) as u8, (p.2 * p.3 / 255) as u8, p.3)
}

/// Straight-alpha pixels from `width` x `height` premultiplied RGBA bytes,
/// as a renderer's premultiplied surface is read back.
pub fn unpremultiply(width: u32, height: u32, data: &Vec<u8>) -> (r: Pixmap)
    requires
        data@.len() == width * height * 4,
    ensures
        r.wf(),
        r.width == width,
        r.height == height,
        forall|j: int|
            0 <= j < width * height ==> #[trigger] quad(r.data@, j) == unpremul(quad(data@, j)),
{
    let n = data.len();
    let mut out: Vec<u8> = Vec::new();
    let mut i: usize = 0;
    let ghost mut j: int = 0;
    while i < n
        invariant
            n == data@.len(),
            n == width * height * 4,
            i == 4 * j,
            0 <= j <= width * height,
            out@.len() == i,
            forall|q: int| 0 <= q < j ==> #[trigger] quad(out@, q) == unpremul(quad(data@, q)),
        decreases n - i,
    {
        let ghost before = out@;
        let r = data[i];
        let g = data[i + 1];
        let b = data[i + 2];
        let a = data[i + 3];
        if a == 0 {
            out.push(0);
            out.push(0);
            out.push(0);
            out.push(0);
        } else {
            let a32 = a as u32;
            out.push(#[verifier::truncate] ((r as u32 * 255 / a32) as u8));
            out.push(#[verifier::truncate] ((g as u32 * 255 / a32) as u8));
            out.push(#[verifier::truncate] ((b as u32 * 255 / a32) as u8));
            out.push(a);
        }
        i = i + 4;
        proof {
            assert forall|q: int| 0 <= q < j + 1 implies #[trigger] quad(out@, q) == unpremul(
                quad(data@, q),
            ) by {
                if q < j {
                    assert(quad(out@, q) == quad(before, q));
                }
            }
            j = j + 1;
        }
    }
    Pixmap { width, height, data: out }
}

impl Pixmap {
    /// The premultiplied RGBA bytes of this pixmap, as a renderer's
    /// premultiplied surface holds them.
    pub fn premultiplied(&self) -> (r: Vec<u8>)
        requires
            self.wf(),
        ensures
            r@.len() == self.data@.len(),
            forall|j: int|
                0 <= j < self.width * self.height ==> #[trigger] quad(r@, j) == premul(
                    quad(self.data@, j),
                ),
    {
        let n = self.data.len();
        let mut out: Vec<u8> = Vec::new();
        let mut i: usize = 0;
        let ghost mut j: int = 0;
        while i < n
            invariant
                n == self.data@.len(),
                self.wf(),
                i == 4 * j,
                0 <= j <= self.width * self.height,
                out@.len() == i,
                forall|q: int| 0 <= q < j ==> #[trigger] quad(out@, q) == premul(quad(self.data@, q)),
            decreases n - i,
        {
            let ghost before = out@;
            let r = self.data[i] as u32;
            let g = self.data[i + 1] as u32;
            let b = self.data[i + 2] as u32;
            let a = self.data[i + 3];
            let a32 = a as u32;
            assert(r * a32 <= 255 * 255 && g * a32 <= 255 * 255 && b * a32 <= 255 * 255) by (
            nonlinear_arith)
                requires
                    r <= 255,
                    g <= 255,
                    b <= 255,
                    a32 <= 255,
            ;
            out.push(#[verifier::truncate] ((r * a32 / 255) as u8));
            out.push(#[verifier::truncate] ((g * a32 / 255) as u8));
            out.push(#[verifier::truncate] ((b * a32 / 255) as u8));
            out.push(a);
            i = i + 4;
            proof {
                assert forall|q: int| 0 <= q < j + 1 implies #[trigger] quad(out@, q) == premul(
                    quad(self.data@, q),
                ) by {
                    if q < j {
                        assert(quad(out@, q) == quad(before, q));
                    }
                }
                j = j + 1;
            }
        }
        out
    }
}

/// `d` with copies of `t` blended (source-over) across the `x, y, w, h`
/// rectangle, laid from its top-left corner (`drawTiledPixmap`); nothing
/// changes for an empty rectangle or tile.
pub open spec fn tile_blend_img(d: Img, t: Img, x: int, y: int, w: int, h: int) -> Img {
    if w <= 0 || h <= 0 || t.w <= 0 || t.h <= 0 {
        d
    } else {
        Img {
            w: d.w,
            h: d.h,
            at: |px: int, py: int|
                if x <= px < x + w && y <= py < y + h {
                    blend(pix(d, px, py), pix(t, (px - x) % t.w, (py - y) % t.h))
                } else {
                    pix(d, px, py)
                },
        }
    }
}

/// Source-over blend of one pixel onto another, as the tiled painter does.
fn blend_over_pixel(dst: Rgba, src: Rgba) -> (r: Rgba)
    ensures
        r == blend(dst, src),
{
    blend_over(dst, src)
}

/// Tile `tile` over the rectangle `(x, y, w, h)` of `canvas`, blending
/// source-over (`QPainter::drawTiledPixmap`); the parts outside the canvas
/// are clipped.
pub fn tile_rect(canvas: &mut Pixmap, x: i32, y: i32, w: i32, h: i32, tile: &Pixmap)
    requires
        old(canvas).wf(),
        tile.wf(),
    ensures
        final(canvas).wf(),
        final(canvas).width == old(canvas).width,
        final(canvas).height == old(canvas).height,
        same(final(canvas)@, tile_blend_img(old(canvas)@, tile@, x as int, y as int, w as int, h as int)),
{
    if w <= 0 || h <= 0 || tile.width == 0 || tile.height == 0 {
        return;
    }
    let ghost d0 = canvas@;
    let ghost t0 = tile@;
    let ghost target = tile_blend_img(d0, t0, x as int, y as int, w as int, h as int);
    let cw = canvas.width as i64;
    let ch = canvas.height as i64;
    let mut ty: i32 = 0;
    while ty < h
        invariant
            canvas.wf(),
            tile.wf(),
            canvas.width == old(canvas).width,
            canvas.height == old(canvas).height,
            cw == canvas.width,
            ch == canvas.height,
            d0 == old(canvas)@,
            t0 == tile@,
            target == tile_blend_img(d0, t0, x as int, y as int, w as int, h as int),
            w > 0,
            h > 0,
            tile.width > 0,
            tile.height > 0,
            0 <= ty <= h,
            forall|px: int, py: int|
                #![trigger canvas.pixel(px, py)]
                0 <= px < cw && 0 <= py < ch ==> canvas.pixel(px, py) == if y <= py < y + ty {
                    pix(target, px, py)
                } else {
                    pix(d0, px, py)
                },
        decreases h - ty,
    {
        let sy = (ty as u32) % tile.height;
        let dy = y as i64 + ty as i64;
        let mut tx: i32 = 0;
        while tx < w
            invariant
                canvas.wf(),
                tile.wf(),
                canvas.width == old(canvas).width,
                canvas.height == old(canvas).height,
                cw == canvas.width,
                ch == canvas.height,
                d0 == old(canvas)@,
                t0 == tile@,
                target == tile_blend_img(d0, t0, x as int, y as int, w as int, h as int),
                w > 0,
                h > 0,
                tile.width > 0,
                tile.height > 0,
                0 <= ty < h,
                sy == (ty as int) % (tile.height as int),
                dy == y + ty,
                0 <= tx <= w,
                forall|px: int, py: int|
                    #![trigger canvas.pixel(px, py)]
                    0 <= px < cw && 0 <= py < ch ==> canvas.pixel(px, py) == if y <= py < y + ty
                        || (py == dy && x <= px < x + tx) {
                        pix(target, px, py)
                    } else {
                        pix(d0, px, py)
                    },
            decreases w - tx,
        {
            let sx = (tx as u32) % tile.width;
            let dx = x as i64 + tx as i64;
            if 0 <= dx && dx < cw && 0 <= dy && dy < ch {
                let s = tile.get_pixel(sx, sy);
                let d = canvas.get_pixel(dx as u32, dy as u32);
                let out = blend_over_pixel(d, s);
                canvas.put_pixel(dx as u32, dy as u32, out);
            }
            tx = tx + 1;
        }
        ty = ty + 1;
    }
}

/// The PNG file (8-bit RGBA, the encoder's default compression and
/// filters) that the `png` crate writes for a `width` x `height` image with
/// straight-alpha bytes `data`.
pub uninterp spec fn png_encoding(width: u32, height: u32, data: Seq<u8>) -> Seq<u8>;

/// Encode a pixmap as an 8-bit RGBA PNG with `png::Encoder`. Claimed: the
/// bytes written are [`png_encoding`] of the pixmap, and writing into a
/// `Vec` succeeds whenever neither side is zero and the data holds four
/// bytes per pixel (the encoder refuses only a zero width or height, or a
/// data length that does not match). Its message on failure, after
/// `png write header: ` or `png write data: `, is left unsaid.
#[verifier::external_body]
pub fn encode_png(pixmap: &Pixmap) -> (r: Result<Vec<u8>, String>)
    ensures
        r matches Ok(v) ==> v@ == png_encoding(pixmap.width, pixmap.height, pixmap.data@),
        pixmap.wf() && pixmap.width > 0 && pixmap.height > 0 ==> r is Ok,
{
    let mut out = Vec::new();
    {
        let mut encoder = png::Encoder::new(&mut out, pixmap.width, pixmap.height);
        encoder.set_color(png::ColorType::Rgba);
        encoder.set_depth(png::BitDepth::Eight);
        let mut writer = encoder.write_header().map_err(|e| format!("png write header: {e}"))?;
        writer.write_image_data(&pixmap.data).map_err(|e| format!("png write data: {e}"))?;
    }
    Ok(out)
}

} // verus!
