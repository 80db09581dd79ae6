//! Raster composition of 9-slice frames, as `KSvg` `FrameSvg` lays them
//! out: corners at native size, borders tiled, the center stretched or
//! tiled, plus the overwrite/source-over primitives and the blur mask.

use vstd::prelude::*;
use crate::breeze::render::{
    blank, blend, draw_img, over_channel, lemma_pixel_number, pix, quad, same, Img, Pixmap, Rgba,
};

verus! {

/// `d` with `s` copied over it at offset `(x, y)` (overwrite semantics):
/// every pixel of `d` covered by the shifted `s` takes its pixel.
pub open spec fn paste_img(d: Img, s: Img, x: int, y: int) -> Img {
    Img {
        w: d.w,
        h: d.h,
        at: |px: int, py: int|
            if s.inside(px - x, py - y) {
                pix(s, px - x, py - y)
            } else {
                pix(d, px, py)
            },
    }
}

/// The `width` x `height` window of `s` whose top-left corner is at
/// `(left, top)`.
pub open spec fn crop_img(s: Img, left: int, top: int, width: int, height: int) -> Img {
    Img { w: width, h: height, at: |x: int, y: int| pix(s, x + left, y + top) }
}

/// The smaller of two integers.
pub open spec fn min(a: int, b: int) -> int {
    if a <= b {
        a
    } else {
        b
    }
}

/// A window of a `w` x `h` image clamped to the image: the corner is moved
/// inside, then the size cut to what remains (`left, top, width, height`).
pub open spec fn clamp_rect(w: int, h: int, left: int, top: int, width: int, height: int) -> (
    int,
    int,
    int,
    int,
) {
    let l = min(left, w);
    let t = min(top, h);
    (l, t, min(width, w - l), min(height, h - t))
}

/// The row-major RGBA bytes of the `width`-wide window at `(left, top)` of
/// an image `w` pixels wide with bytes `s`.
pub open spec fn crop_bytes(s: Seq<u8>, w: int, left: int, top: int, width: int, height: int) -> Seq<
    u8,
> {
    Seq::new(
        (width * height * 4) as nat,
        |k: int| s[((top + (k / 4) / width) * w + left + (k / 4) % width) * 4 + k % 4],
    )
}

/// The picture held by `width` x `height` row-major RGBA bytes.
pub open spec fn img_of(width: int, height: int, data: Seq<u8>) -> Img {
    Img { w: width, h: height, at: |x: int, y: int| quad(data, y * width + x) }
}

/// Bytes `k` of a row-major window split into pixel row, column and channel.
proof fn lemma_window_byte(width: int, row: int, col: int, c: int)
    requires
        0 < width,
        0 <= row,
        0 <= col < width,
        0 <= c < 4,
    ensures
        ({
            let k = (row * width + col) * 4 + c;
            &&& k / 4 == row * width + col
            &&& k % 4 == c
            &&& (k / 4) / width == row
            &&& (k / 4) % width == col
        }),
{
    let k = (row * width + col) * 4 + c;
    vstd::arithmetic::div_mod::lemma_fundamental_div_mod_converse(k, 4, row * width + col, c);
    vstd::arithmetic::div_mod::lemma_fundamental_div_mod_converse(
        row * width + col,
        width,
        row,
        col,
    );
}

impl Pixmap {
    /// A transparent image of `width` x `height` pixels.
    pub fn transparent(width: u32, height: u32) -> (p: Pixmap)
        requires
            width * height * 4 <= usize::MAX,
        ensures
            p.wf(),
            p.width == width,
            p.height == height,
            forall|k: int| 0 <= k < p.data@.len() ==> p.data@[k] == 0,
    {
        let n = (width as usize) * (height as usize) * 4;
        let mut data: Vec<u8> = Vec::new();
        while data.len() < n
            invariant
                data@.len() <= n,
                forall|k: int| 0 <= k < data@.len() ==> data@[k] == 0,
            decreases n - data@.len(),
        {
            data.push(0);
        }
        Pixmap { width, height, data }
    }
}

/// Copy `src` onto `dst` at `(x, y)`, overwriting (`Source` composition);
/// what falls outside `dst` is dropped.
pub fn paste(dst: &mut Pixmap, src: &Pixmap, x: u32, y: u32)
    requires
        old(dst).wf(),
        src.wf(),
    ensures
        final(dst).wf(),
        final(dst).width == old(dst).width,
        final(dst).height == old(dst).height,
        same(final(dst)@, paste_img(old(dst)@, src@, x as int, y as int)),
{
    let ghost d0 = dst@;
    let ghost s0 = src@;
    let mut sy: u32 = 0;
    while sy < src.height && (y as u64 + sy as u64) < dst.height as u64
        invariant
            dst.wf(),
            src.wf(),
            dst.width == old(dst).width,
            dst.height == old(dst).height,
            d0 == old(dst)@,
            s0 == src@,
            sy <= src.height,
            forall|px: int, py: int|
                #![trigger dst.pixel(px, py)]
                0 <= px < dst.width && 0 <= py < dst.height ==> dst.pixel(px, py) == if py - y
                    < sy {
                    pix(paste_img(d0, s0, x as int, y as int), px, py)
                } else {
                    pix(d0, px, py)
                },
        decreases src.height - sy,
    {
        let dy = y as u64 + sy as u64;
        let mut sx: u32 = 0;
        while sx < src.width && (x as u64 + sx as u64) < dst.width as u64
            invariant
                dst.wf(),
                src.wf(),
                dst.width == old(dst).width,
                dst.height == old(dst).height,
                d0 == old(dst)@,
                s0 == src@,
                sy < src.height,
                dy == y + sy,
                dy < dst.height,
                sx <= src.width,
                forall|px: int, py: int|
                    #![trigger dst.pixel(px, py)]
                    0 <= px < dst.width && 0 <= py < dst.height ==> dst.pixel(px, py) == if py - y
                        < sy || (py == dy && px - x < sx) {
                        pix(paste_img(d0, s0, x as int, y as int), px, py)
                    } else {
                        pix(d0, px, py)
                    },
            decreases src.width - sx,
        {
            let dx = x as u64 + sx as u64;
            let p = src.get_pixel(sx, sy);
            dst.put_pixel(dx as u32, dy as u32, p);
            sx = sx + 1;
        }
        sy = sy + 1;
    }
}

/// Blend `src` over `dst` at `(x, y)`, source-over with straight alpha;
/// what falls outside `dst` is dropped.
pub fn composite_over(dst: &mut Pixmap, src: &Pixmap, x: u32, y: u32)
    requires
        old(dst).wf(),
        src.wf(),
    ensures
        final(dst).wf(),
        final(dst).width == old(dst).width,
        final(dst).height == old(dst).height,
        same(final(dst)@, draw_img(old(dst)@, src@, x as int, y as int)),
{
    let ghost d0 = dst@;
    let ghost s0 = src@;
    let mut sy: u32 = 0;
    while sy < src.height && (y as u64 + sy as u64) < dst.height as u64
        invariant
            dst.wf(),
            src.wf(),
            dst.width == old(dst).width,
            dst.height == old(dst).height,
            d0 == old(dst)@,
            s0 == src@,
            sy <= src.height,
            forall|px: int, py: int|
                #![trigger dst.pixel(px, py)]
                0 <= px < dst.width && 0 <= py < dst.height ==> dst.pixel(px, py) == if py - y
                    < sy {
                    pix(draw_img(d0, s0, x as int, y as int), px, py)
                } else {
                    pix(d0, px, py)
                },
        decreases src.height - sy,
    {
        let dy = y as u64 + sy as u64;
        let mut sx: u32 = 0;
        while sx < src.width && (x as u64 + sx as u64) < dst.width as u64
            invariant
                dst.wf(),
                src.wf(),
                dst.width == old(dst).width,
                dst.height == old(dst).height,
                d0 == old(dst)@,
                s0 == src@,
                sy < src.height,
                dy == y + sy,
                dy < dst.height,
                sx <= src.width,
                forall|px: int, py: int|
                    #![trigger dst.pixel(px, py)]
                    0 <= px < dst.width && 0 <= py < dst.height ==> dst.pixel(px, py) == if py - y
                        < sy || (py == dy && px - x < sx) {
                        pix(draw_img(d0, s0, x as int, y as int), px, py)
                    } else {
                        pix(d0, px, py)
                    },
            decreases src.width - sx,
        {
            let dx = x as u64 + sx as u64;
            let s = src.get_pixel(sx, sy);
            if s.3 != 0 {
                let d = dst.get_pixel(dx as u32, dy as u32);
                let sa = s.3 as u32;
                let da = d.3 as u32;
                assert(da * (255 - sa) <= 255 * 255) by (nonlinear_arith)
                    requires
                        da <= 255,
                        sa <= 255,
                ;
                let oa = sa + da * (255 - sa) / 255;
                if oa != 0 {
                    let out = over_channels(s, d, sa, da, oa);
                    dst.put_pixel(dx as u32, dy as u32, out);
                }
            }
            sx = sx + 1;
        }
        sy = sy + 1;
    }
}

/// The blended channels of source `s` over destination `d` with the given
/// alphas and output alpha.
fn over_channels(s: Rgba, d: Rgba, sa: u32, da: u32, oa: u32) -> (r: Rgba)
    requires
        sa == s.3,
        da == d.3,
        sa != 0,
        oa == sa + da * (255 - sa) / 255,
        oa != 0,
    ensures
        r == blend(d, s),
{
    let r = over_channel(s.0, d.0, sa, da, oa);
    let g = over_channel(s.1, d.1, sa, da, oa);
    let b = over_channel(s.2, d.2, sa, da, oa);
    (r, g, b, #[verifier::truncate] (oa as u8))
}

/// Copy the `width` x `height` window at `(left, top)` out of `image`,
/// clamped to the image (the `image` crate's `crop_imm(..).to_image()` on
/// a clamped rectangle).
pub fn crop_rect(image: &Pixmap, left: u32, top: u32, width: u32, height: u32) -> (r: Pixmap)
    requires
        image.wf(),
    ensures
        r.wf(),
        ({
            let (l, t, cw, ch) = clamp_rect(
                image.width as int,
                image.height as int,
                left as int,
                top as int,
                width as int,
                height as int,
            );
            &&& r.width == cw
            &&& r.height == ch
            &&& r.data@ == crop_bytes(image.data@, image.width as int, l, t, cw, ch)
            &&& same(r@, crop_img(image@, l, t, cw, ch))
        }),
{
    let l = if left < image.width {
        left
    } else {
        image.width
    };
    let t = if top < image.height {
        top
    } else {
        image.height
    };
    let cw = if width < image.width - l {
        width
    } else {
        image.width - l
    };
    let ch = if height < image.height - t {
        height
    } else {
        image.height - t
    };
    let ghost w = image.width as int;
    let ghost bytes = crop_bytes(image.data@, w, l as int, t as int, cw as int, ch as int);
    proof {
        assert(cw * ch <= image.width * image.height) by (nonlinear_arith)
            requires
                cw <= image.width,
                ch <= image.height,
        ;
    }
    let mut data: Vec<u8> = Vec::new();
    let mut row: u32 = 0;
    while row < ch
        invariant
            image.wf(),
            w == image.width,
            l + cw <= image.width,
            t + ch <= image.height,
            cw * ch * 4 <= image.data@.len(),
            bytes == crop_bytes(image.data@, w, l as int, t as int, cw as int, ch as int),
            row <= ch,
            data@.len() == row * cw * 4,
            forall|k: int| 0 <= k < data@.len() ==> data@[k] == bytes[k],
        decreases ch - row,
    {
        let mut col: u32 = 0;
        while col < cw
            invariant
                image.wf(),
                w == image.width,
                l + cw <= image.width,
                t + ch <= image.height,
                cw * ch * 4 <= image.data@.len(),
                bytes == crop_bytes(image.data@, w, l as int, t as int, cw as int, ch as int),
                row < ch,
                col <= cw,
                data@.len() == (row * cw + col) * 4,
                forall|k: int| 0 <= k < data@.len() ==> data@[k] == bytes[k],
            decreases cw - col,
        {
            let p = image.get_pixel(l + col, t + row);
            proof {
                assert((row * cw + col) * 4 + 3 < cw * ch * 4) by (nonlinear_arith)
                    requires
                        row < ch,
                        col < cw,
                ;
                lemma_window_byte(cw as int, row as int, col as int, 0);
                lemma_window_byte(cw as int, row as int, col as int, 1);
                lemma_window_byte(cw as int, row as int, col as int, 2);
                lemma_window_byte(cw as int, row as int, col as int, 3);
            }
            data.push(p.0);
            data.push(p.1);
            data.push(p.2);
            data.push(p.3);
            col = col + 1;
        }
        proof {
            assert((row * cw + cw) * 4 == (row + 1) * cw * 4) by (nonlinear_arith);
        }
        row = row + 1;
    }
    let r = Pixmap { width: cw, height: ch, data };
    proof {
        assert(row * cw * 4 == cw * ch * 4) by (nonlinear_arith)
            requires
                row == ch,
        ;
        assert(r.data@ =~= bytes);
        assert forall|x: int, y: int| r@.inside(x, y) implies #[trigger] pix(r@, x, y) == pix(
            crop_img(image@, l as int, t as int, cw as int, ch as int),
            x,
            y,
        ) by {
            lemma_window_byte(cw as int, y, x, 0);
            lemma_window_byte(cw as int, y, x, 1);
            lemma_window_byte(cw as int, y, x, 2);
            lemma_window_byte(cw as int, y, x, 3);
            lemma_pixel_number(cw as int, ch as int, x, y);
        }
    }
    r
}

/// `d` with the `x, y, w, h` rectangle covered by copies of `s` laid from
/// its top-left corner, the last row and column of copies cut to fit; an
/// empty `s` or rectangle leaves `d`.
pub open spec fn tile_img(d: Img, s: Img, x: int, y: int, w: int, h: int) -> Img {
    if s.w <= 0 || s.h <= 0 || w <= 0 || h <= 0 {
        d
    } else {
        Img {
            w: d.w,
            h: d.h,
            at: |px: int, py: int|
                if x <= px < x + w && y <= py < y + h {
                    pix(s, (px - x) % s.w, (py - y) % s.h)
                } else {
                    pix(d, px, py)
                },
        }
    }
}

/// Tiling with a picture of one color paints the whole rectangle in that
/// color, partial copies at the right and bottom edges included, and leaves
/// every pixel outside the rectangle as it was.
pub proof fn lemma_tile_uniform_fills(d: Img, s: Img, c: Rgba, x: int, y: int, w: int, h: int)
    requires
        s.w > 0,
        s.h > 0,
        forall|sx: int, sy: int| s.inside(sx, sy) ==> #[trigger] pix(s, sx, sy) == c,
    ensures
        forall|px: int, py: int|
            x <= px < x + w && y <= py < y + h ==> #[trigger] pix(tile_img(d, s, x, y, w, h), px, py)
                == c,
        forall|px: int, py: int|
            !(x <= px < x + w && y <= py < y + h) ==> #[trigger] pix(tile_img(d, s, x, y, w, h), px, py)
                == pix(d, px, py),
        tile_img(d, s, x, y, w, h).w == d.w,
        tile_img(d, s, x, y, w, h).h == d.h,
{
    assert forall|px: int, py: int| x <= px < x + w && y <= py < y + h implies #[trigger] pix(
        tile_img(d, s, x, y, w, h),
        px,
        py,
    ) == c by {
        assert(s.inside((px - x) % s.w, (py - y) % s.h));
    }
}

/// A clamped window lies inside the image: its corner is within the image
/// and it reaches no further than the right and bottom edges.
pub proof fn lemma_clamp_inside(w: int, h: int, left: int, top: int, width: int, height: int)
    requires
        0 <= w,
        0 <= h,
        0 <= left,
        0 <= top,
        0 <= width,
        0 <= height,
    ensures
        ({
            let (l, t, cw, ch) = clamp_rect(w, h, left, top, width, height);
            &&& 0 <= l <= w
            &&& 0 <= t <= h
            &&& 0 <= cw <= width
            &&& 0 <= ch <= height
            &&& l + cw <= w
            &&& t + ch <= h
            &&& (left + width <= w ==> l == left && cw == width)
            &&& (top + height <= h ==> t == top && ch == height)
        }),
{
}

/// Tile `src` over the `(x, y, w, h)` rectangle of `dst`, including
/// partial tiles at the right and bottom edges.
pub fn tile(dst: &mut Pixmap, src: &Pixmap, x: u32, y: u32, w: u32, h: u32)
    requires
        old(dst).wf(),
        src.wf(),
        x + w <= u32::MAX,
        y + h <= u32::MAX,
    ensures
        final(dst).wf(),
        final(dst).width == old(dst).width,
        final(dst).height == old(dst).height,
        same(final(dst)@, tile_img(old(dst)@, src@, x as int, y as int, w as int, h as int)),
{
    if src.width == 0 || src.height == 0 || w == 0 || h == 0 {
        return;
    }
    let ghost d0 = dst@;
    let ghost s0 = src@;
    let ghost t = tile_img(d0, s0, x as int, y as int, w as int, h as int);
    let sw = src.width;
    let sh = src.height;
    let mut ty = y;
    let ghost mut ky: int = 0;
    while ty < y + h
        invariant
            dst.wf(),
            src.wf(),
            dst.width == old(dst).width,
            dst.height == old(dst).height,
            d0 == old(dst)@,
            s0 == src@,
            t == tile_img(d0, s0, x as int, y as int, w as int, h as int),
            sw == src.width,
            sh == src.height,
            sw > 0,
            sh > 0,
            w > 0,
            h > 0,
            x + w <= u32::MAX,
            y + h <= u32::MAX,
            y <= ty <= y + h,
            ty == y + h || (ky >= 0 && ty - y == ky * sh),
            forall|px: int, py: int|
                #![trigger dst.pixel(px, py)]
                0 <= px < dst.width && 0 <= py < dst.height ==> dst.pixel(px, py) == if x <= px
                    < x + w && y <= py < ty {
                    pix(t, px, py)
                } else {
                    pix(d0, px, py)
                },
        decreases y + h - ty,
    {
        let tile_h = if y + h - ty < sh {
            y + h - ty
        } else {
            sh
        };
        let mut tx = x;
        let ghost mut kx: int = 0;
        while tx < x + w
            invariant
                dst.wf(),
                src.wf(),
                dst.width == old(dst).width,
                dst.height == old(dst).height,
                d0 == old(dst)@,
                s0 == src@,
                t == tile_img(d0, s0, x as int, y as int, w as int, h as int),
                sw == src.width,
                sh == src.height,
                sw > 0,
                sh > 0,
                w > 0,
                h > 0,
                x + w <= u32::MAX,
                y + h <= u32::MAX,
                y <= ty < y + h,
                ky >= 0,
                ty - y == ky * sh,
                0 < tile_h <= sh,
                ty + tile_h <= y + h,
                x <= tx <= x + w,
                tx == x + w || (kx >= 0 && tx - x == kx * sw),
                forall|px: int, py: int|
                    #![trigger dst.pixel(px, py)]
                    0 <= px < dst.width && 0 <= py < dst.height ==> dst.pixel(px, py) == if x
                        <= px < x + w && (y <= py < ty || (ty <= py < ty + tile_h && px < tx)) {
                        pix(t, px, py)
                    } else {
                        pix(d0, px, py)
                    },
            decreases x + w - tx,
        {
            let tile_w = if x + w - tx < sw {
                x + w - tx
            } else {
                sw
            };
            let ghost before = dst@;
            let ghost prev = *dst;
            if tile_w == sw && tile_h == sh {
                paste(dst, src, tx, ty);
            } else {
                let region = crop_rect(src, 0, 0, tile_w, tile_h);
                paste(dst, &region, tx, ty);
            }
            proof {
                assert forall|px: int, py: int|
                    0 <= px < dst.width && 0 <= py < dst.height implies #[trigger] dst.pixel(px, py)
                    == if x <= px < x + w && (y <= py < ty || (ty <= py < ty + tile_h && px < tx
                        + tile_w)) {
                    pix(t, px, py)
                } else {
                    pix(d0, px, py)
                } by {
                    assert(pix(dst@, px, py) == dst.pixel(px, py));
                    assert(pix(before, px, py) == prev.pixel(px, py));
                    if tx <= px < tx + tile_w && ty <= py < ty + tile_h {
                        vstd::arithmetic::div_mod::lemma_fundamental_div_mod_converse(
                            px - x,
                            sw as int,
                            kx,
                            px - tx,
                        );
                        vstd::arithmetic::div_mod::lemma_fundamental_div_mod_converse(
                            py - y,
                            sh as int,
                            ky,
                            py - ty,
                        );
                        assert(pix(t, px, py) == pix(s0, px - tx, py - ty));
                    }
                }
            }
            tx = tx + tile_w;
            proof {
                if tx < x + w {
                    assert(tile_w == sw);
                    kx = kx + 1;
                    assert(tx - x == kx * sw) by (nonlinear_arith)
                        requires
                            tx - x == (kx - 1) * sw + sw,
                    ;
                }
            }
        }
        ty = ty + tile_h;
        proof {
            if ty < y + h {
                assert(tile_h == sh);
                ky = ky + 1;
                assert(ty - y == ky * sh) by (nonlinear_arith)
                    requires
                        ty - y == (ky - 1) * sh + sh,
                ;
            }
        }
    }
}

/// A slice element's bounding box in native-render pixels (rounded; the
/// width and height at least one), before clamping to the render.
#[derive(Debug, Clone, Copy, PartialEq, Eq)]
pub struct SliceRect {
    /// Left edge.
    pub left: u32,
    /// Top edge.
    pub top: u32,
    /// Width.
    pub width: u32,
    /// Height.
    pub height: u32,
}

/// Where the nine slices of a frame come from and how large the frame is
/// drawn: the rounded border sizes of the 9-slice grid, center tiling, and
/// the bounding box of each slice in the native render.
#[derive(Debug, Clone, Copy)]
pub struct FrameLayout {
    /// Target width.
    pub target_w: u32,
    /// Target height.
    pub target_h: u32,
    /// Left border width.
    pub left: u32,
    /// Right border width.
    pub right: u32,
    /// Top border height.
    pub top: u32,
    /// Bottom border height.
    pub bottom: u32,
    /// Whether the center is tiled (`hint-tile-center`) rather than stretched.
    pub tile_center: bool,
    /// The center slice.
    pub center: SliceRect,
    /// The top-left corner.
    pub topleft: SliceRect,
    /// The top-right corner.
    pub topright: SliceRect,
    /// The bottom-left corner.
    pub bottomleft: SliceRect,
    /// The bottom-right corner.
    pub bottomright: SliceRect,
    /// The top border.
    pub top_side: SliceRect,
    /// The bottom border.
    pub bottom_side: SliceRect,
    /// The left border.
    pub left_side: SliceRect,
    /// The right border.
    pub right_side: SliceRect,
}

/// The part of picture `n` inside `r`, clamped to `n`.
pub open spec fn slice_img(n: Img, r: SliceRect) -> Img {
    let (l, t, cw, ch) = clamp_rect(n.w, n.h, r.left as int, r.top as int, r.width as int, r.height as int);
    crop_img(n, l, t, cw, ch)
}

/// `a - b`, or zero when `b` exceeds `a`.
pub open spec fn sat_sub(a: int, b: int) -> int {
    if a >= b {
        a - b
    } else {
        0
    }
}

/// The width of the frame's content area (between the side borders).
pub open spec fn content_w(f: FrameLayout) -> int {
    sat_sub(f.target_w as int, f.left + f.right)
}

/// The height of the frame's content area (between top and bottom).
pub open spec fn content_h(f: FrameLayout) -> int {
    sat_sub(f.target_h as int, f.top + f.bottom)
}

/// Whether the center slice is drawn, stretched or tiled.
pub open spec fn draws_center(n: Img, f: FrameLayout) -> bool {
    let c = slice_img(n, f.center);
    c.w > 0 && c.h > 0 && content_w(f) > 0 && content_h(f) > 0
}

/// The composed frame: a transparent `target_w` x `target_h` canvas with
/// the center (tiled, or `stretched` pasted) between the borders, the
/// corners pasted at native size into the four corners, and the borders
/// tiled along the four sides, in that order.
pub open spec fn compose_img(n: Img, f: FrameLayout, stretched: Img) -> Img {
    let cw = content_w(f);
    let ch = content_h(f);
    let tw = f.target_w as int;
    let th = f.target_h as int;
    let c0 = blank(tw, th);
    let center = slice_img(n, f.center);
    let c1 = if draws_center(n, f) {
        if f.tile_center {
            tile_img(c0, center, f.left as int, f.top as int, cw, ch)
        } else {
            paste_img(c0, stretched, f.left as int, f.top as int)
        }
    } else {
        c0
    };
    let tl = slice_img(n, f.topleft);
    let tr = slice_img(n, f.topright);
    let bl = slice_img(n, f.bottomleft);
    let br = slice_img(n, f.bottomright);
    let c2 = paste_img(c1, tl, 0, 0);
    let c3 = paste_img(c2, tr, tw - tr.w, 0);
    let c4 = paste_img(c3, bl, 0, th - bl.h);
    let c5 = paste_img(c4, br, tw - br.w, th - br.h);
    let c6 = tile_img(c5, slice_img(n, f.top_side), f.left as int, 0, cw, f.top as int);
    let c7 = tile_img(
        c6,
        slice_img(n, f.bottom_side),
        f.left as int,
        th - f.bottom,
        cw,
        f.bottom as int,
    );
    let c8 = tile_img(c7, slice_img(n, f.left_side), 0, f.top as int, f.left as int, ch);
    tile_img(c8, slice_img(n, f.right_side), tw - f.right, f.top as int, f.right as int, ch)
}

/// What a composition of `f` out of `native` needs to stay in range: the
/// borders fit the target, the corners fit, and the canvas fits memory.
pub open spec fn composable(native: Pixmap, f: FrameLayout) -> bool {
    &&& native.wf()
    &&& f.left + f.right <= u32::MAX
    &&& f.top + f.bottom <= u32::MAX
    &&& f.right <= f.target_w
    &&& f.bottom <= f.target_h
    &&& slice_img(native@, f.topright).w <= f.target_w
    &&& slice_img(native@, f.bottomleft).h <= f.target_h
    &&& slice_img(native@, f.bottomright).w <= f.target_w
    &&& slice_img(native@, f.bottomright).h <= f.target_h
    &&& f.target_w * f.target_h * 16 <= isize::MAX
    &&& native.width * f.target_h * 16 <= isize::MAX
}

/// Equal inputs give equal pastes.
pub proof fn lemma_paste_congr(a: Img, a2: Img, b: Img, b2: Img, x: int, y: int)
    requires
        same(a, a2),
        same(b, b2),
    ensures
        same(paste_img(a, b, x, y), paste_img(a2, b2, x, y)),
{
    assert forall|px: int, py: int| paste_img(a, b, x, y).inside(px, py) implies #[trigger] pix(
        paste_img(a, b, x, y),
        px,
        py,
    ) == pix(paste_img(a2, b2, x, y), px, py) by {
        if b.inside(px - x, py - y) {
            assert(pix(b, px - x, py - y) == pix(b2, px - x, py - y));
        } else {
            assert(pix(a, px, py) == pix(a2, px, py));
        }
    }
}

/// Equal inputs give equal tilings.
pub proof fn lemma_tile_congr(a: Img, a2: Img, b: Img, b2: Img, x: int, y: int, w: int, h: int)
    requires
        same(a, a2),
        same(b, b2),
    ensures
        same(tile_img(a, b, x, y, w, h), tile_img(a2, b2, x, y, w, h)),
{
    if b.w > 0 && b.h > 0 && w > 0 && h > 0 {
        assert forall|px: int, py: int| tile_img(a, b, x, y, w, h).inside(px, py) implies #[trigger] pix(
            tile_img(a, b, x, y, w, h),
            px,
            py,
        ) == pix(tile_img(a2, b2, x, y, w, h), px, py) by {
            if x <= px < x + w && y <= py < y + h {
                let u = (px - x) % b.w;
                let v = (py - y) % b.h;
                assert(pix(b, u, v) == pix(b2, u, v));
            } else {
                assert(pix(a, px, py) == pix(a2, px, py));
            }
        }
    }
}

/// `same` is transitive.
pub proof fn lemma_same_trans(a: Img, b: Img, c: Img)
    requires
        same(a, b),
        same(b, c),
    ensures
        same(a, c),
{
    assert forall|x: int, y: int| a.inside(x, y) implies #[trigger] pix(a, x, y) == pix(c, x, y) by {
        assert(pix(a, x, y) == pix(b, x, y));
        assert(pix(b, x, y) == pix(c, x, y));
    }
}

/// The slice of `native` inside `r`, as its own pixmap.
fn cut_slice(native: &Pixmap, r: SliceRect) -> (p: Pixmap)
    requires
        native.wf(),
    ensures
        p.wf(),
        p.width == slice_img(native@, r).w,
        p.height == slice_img(native@, r).h,
        same(p@, slice_img(native@, r)),
{
    crop_rect(native, r.left, r.top, r.width, r.height)
}

/// Compose the 9-slice frame described by `frame` out of the native render
/// `native`, with `stretched` as the center scaled to the content area (used
/// when the center is drawn and not tiled).
pub fn compose_from(native: &Pixmap, frame: &FrameLayout, stretched: &Pixmap) -> (r: Pixmap)
    requires
        composable(*native, *frame),
        stretched.wf(),
    ensures
        r.wf(),
        r.width == frame.target_w,
        r.height == frame.target_h,
        same(r@, compose_img(native@, *frame, stretched@)),
{
    let f = *frame;
    let ghost n = native@;
    let tw = f.target_w;
    let th = f.target_h;
    let cw = if tw >= f.left + f.right {
        tw - (f.left + f.right)
    } else {
        0
    };
    let ch = if th >= f.top + f.bottom {
        th - (f.top + f.bottom)
    } else {
        0
    };
    proof {
        assert(tw * th * 4 <= usize::MAX) by (nonlinear_arith)
            requires
                tw * th * 16 <= isize::MAX,
                0 <= tw,
                0 <= th,
        ;
    }
    let mut canvas = Pixmap::transparent(tw, th);
    let ghost mut acc = blank(tw as int, th as int);
    proof {
        assert forall|x: int, y: int| canvas@.inside(x, y) implies #[trigger] pix(canvas@, x, y)
            == pix(acc, x, y) by {
            lemma_pixel_number(tw as int, th as int, x, y);
        }
    }
    let center = cut_slice(native, f.center);
    if center.width > 0 && center.height > 0 && cw > 0 && ch > 0 {
        let ghost prev = canvas@;
        if f.tile_center {
            tile(&mut canvas, &center, f.left, f.top, cw, ch);
            proof {
                lemma_tile_congr(
                    prev,
                    acc,
                    center@,
                    slice_img(n, f.center),
                    f.left as int,
                    f.top as int,
                    cw as int,
                    ch as int,
                );
                lemma_same_trans(
                    canvas@,
                    tile_img(prev, center@, f.left as int, f.top as int, cw as int, ch as int),
                    tile_img(acc, slice_img(n, f.center), f.left as int, f.top as int, cw as int, ch as int),
                );
                acc = tile_img(acc, slice_img(n, f.center), f.left as int, f.top as int, cw as int, ch as int);
            }
        } else {
            paste(&mut canvas, stretched, f.left, f.top);
            proof {
                lemma_paste_congr(prev, acc, stretched@, stretched@, f.left as int, f.top as int);
                lemma_same_trans(
                    canvas@,
                    paste_img(prev, stretched@, f.left as int, f.top as int),
                    paste_img(acc, stretched@, f.left as int, f.top as int),
                );
                acc = paste_img(acc, stretched@, f.left as int, f.top as int);
            }
        }
    }
    let tl = cut_slice(native, f.topleft);
    let ghost prev = canvas@;
    paste(&mut canvas, &tl, 0, 0);
    proof {
        lemma_paste_congr(prev, acc, tl@, slice_img(n, f.topleft), 0, 0);
        lemma_same_trans(canvas@, paste_img(prev, tl@, 0, 0), paste_img(acc, slice_img(n, f.topleft), 0, 0));
        acc = paste_img(acc, slice_img(n, f.topleft), 0, 0);
    }
    let tr = cut_slice(native, f.topright);
    let ghost prev = canvas@;
    let trx = tw - tr.width;
    paste(&mut canvas, &tr, trx, 0);
    proof {
        lemma_paste_congr(prev, acc, tr@, slice_img(n, f.topright), trx as int, 0);
        lemma_same_trans(canvas@, paste_img(prev, tr@, trx as int, 0), paste_img(acc, slice_img(n, f.topright), trx as int, 0));
        acc = paste_img(acc, slice_img(n, f.topright), trx as int, 0);
    }
    let bl = cut_slice(native, f.bottomleft);
    let ghost prev = canvas@;
    let bly = th - bl.height;
    paste(&mut canvas, &bl, 0, bly);
    proof {
        lemma_paste_congr(prev, acc, bl@, slice_img(n, f.bottomleft), 0, bly as int);
        lemma_same_trans(canvas@, paste_img(prev, bl@, 0, bly as int), paste_img(acc, slice_img(n, f.bottomleft), 0, bly as int));
        acc = paste_img(acc, slice_img(n, f.bottomleft), 0, bly as int);
    }
    let br = cut_slice(native, f.bottomright);
    let ghost prev = canvas@;
    let brx = tw - br.width;
    let bry = th - br.height;
    paste(&mut canvas, &br, brx, bry);
    proof {
        lemma_paste_congr(prev, acc, br@, slice_img(n, f.bottomright), brx as int, bry as int);
        lemma_same_trans(canvas@, paste_img(prev, br@, brx as int, bry as int), paste_img(acc, slice_img(n, f.bottomright), brx as int, bry as int));
        acc = paste_img(acc, slice_img(n, f.bottomright), brx as int, bry as int);
    }
    let top_side = cut_slice(native, f.top_side);
    let ghost prev = canvas@;
    tile(&mut canvas, &top_side, f.left, 0, cw, f.top);
    proof {
        lemma_tile_congr(prev, acc, top_side@, slice_img(n, f.top_side), f.left as int, 0, cw as int, f.top as int);
        lemma_same_trans(canvas@, tile_img(prev, top_side@, f.left as int, 0, cw as int, f.top as int), tile_img(acc, slice_img(n, f.top_side), f.left as int, 0, cw as int, f.top as int));
        acc = tile_img(acc, slice_img(n, f.top_side), f.left as int, 0, cw as int, f.top as int);
    }
    let bottom_side = cut_slice(native, f.bottom_side);
    let ghost prev = canvas@;
    let by = th - f.bottom;
    tile(&mut canvas, &bottom_side, f.left, by, cw, f.bottom);
    proof {
        lemma_tile_congr(prev, acc, bottom_side@, slice_img(n, f.bottom_side), f.left as int, by as int, cw as int, f.bottom as int);
        lemma_same_trans(canvas@, tile_img(prev, bottom_side@, f.left as int, by as int, cw as int, f.bottom as int), tile_img(acc, slice_img(n, f.bottom_side), f.left as int, by as int, cw as int, f.bottom as int));
        acc = tile_img(acc, slice_img(n, f.bottom_side), f.left as int, by as int, cw as int, f.bottom as int);
    }
    let left_side = cut_slice(native, f.left_side);
    let ghost prev = canvas@;
    tile(&mut canvas, &left_side, 0, f.top, f.left, ch);
    proof {
        lemma_tile_congr(prev, acc, left_side@, slice_img(n, f.left_side), 0, f.top as int, f.left as int, ch as int);
        lemma_same_trans(canvas@, tile_img(prev, left_side@, 0, f.top as int, f.left as int, ch as int), tile_img(acc, slice_img(n, f.left_side), 0, f.top as int, f.left as int, ch as int));
        acc = tile_img(acc, slice_img(n, f.left_side), 0, f.top as int, f.left as int, ch as int);
    }
    let right_side = cut_slice(native, f.right_side);
    let ghost prev = canvas@;
    let rx = tw - f.right;
    tile(&mut canvas, &right_side, rx, f.top, f.right, ch);
    proof {
        lemma_tile_congr(prev, acc, right_side@, slice_img(n, f.right_side), rx as int, f.top as int, f.right as int, ch as int);
        lemma_same_trans(canvas@, tile_img(prev, right_side@, rx as int, f.top as int, f.right as int, ch as int), tile_img(acc, slice_img(n, f.right_side), rx as int, f.top as int, f.right as int, ch as int));
        acc = tile_img(acc, slice_img(n, f.right_side), rx as int, f.top as int, f.right as int, ch as int);
    }
    proof {
        assert(acc == compose_img(n, f, stretched@));
    }
    canvas
}

/// Names the RGBA bytes that `image::imageops::resize` with
/// `FilterType::Triangle` produces when the `width` x `height` image with
/// bytes `pixels` is resampled to `new_width` x `new_height`.
pub uninterp spec fn triangle_resize(
    pixels: Seq<u8>,
    width: u32,
    height: u32,
    new_width: u32,
    new_height: u32,
) -> Seq<u8>;

/// Resample with `image::imageops::resize` and the triangle filter. Trusted:
/// the result has the requested size, four bytes per pixel, and the bytes
/// that the crate computes from the source bytes and both sizes (named, not
/// stated). The sizes are kept nonzero and the float buffers that the crate
/// allocates within `isize`.
#[verifier::external_body]
fn resize_triangle(src: &Pixmap, new_width: u32, new_height: u32) -> (r: Pixmap)
    requires
        src.wf(),
        src.width > 0,
        src.height > 0,
        new_width > 0,
        new_height > 0,
        new_width * new_height * 16 <= isize::MAX,
        src.width * new_height * 16 <= isize::MAX,
    ensures
        r.wf(),
        r.width == new_width,
        r.height == new_height,
        r.data@ == triangle_resize(src.data@, src.width, src.height, new_width, new_height),
{
    let image = image::RgbaImage::from_raw(src.width, src.height, src.data.clone()).unwrap_or_default();
    let out = image::imageops::resize(&image, new_width, new_height, image::imageops::FilterType::Triangle);
    Pixmap { width: new_width, height: new_height, data: out.into_raw() }
}

/// The center slice of `native` resampled to the content area of `f`.
pub open spec fn stretched_center(native: Pixmap, f: FrameLayout) -> Img {
    let (l, t, cw, ch) = clamp_rect(
        native.width as int,
        native.height as int,
        f.center.left as int,
        f.center.top as int,
        f.center.width as int,
        f.center.height as int,
    );
    img_of(
        content_w(f),
        content_h(f),
        triangle_resize(
            crop_bytes(native.data@, native.width as int, l, t, cw, ch),
            cw as u32,
            ch as u32,
            content_w(f) as u32,
            content_h(f) as u32,
        ),
    )
}

/// Compose the 9-slice frame described by `frame` from the native render of
/// its slices: the center stretched (triangle filter) or tiled over the
/// content area, corners at native size, borders tiled.
pub fn compose(native: &Pixmap, frame: &FrameLayout) -> (r: Pixmap)
    requires
        composable(*native, *frame),
    ensures
        r.wf(),
        r.width == frame.target_w,
        r.height == frame.target_h,
        same(r@, compose_img(native@, *frame, stretched_center(*native, *frame))),
{
    let f = *frame;
    let cw = if f.target_w >= f.left + f.right {
        f.target_w - (f.left + f.right)
    } else {
        0
    };
    let ch = if f.target_h >= f.top + f.bottom {
        f.target_h - (f.top + f.bottom)
    } else {
        0
    };
    let center = crop_rect(native, f.center.left, f.center.top, f.center.width, f.center.height);
    if !f.tile_center && center.width > 0 && center.height > 0 && cw > 0 && ch > 0 {
        proof {
            assert(cw * ch * 16 <= f.target_w * f.target_h * 16) by (nonlinear_arith)
                requires
                    cw <= f.target_w,
                    ch <= f.target_h,
            ;
            assert(center.width * ch * 16 <= native.width * f.target_h * 16) by (nonlinear_arith)
                requires
                    center.width <= native.width,
                    ch <= f.target_h,
            ;
        }
        let stretched = resize_triangle(&center, cw, ch);
        proof {
            assert(stretched@ =~= stretched_center(*native, f));
        }
        compose_from(native, frame, &stretched)
    } else {
        let none = Pixmap { width: 0, height: 0, data: Vec::new() };
        compose_from(native, frame, &none)
    }
}

/// Size of the generated panel, mask and highlight images.
pub const FRAME_SIZE: u32 = 200;

/// A pixel as a 1-bit mask paints it: any opacity becomes solid black.
pub open spec fn solid(p: Rgba) -> Rgba {
    if p.3 > 0 {
        (0u8, 0u8, 0u8, 255u8)
    } else {
        p
    }
}

/// `i` with every pixel painted as a 1-bit mask.
pub open spec fn solid_img(i: Img) -> Img {
    Img { w: i.w, h: i.h, at: |x: int, y: int| solid(pix(i, x, y)) }
}

/// A 1-bit mask holds only solid black and fully transparent pixels.
pub proof fn lemma_mask_is_black(i: Img)
    ensures
        forall|x: int, y: int|
            #![trigger pix(solid_img(i), x, y)]
            pix(solid_img(i), x, y) == (0u8, 0u8, 0u8, 255u8) || pix(solid_img(i), x, y).3 == 0,
{
}

/// Turn every pixel with any opacity into solid black.
fn solidify(img: &mut Pixmap)
    requires
        old(img).wf(),
    ensures
        final(img).wf(),
        final(img).width == old(img).width,
        final(img).height == old(img).height,
        same(final(img)@, solid_img(old(img)@)),
{
    let ghost d0 = img.data@;
    let n = img.data.len();
    let mut i: usize = 0;
    let ghost mut j: int = 0;
    while i < n
        invariant
            img.wf(),
            img.width == old(img).width,
            img.height == old(img).height,
            d0 == old(img).data@,
            n == img.data@.len(),
            i == 4 * j,
            0 <= j <= img.width * img.height,
            forall|q: int| 0 <= q < j ==> #[trigger] quad(img.data@, q) == solid(quad(d0, q)),
            forall|q: int| j <= q < img.width * img.height ==> #[trigger] quad(img.data@, q) == quad(d0, q),
        decreases n - i,
    {
        let ghost before = img.data@;
        proof {
            assert(quad(before, j) == quad(d0, j));
        }
        if img.data[i + 3] > 0 {
            img.data.set(i, 0);
            img.data.set(i + 1, 0);
            img.data.set(i + 2, 0);
            img.data.set(i + 3, 255);
        }
        proof {
            assert forall|q: int| 0 <= q < j + 1 implies #[trigger] quad(img.data@, q) == solid(
                quad(d0, q),
            ) by {
                if q < j {
                    assert(quad(img.data@, q) == quad(before, q));
                }
            }
            assert forall|q: int| j + 1 <= q < img.width * img.height implies #[trigger] quad(
                img.data@,
                q,
            ) == quad(d0, q) by {
                assert(quad(img.data@, q) == quad(before, q));
            }
        }
        i = i + 4;
        proof {
            j = j + 1;
        }
    }
    proof {
        assert forall|x: int, y: int| img@.inside(x, y) implies #[trigger] pix(img@, x, y) == pix(
            solid_img(old(img)@),
            x,
            y,
        ) by {
            lemma_pixel_number(img.width as int, img.height as int, x, y);
        }
    }
}

/// The blur mask image: the rendered `mask` frame placed at
/// `(offset_x, offset_y)` on a transparent `FRAME_SIZE` square, then painted
/// as a 1-bit mask (opaque becomes solid black), as `QBitmap` does.
pub fn generate_mask(mask: &Pixmap, offset_x: u32, offset_y: u32) -> (r: Pixmap)
    requires
        mask.wf(),
    ensures
        r.wf(),
        r.width == FRAME_SIZE,
        r.height == FRAME_SIZE,
        same(
            r@,
            solid_img(
                paste_img(
                    blank(FRAME_SIZE as int, FRAME_SIZE as int),
                    mask@,
                    offset_x as int,
                    offset_y as int,
                ),
            ),
        ),
{
    let mut out = Pixmap::transparent(FRAME_SIZE, FRAME_SIZE);
    let ghost b = blank(FRAME_SIZE as int, FRAME_SIZE as int);
    proof {
        assert forall|x: int, y: int| out@.inside(x, y) implies #[trigger] pix(out@, x, y) == pix(
            b,
            x,
            y,
        ) by {
            lemma_pixel_number(FRAME_SIZE as int, FRAME_SIZE as int, x, y);
        }
    }
    let ghost o0 = out@;
    paste(&mut out, mask, offset_x, offset_y);
    proof {
        lemma_paste_congr(o0, b, mask@, mask@, offset_x as int, offset_y as int);
        lemma_same_trans(
            out@,
            paste_img(o0, mask@, offset_x as int, offset_y as int),
            paste_img(b, mask@, offset_x as int, offset_y as int),
        );
    }
    let ghost o1 = out@;
    solidify(&mut out);
    proof {
        let target = paste_img(b, mask@, offset_x as int, offset_y as int);
        assert forall|x: int, y: int| out@.inside(x, y) implies #[trigger] pix(out@, x, y) == pix(
            solid_img(target),
            x,
            y,
        ) by {
            assert(pix(out@, x, y) == pix(solid_img(o1), x, y));
            assert(pix(o1, x, y) == pix(target, x, y));
        }
    }
    out
}

/// Whether `frame` can be composed out of `native` (see [`composable`]):
/// the check a caller makes before [`compose`].
pub fn can_compose(native: &Pixmap, frame: &FrameLayout) -> (r: bool)
    requires
        native.wf(),
    ensures
        r == composable(*native, *frame),
{
    let f = *frame;
    let w = native.width;
    let h = native.height;
    let tr_left = if f.topright.left < w { f.topright.left } else { w };
    let tr_w = if f.topright.width < w - tr_left { f.topright.width } else { w - tr_left };
    let bl_top = if f.bottomleft.top < h { f.bottomleft.top } else { h };
    let bl_h = if f.bottomleft.height < h - bl_top { f.bottomleft.height } else { h - bl_top };
    let br_left = if f.bottomright.left < w { f.bottomright.left } else { w };
    let br_w = if f.bottomright.width < w - br_left { f.bottomright.width } else { w - br_left };
    let br_top = if f.bottomright.top < h { f.bottomright.top } else { h };
    let br_h = if f.bottomright.height < h - br_top { f.bottomright.height } else { h - br_top };
    let limit = (isize::MAX as u128) / 16;
    assert((f.target_w as u128) * (f.target_h as u128) <= 0xffff_ffff * 0xffff_ffff) by (nonlinear_arith)
        requires
            f.target_w <= 0xffff_ffff,
            f.target_h <= 0xffff_ffff,
    ;
    assert((w as u128) * (f.target_h as u128) <= 0xffff_ffff * 0xffff_ffff) by (nonlinear_arith)
        requires
            w <= 0xffff_ffff,
            f.target_h <= 0xffff_ffff,
    ;
    let area = (f.target_w as u128) * (f.target_h as u128);
    let span = (w as u128) * (f.target_h as u128);
    (f.left as u64 + f.right as u64) <= u32::MAX as u64
        && (f.top as u64 + f.bottom as u64) <= u32::MAX as u64
        && f.right <= f.target_w
        && f.bottom <= f.target_h
        && tr_w <= f.target_w
        && bl_h <= f.target_h
        && br_w <= f.target_w
        && br_h <= f.target_h
        && area <= limit
        && span <= limit
}

} // verus!
