use fcitx_autotheme::breeze::render::Pixmap;
use fcitx_autotheme::plasma::frame::{
    compose, composite_over, crop_rect, generate_mask, paste, tile, FrameLayout, SliceRect, FRAME_SIZE,
};

fn px(p: &Pixmap, x: u32, y: u32) -> [u8; 4] {
    let i = ((y * p.width + x) * 4) as usize;
    [p.data[i], p.data[i + 1], p.data[i + 2], p.data[i + 3]]
}

fn from_pixel(w: u32, h: u32, c: [u8; 4]) -> Pixmap {
    let mut data = Vec::new();
    for _ in 0..(w * h) {
        data.extend_from_slice(&c);
    }
    Pixmap { width: w, height: h, data }
}

#[test]
fn tile_covers_rect_with_partials() {
    let src = from_pixel(2, 2, [255, 0, 0, 255]);
    let mut dst = Pixmap::transparent(5, 3);
    tile(&mut dst, &src, 0, 0, 5, 3);
    for y in 0..3 {
        for x in 0..5 {
            assert_eq!(px(&dst, x, y), [255, 0, 0, 255], "at {x},{y}");
        }
    }
}

#[test]
fn crop_clamps_to_image() {
    let img = Pixmap::transparent(10, 10);
    let c = crop_rect(&img, 8, 8, 10, 10);
    assert_eq!(c.width, 2);
    assert_eq!(c.height, 2);
}

#[test]
fn tile_repeats_source_pattern() {
    let mut src = Pixmap::transparent(2, 1);
    src.put_pixel(0, 0, (1, 1, 1, 255));
    src.put_pixel(1, 0, (2, 2, 2, 255));
    let mut dst = Pixmap::transparent(6, 2);
    tile(&mut dst, &src, 1, 0, 3, 2);
    assert_eq!(px(&dst, 0, 0), [0, 0, 0, 0]);
    assert_eq!(px(&dst, 1, 1), [1, 1, 1, 255]);
    assert_eq!(px(&dst, 2, 1), [2, 2, 2, 255]);
    assert_eq!(px(&dst, 3, 0), [1, 1, 1, 255]);
    assert_eq!(px(&dst, 4, 0), [0, 0, 0, 0]);
}

#[test]
fn crop_copies_window() {
    let mut img = Pixmap::transparent(3, 3);
    img.put_pixel(2, 1, (9, 8, 7, 6));
    let c = crop_rect(&img, 1, 1, 2, 2);
    assert_eq!(px(&c, 1, 0), [9, 8, 7, 6]);
    assert_eq!(c.data.len(), 16);
}

#[test]
fn paste_overwrites_and_clips() {
    let mut dst = from_pixel(3, 3, [1, 1, 1, 255]);
    let src = from_pixel(2, 2, [0, 0, 0, 0]);
    paste(&mut dst, &src, 2, 2);
    assert_eq!(px(&dst, 2, 2), [0, 0, 0, 0]);
    assert_eq!(px(&dst, 1, 1), [1, 1, 1, 255]);
}

#[test]
fn composite_over_blends() {
    let mut dst = from_pixel(1, 1, [0, 0, 0, 255]);
    let src = from_pixel(1, 1, [255, 255, 255, 128]);
    composite_over(&mut dst, &src, 0, 0);
    assert_eq!(px(&dst, 0, 0), [128, 128, 128, 255]);
    let clear = from_pixel(1, 1, [9, 9, 9, 0]);
    composite_over(&mut dst, &clear, 0, 0);
    assert_eq!(px(&dst, 0, 0), [128, 128, 128, 255]);
}

#[test]
fn mask_is_black_where_opaque() {
    let mut mask = Pixmap::transparent(2, 1);
    mask.put_pixel(0, 0, (100, 50, 25, 3));
    let out = generate_mask(&mask, 5, 7);
    assert_eq!(out.width, FRAME_SIZE);
    assert_eq!(px(&out, 5, 7), [0, 0, 0, 255]);
    assert_eq!(px(&out, 6, 7), [0, 0, 0, 0]);
    assert_eq!(px(&out, 0, 0), [0, 0, 0, 0]);
}

fn rect(left: u32, top: u32, width: u32, height: u32) -> SliceRect {
    SliceRect { left, top, width, height }
}

/// A 3x3 native render whose nine pixels are the nine slices.
fn nine() -> (Pixmap, FrameLayout) {
    let mut native = Pixmap::transparent(3, 3);
    for y in 0..3u32 {
        for x in 0..3u32 {
            let v = (y * 3 + x + 1) as u8;
            native.put_pixel(x, y, (v, v, v, 255));
        }
    }
    let layout = FrameLayout {
        target_w: 5,
        target_h: 4,
        left: 1,
        right: 1,
        top: 1,
        bottom: 1,
        tile_center: true,
        center: rect(1, 1, 1, 1),
        topleft: rect(0, 0, 1, 1),
        topright: rect(2, 0, 1, 1),
        bottomleft: rect(0, 2, 1, 1),
        bottomright: rect(2, 2, 1, 1),
        top_side: rect(1, 0, 1, 1),
        bottom_side: rect(1, 2, 1, 1),
        left_side: rect(0, 1, 1, 1),
        right_side: rect(2, 1, 1, 1),
    };
    (native, layout)
}

#[test]
fn compose_places_nine_slices() {
    let (native, layout) = nine();
    let out = compose(&native, &layout);
    assert_eq!((out.width, out.height), (5, 4));
    assert_eq!(px(&out, 0, 0)[0], 1);
    assert_eq!(px(&out, 2, 0)[0], 2);
    assert_eq!(px(&out, 4, 0)[0], 3);
    assert_eq!(px(&out, 0, 2)[0], 4);
    assert_eq!(px(&out, 2, 2)[0], 5);
    assert_eq!(px(&out, 4, 1)[0], 6);
    assert_eq!(px(&out, 0, 3)[0], 7);
    assert_eq!(px(&out, 3, 3)[0], 8);
    assert_eq!(px(&out, 4, 3)[0], 9);
}

#[test]
fn compose_stretches_center_of_same_size_as_copy() {
    let (native, mut layout) = nine();
    layout.tile_center = false;
    layout.target_w = 3;
    layout.target_h = 3;
    let out = compose(&native, &layout);
    assert_eq!(out.data, native.data);
}

#[test]
fn compose_stretches_center_to_the_content_area() {
    let (native, mut layout) = nine();
    layout.tile_center = false;
    let out = compose(&native, &layout);
    for y in 1..3u32 {
        for x in 1..4u32 {
            assert_eq!(px(&out, x, y), [5, 5, 5, 255], "at {x},{y}");
        }
    }
}

#[test]
fn composite_keeps_channels_in_range() {
    let mut d = from_pixel(1, 1, [255, 255, 255, 2]);
    let s = from_pixel(1, 1, [255, 255, 255, 1]);
    composite_over(&mut d, &s, 0, 0);
    assert_eq!(px(&d, 0, 0), [255, 255, 255, 2]);
}
