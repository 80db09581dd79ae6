use fcitx_autotheme::breeze::generator::bitmap_mask;
use fcitx_autotheme::breeze::render::{encode_png, unpremultiply, Pixmap};

fn px(p: &Pixmap, x: u32, y: u32) -> [u8; 4] {
    let i = ((y * p.width + x) * 4) as usize;
    [p.data[i], p.data[i + 1], p.data[i + 2], p.data[i + 3]]
}

fn solid(w: u32, h: u32, c: [u8; 4]) -> Pixmap {
    let mut p = Pixmap::new(w, h);
    for y in 0..h {
        for x in 0..w {
            p.put_pixel(x, y, (c[0], c[1], c[2], c[3]));
        }
    }
    p
}

#[test]
fn new_pixmap_is_transparent() {
    let p = Pixmap::new(3, 2);
    assert_eq!(p.data, vec![0u8; 24]);
}

#[test]
fn fill_transparent_clears() {
    let mut p = solid(2, 2, [1, 2, 3, 4]);
    p.fill_transparent();
    assert_eq!(p.data, vec![0u8; 16]);
}

#[test]
fn draw_opaque_copies_and_clips() {
    let mut dst = Pixmap::new(3, 3);
    let src = solid(2, 2, [10, 20, 30, 255]);
    dst.draw_pixmap(2, -1, &src);
    assert_eq!(px(&dst, 2, 0), [10, 20, 30, 255]);
    assert_eq!(px(&dst, 1, 0), [0, 0, 0, 0]);
    assert_eq!(px(&dst, 2, 1), [0, 0, 0, 0]);
}

#[test]
fn draw_half_transparent_over_opaque() {
    let mut dst = solid(1, 1, [0, 0, 0, 255]);
    let src = solid(1, 1, [255, 255, 255, 128]);
    dst.draw_pixmap(0, 0, &src);
    // alpha 128 + 255*127/255 = 255; channel (255*128 + 0) / 255 = 128.
    assert_eq!(px(&dst, 0, 0), [128, 128, 128, 255]);
}

#[test]
fn draw_transparent_source_keeps_destination() {
    let mut dst = solid(1, 1, [5, 6, 7, 8]);
    let src = solid(1, 1, [255, 255, 255, 0]);
    dst.draw_pixmap(0, 0, &src);
    assert_eq!(px(&dst, 0, 0), [5, 6, 7, 8]);
}

#[test]
fn premultiply_round_trip() {
    let p = solid(1, 1, [200, 100, 50, 128]);
    let pre = p.premultiplied();
    assert_eq!(pre, vec![100, 50, 25, 128]);
    let back = unpremultiply(1, 1, &pre);
    assert_eq!(back.data, vec![199, 99, 49, 128]);
    let clear = unpremultiply(1, 1, &vec![9, 9, 9, 0]);
    assert_eq!(clear.data, vec![0, 0, 0, 0]);
}

#[test]
fn bitmap_mask_blackens_opaque_pixels() {
    let mut p = Pixmap::new(2, 1);
    p.put_pixel(0, 0, (200, 100, 50, 1));
    let m = bitmap_mask(&p);
    assert_eq!(m.data, vec![0, 0, 0, 255, 0, 0, 0, 0]);
}

#[test]
fn png_encoding_round_trips() {
    let mut p = Pixmap::new(2, 1);
    p.put_pixel(0, 0, (1, 2, 3, 4));
    p.put_pixel(1, 0, (250, 251, 252, 253));
    let bytes = fcitx_autotheme::breeze::render::encode_png(&p).expect("encode");
    assert_eq!(&bytes[..8], &[0x89, b'P', b'N', b'G', 0x0d, 0x0a, 0x1a, 0x0a]);
    let decoder = png::Decoder::new(std::io::Cursor::new(bytes));
    let mut reader = decoder.read_info().expect("info");
    let mut buf = vec![0; reader.output_buffer_size().expect("size")];
    let info = reader.next_frame(&mut buf).expect("frame");
    assert_eq!((info.width, info.height), (2, 1));
    assert_eq!(&buf[..info.buffer_size()], &[1, 2, 3, 4, 250, 251, 252, 253]);
}

#[test]
fn white_over_white_stays_white() {
    let mut d = Pixmap { width: 1, height: 1, data: vec![255, 255, 255, 2] };
    let s = Pixmap { width: 1, height: 1, data: vec![255, 255, 255, 1] };
    d.draw_pixmap(0, 0, &s);
    assert_eq!(d.data, vec![255, 255, 255, 2]);
}

#[test]
fn encoding_a_nonempty_pixmap_succeeds() {
    let p = solid(2, 1, [10, 20, 30, 255]);
    let bytes = encode_png(&p).unwrap();
    assert_eq!(&bytes[..8], &[137u8, 80, 78, 71, 13, 10, 26, 10][..]);
    assert!(encode_png(&Pixmap::new(0, 3)).is_err());
}
