use gallery::thumbnail::{centre_crop, centre_crop_box, make_thumbnail, render_thumbnail, CropBox, THUMBNAIL_SIZE};
use image::{DynamicImage, ImageFormat};
use std::io::Cursor;

fn png_bytes(w: u32, h: u32) -> Vec<u8> {
    let img = DynamicImage::new_rgb8(w, h);
    let mut out = Cursor::new(Vec::new());
    img.write_to(&mut out, ImageFormat::Png).unwrap();
    out.into_inner()
}

#[test]
fn wide_image_gives_rectangular_thumbnail() {
    let t = make_thumbnail(&DynamicImage::new_rgb8(400, 100)).unwrap();
    assert_eq!((t.width(), t.height()), (200, 50));
}

#[test]
fn tall_image_gives_rectangular_thumbnail() {
    let t = make_thumbnail(&DynamicImage::new_rgb8(100, 400)).unwrap();
    assert_eq!((t.width(), t.height()), (50, 200));
}

#[test]
fn square_image_gives_square_thumbnail() {
    let t = make_thumbnail(&DynamicImage::new_rgb8(300, 300)).unwrap();
    assert_eq!((t.width(), t.height()), (THUMBNAIL_SIZE, THUMBNAIL_SIZE));
    let small = make_thumbnail(&DynamicImage::new_rgb8(20, 20)).unwrap();
    assert_eq!((small.width(), small.height()), (200, 200));
}

#[test]
fn empty_image_has_no_thumbnail() {
    assert!(make_thumbnail(&DynamicImage::new_rgb8(0, 5)).is_none());
}

#[test]
fn centre_crop_box_is_centred_and_rounds_down() {
    assert_eq!(centre_crop_box(250, 100, 200), CropBox { x: 25, y: 0, width: 200, height: 100 });
    assert_eq!(centre_crop_box(201, 203, 200), CropBox { x: 0, y: 1, width: 200, height: 200 });
    assert_eq!(centre_crop_box(200, 50, 200), CropBox { x: 0, y: 0, width: 200, height: 50 });
}

#[test]
fn centre_crop_cuts_the_middle() {
    let c = centre_crop(&DynamicImage::new_rgb8(300, 100), 200);
    assert_eq!((c.width(), c.height()), (200, 100));
}

#[test]
fn rendering_decodes_then_transforms() {
    let t = render_thumbnail(&png_bytes(400, 100)).unwrap();
    assert_eq!((t.width(), t.height()), (200, 50));
}

#[test]
fn undecodable_bytes_give_no_thumbnail() {
    assert!(render_thumbnail(b"not an image at all").is_none());
    assert!(render_thumbnail(&[]).is_none());
}

#[test]
fn shorter_side_is_rounded_to_nearest() {
    let t = make_thumbnail(&DynamicImage::new_rgb8(300, 100)).unwrap();
    assert_eq!((t.width(), t.height()), (200, 67));
    let u = make_thumbnail(&DynamicImage::new_rgb8(1000, 1)).unwrap();
    assert_eq!((u.width(), u.height()), (200, 1));
}

#[test]
fn centre_crop_keeps_the_centred_region() {
    let mut buf = image::RgbImage::new(300, 100);
    buf.put_pixel(50, 0, image::Rgb([255, 0, 0]));
    buf.put_pixel(249, 99, image::Rgb([0, 255, 0]));
    let c = centre_crop(&DynamicImage::ImageRgb8(buf), 200).to_rgb8();
    assert_eq!(*c.get_pixel(0, 0), image::Rgb([255, 0, 0]));
    assert_eq!(*c.get_pixel(199, 99), image::Rgb([0, 255, 0]));
    assert_eq!(*c.get_pixel(1, 0), image::Rgb([0, 0, 0]));
}

#[test]
fn truncated_bytes_give_no_thumbnail() {
    let b = png_bytes(10, 10);
    assert!(render_thumbnail(&b[..b.len() / 2]).is_none());
}
