use api::raster::Raster;

fn encode_png(img: &Raster) -> Vec<u8> {
    let buffer = image::RgbaImage::from_raw(img.width, img.height, img.pixels.clone()).unwrap();
    let mut out = Vec::new();
    image::DynamicImage::ImageRgba8(buffer)
        .write_to(&mut std::io::Cursor::new(&mut out), image::ImageFormat::Png)
        .unwrap();
    out
}

fn decode_png(bytes: &[u8]) -> Raster {
    let img = image::load_from_memory_with_format(bytes, image::ImageFormat::Png).unwrap().to_rgba8();
    Raster { width: img.width(), height: img.height(), pixels: img.into_raw() }
}
use api::{AppError, Blob, Texture, TextureType};

/// A skin whose pixel (x, y) holds red x, green y, blue 7; alpha 0 where `clear` says so.
fn skin(w: u32, h: u32, clear: impl Fn(u32, u32) -> bool) -> Raster {
    let mut pixels = Vec::new();
    for y in 0..h {
        for x in 0..w {
            let a = if clear(x, y) { 0 } else { 255 };
            pixels.extend_from_slice(&[x as u8, y as u8, 7, a]);
        }
    }
    Raster { width: w, height: h, pixels }
}

fn texture_of(img: &Raster, t: TextureType) -> Texture {
    Texture {
        id: "t".to_string(),
        skin_name: "s".to_string(),
        texture_type: t,
        image_data: Blob(encode_png(img)),
        owner_id: None,
    }
}

fn pixel(img: &Raster, x: u32, y: u32) -> [u8; 4] {
    let i = ((y * img.width + x) * 4) as usize;
    [img.pixels[i], img.pixels[i + 1], img.pixels[i + 2], img.pixels[i + 3]]
}

fn preview_of(img: &Raster, t: TextureType) -> Raster {
    let blob = texture_of(img, t).get_preview().unwrap();
    decode_png(&blob.0)
}

#[test]
fn square_skin_preview_with_opaque_second_layer() {
    let p = preview_of(&skin(64, 64, |_, _| false), TextureType::Skin);
    assert_eq!((p.width, p.height), (18, 34));
    // The second layer covers the first: head from (40, 8), body from (20, 36).
    assert_eq!(pixel(&p, 4, 0), [40, 8, 7, 255]);
    assert_eq!(pixel(&p, 11, 7), [47, 15, 7, 255]);
    assert_eq!(pixel(&p, 4, 8), [20, 36, 7, 255]);
    assert_eq!(pixel(&p, 8, 20), [4, 52, 7, 255]);
    assert_eq!(pixel(&p, 12, 8), [52, 52, 7, 255]);
    // Outside the figure the canvas stays transparent.
    assert_eq!(pixel(&p, 0, 0), [0, 0, 0, 0]);
    assert_eq!(pixel(&p, 17, 33), [0, 0, 0, 0]);
}

#[test]
fn square_skin_preview_with_transparent_second_layer() {
    let clear = |x: u32, y: u32| (x >= 32 && y < 16) || (32..48).contains(&y) || (y >= 48 && (x < 16 || x >= 48));
    let p = preview_of(&skin(64, 64, clear), TextureType::Skin);
    assert_eq!(pixel(&p, 4, 0), [8, 8, 7, 255]);
    assert_eq!(pixel(&p, 4, 8), [20, 20, 7, 255]);
    assert_eq!(pixel(&p, 4, 20), [4, 20, 7, 255]);
    assert_eq!(pixel(&p, 8, 20), [20, 52, 7, 255]);
    assert_eq!(pixel(&p, 0, 8), [44, 20, 7, 255]);
    assert_eq!(pixel(&p, 12, 8), [36, 52, 7, 255]);
    assert_eq!(pixel(&p, 15, 19), [39, 63, 7, 255]);
}

#[test]
fn legacy_skin_preview_mirrors_limbs() {
    let clear = |x: u32, y: u32| x >= 32 && y < 16;
    let p = preview_of(&skin(64, 32, clear), TextureType::Skin);
    assert_eq!((p.width, p.height), (18, 34));
    assert_eq!(pixel(&p, 4, 20), [4, 20, 7, 255]);
    assert_eq!(pixel(&p, 8, 20), [4, 20, 7, 255]);
    assert_eq!(pixel(&p, 0, 8), [44, 20, 7, 255]);
    assert_eq!(pixel(&p, 12, 8), [44, 20, 7, 255]);
    assert_eq!(pixel(&p, 4, 0), [8, 8, 7, 255]);
}

#[test]
fn double_size_skin_preview_scales() {
    let p = preview_of(&skin(128, 128, |_, _| false), TextureType::Skin);
    assert_eq!((p.width, p.height), (36, 68));
    assert_eq!(pixel(&p, 8, 0), [80, 16, 7, 255]);
    assert_eq!(pixel(&p, 8, 16), [40, 72, 7, 255]);
}

#[test]
fn other_textures_preview_as_themselves() {
    let img = skin(64, 32, |x, _| x % 2 == 0);
    let p = preview_of(&img, TextureType::Cape);
    assert_eq!(p, img);
}

#[test]
fn skin_too_low_for_its_layout_is_refused() {
    let t = texture_of(&skin(100, 60, |_, _| false), TextureType::Skin);
    assert!(matches!(t.get_preview(), Err(AppError::Other(_))));
}

#[test]
fn data_that_is_not_png_is_refused() {
    let mut t = Texture { image_data: Blob(vec![1, 2, 3]), ..Texture::default() };
    assert!(matches!(t.get_preview(), Err(AppError::Other(_))));
    assert!(matches!(t.compress(), Err(AppError::Other(_))));
    assert_eq!(t.image_data, Blob(vec![1, 2, 3]));
}

#[test]
fn compress_keeps_the_image() {
    let img = skin(64, 64, |x, y| (x + y) % 3 == 0);
    let mut t = texture_of(&img, TextureType::Skin);
    t.compress().unwrap();
    assert_eq!(decode_png(&t.image_data.0), img);
    let once = t.image_data.clone();
    t.compress().unwrap();
    assert_eq!(t.image_data, once);
}

#[test]
fn raster_crop_and_replace() {
    let img = skin(4, 3, |_, _| false);
    let c = img.crop(1, 1, 2, 2);
    assert_eq!((c.width, c.height), (2, 2));
    assert_eq!(pixel(&c, 0, 0), [1, 1, 7, 255]);
    assert_eq!(pixel(&c, 1, 1), [2, 2, 7, 255]);
    let mut canvas = Raster::blank(3, 3);
    canvas.replace(&c, 2, 1);
    assert_eq!(pixel(&canvas, 2, 1), [1, 1, 7, 255]);
    assert_eq!(pixel(&canvas, 2, 2), [1, 2, 7, 255]);
    assert_eq!(pixel(&canvas, 0, 0), [0, 0, 0, 0]);
    assert_eq!(canvas.pixels.len(), 36);
}

#[test]
fn legacy_red_skin_preview_layout() {
    let p = preview_of(&Raster { width: 64, height: 32, pixels: [255, 0, 0, 255].repeat(64 * 32) }, TextureType::Skin);
    assert_eq!((p.width, p.height), (18, 34));
    for y in 0..34 {
        for x in 0..18 {
            let inside = (y < 8 && (4..12).contains(&x))
                || ((8..20).contains(&y) && x < 16)
                || ((20..32).contains(&y) && (4..12).contains(&x));
            let expected = if inside { [255, 0, 0, 255] } else { [0, 0, 0, 0] };
            assert_eq!(pixel(&p, x, y), expected, "pixel ({x}, {y})");
        }
    }
}

#[test]
fn transparent_hat_leaves_the_face() {
    let mut pixels = Vec::new();
    for y in 0..64u32 {
        for x in 0..64u32 {
            let face = (8..16).contains(&x) && (8..16).contains(&y);
            pixels.extend_from_slice(if face { &[255, 0, 0, 255] } else { &[0, 0, 0, 0] });
        }
    }
    let p = preview_of(&Raster { width: 64, height: 64, pixels }, TextureType::Skin);
    for y in 0..34 {
        for x in 0..18 {
            let face = (4..12).contains(&x) && y < 8;
            let expected = if face { [255, 0, 0, 255] } else { [0, 0, 0, 0] };
            assert_eq!(pixel(&p, x, y), expected, "pixel ({x}, {y})");
        }
    }
}

#[test]
fn opaque_hat_replaces_the_face_and_half_transparent_blends() {
    // Face (8..16, 8..16) red; hat (40..48, 8..16): left half opaque blue,
    // right half blue at half alpha.
    let mut pixels = Vec::new();
    for y in 0..64u32 {
        for x in 0..64u32 {
            let px: [u8; 4] = if (8..16).contains(&x) && (8..16).contains(&y) {
                [255, 0, 0, 255]
            } else if (40..44).contains(&x) && (8..16).contains(&y) {
                [0, 0, 255, 255]
            } else if (44..48).contains(&x) && (8..16).contains(&y) {
                [0, 0, 255, 128]
            } else {
                [0, 0, 0, 0]
            };
            pixels.extend_from_slice(&px);
        }
    }
    let p = preview_of(&Raster { width: 64, height: 64, pixels }, TextureType::Skin);
    assert_eq!(pixel(&p, 4, 0), [0, 0, 255, 255]);
    let mixed = pixel(&p, 8, 0);
    assert!(mixed != [255, 0, 0, 255] && mixed != [0, 0, 255, 255]);
    assert!(mixed[0] > 0 && mixed[2] > 0 && mixed[3] > 128);
}

#[test]
fn scaled_skin_preview_has_clear_margins() {
    let p = preview_of(&skin(192, 192, |_, _| false), TextureType::Skin);
    assert_eq!((p.width, p.height), (54, 102));
    for y in 0..102 {
        for x in 0..54 {
            if x >= 48 || y >= 96 {
                assert_eq!(pixel(&p, x, y), [0, 0, 0, 0], "pixel ({x}, {y})");
            }
        }
    }
}

#[test]
fn cape_preview_reads_back_as_the_image() {
    let img = skin(22, 17, |x, y| (x * y) % 5 == 0);
    assert_eq!(preview_of(&img, TextureType::Cape), img);
    assert_eq!(preview_of(&img, TextureType::Elytra), img);
}
