use aoide_library::artwork::{
    artwork_thumbnail_image, artwork_thumbnail_image_placeholder, solid_rgb_color, Artwork, Color32,
    RgbColor, ARTWORK_THUMBNAIL_IMAGE_SIZE,
};

fn thumbnail() -> [u8; 48] {
    let mut bytes = [0u8; 48];
    for (i, byte) in bytes.iter_mut().enumerate() {
        *byte = i as u8;
    }
    bytes
}

fn rgb(r: u8, g: u8, b: u8) -> Color32 {
    Color32 { r, g, b, a: 255 }
}

#[test]
fn placeholder_is_transparent() {
    let image = artwork_thumbnail_image_placeholder();
    assert_eq!([6, 6], image.size);
    assert_eq!(6, ARTWORK_THUMBNAIL_IMAGE_SIZE);
    assert_eq!(vec![Color32 { r: 0, g: 0, b: 0, a: 0 }; 36], image.pixels);
}

#[test]
fn solid_colors() {
    assert_eq!(rgb(0x12, 0x34, 0x56), solid_rgb_color(RgbColor { code: 0x123456 }));
}

#[test]
fn thumbnail_inside_border() {
    let artwork = Artwork::Embedded { thumbnail: Some(thumbnail()), color: Some(RgbColor { code: 0xFF0000 }) };
    let image = artwork_thumbnail_image(&artwork, None).unwrap();
    assert_eq!([6, 6], image.size);
    assert_eq!(36, image.pixels.len());
    let border = rgb(0xFF, 0, 0);
    for row in 0..6 {
        for col in 0..6 {
            let pixel = image.pixels[row * 6 + col];
            if (1..=4).contains(&row) && (1..=4).contains(&col) {
                let i = ((row - 1) * 4 + (col - 1)) * 3;
                assert_eq!(rgb(i as u8, i as u8 + 1, i as u8 + 2), pixel);
            } else {
                assert_eq!(border, pixel);
            }
        }
    }
}

#[test]
fn thumbnail_without_color_has_transparent_border() {
    let artwork = Artwork::Embedded { thumbnail: Some(thumbnail()), color: None };
    let image = artwork_thumbnail_image(&artwork, None).unwrap();
    assert_eq!(Color32 { r: 0, g: 0, b: 0, a: 0 }, image.pixels[0]);
    assert_eq!(rgb(0, 1, 2), image.pixels[7]);
    assert_eq!(rgb(45, 46, 47), image.pixels[28]);
    // The default color takes the place of a missing color.
    let image = artwork_thumbnail_image(&artwork, Some(RgbColor { code: 0x00FF00 })).unwrap();
    assert_eq!(rgb(0, 0xFF, 0), image.pixels[35]);
}

#[test]
fn color_without_thumbnail() {
    let artwork = Artwork::Embedded { thumbnail: None, color: Some(RgbColor { code: 0x0000FF }) };
    let image = artwork_thumbnail_image(&artwork, Some(RgbColor { code: 0x00FF00 })).unwrap();
    assert_eq!(vec![rgb(0, 0, 0xFF); 36], image.pixels);
    let artwork = Artwork::Embedded { thumbnail: None, color: None };
    assert_eq!(None, artwork_thumbnail_image(&artwork, None));
    let image = artwork_thumbnail_image(&artwork, Some(RgbColor { code: 0x010203 })).unwrap();
    assert_eq!(vec![rgb(1, 2, 3); 36], image.pixels);
}

#[test]
fn no_thumbnail_without_embedded_artwork() {
    assert_eq!(None, artwork_thumbnail_image(&Artwork::NotEmbedded, Some(RgbColor { code: 1 })));
}
