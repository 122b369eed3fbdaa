//! Thumbnail images of artwork for the track list: a 4x4 thumbnail inside a
//! border of one pixel.

use vstd::prelude::*;

verus! {

/// The width and height of an artwork thumbnail in pixels.
pub const ARTWORK_THUMBNAIL_SIZE: usize = 4;

/// The width of the border around a thumbnail in pixels.
pub const ARTWORK_THUMBNAIL_BORDER_SIZE: usize = 1;

/// The width and height of a thumbnail image with its border.
pub const ARTWORK_THUMBNAIL_IMAGE_SIZE: usize = ARTWORK_THUMBNAIL_SIZE + 2 * ARTWORK_THUMBNAIL_BORDER_SIZE;

/// A color as the display stores it: red, green, blue and alpha, with the
/// color channels premultiplied by alpha.
#[derive(Debug, Clone, Copy, PartialEq, Eq, Structural)]
pub struct Color32 {
    pub r: u8,
    pub g: u8,
    pub b: u8,
    pub a: u8,
}

/// Fully transparent.
pub open spec fn transparent() -> Color32 {
    Color32 { r: 0, g: 0, b: 0, a: 0 }
}

/// An opaque color.
pub open spec fn opaque(r: u8, g: u8, b: u8) -> Color32 {
    Color32 { r, g, b, a: 255 }
}

impl Color32 {
    pub fn transparent() -> (color: Color32)
        ensures
            color == transparent(),
    {
        Color32 { r: 0, g: 0, b: 0, a: 0 }
    }

    pub fn from_rgb(r: u8, g: u8, b: u8) -> (color: Color32)
        ensures
            color == opaque(r, g, b),
    {
        Color32 { r, g, b, a: 255 }
    }
}

/// An RGB color, coded as `0xRRGGBB`.
#[derive(Debug, Clone, Copy, PartialEq, Eq, Structural)]
pub struct RgbColor {
    pub code: u32,
}

pub open spec fn red(color: RgbColor) -> u8 {
    (color.code >> 16u32) as u8
}

pub open spec fn green(color: RgbColor) -> u8 {
    (color.code >> 8u32) as u8
}

pub open spec fn blue(color: RgbColor) -> u8 {
    color.code as u8
}

/// An image of `size[0]` by `size[1]` pixels, row by row.
#[derive(Debug, Clone, PartialEq, Eq)]
pub struct ColorImage {
    pub size: [usize; 2],
    pub pixels: Vec<Color32>,
}

/// The artwork of a track, as far as thumbnails are concerned.
#[derive(Debug, Clone, Copy, PartialEq, Eq)]
pub enum Artwork {
    /// An image embedded in the media file, possibly with a thumbnail of
    /// 4x4 RGB pixels and a dominant color.
    Embedded { thumbnail: Option<[u8; 48]>, color: Option<RgbColor> },
    /// No embedded image: missing, unsupported or linked.
    NotEmbedded,
}

/// An opaque color from an RGB color.
pub fn solid_rgb_color(color: RgbColor) -> (solid: Color32)
    ensures
        solid == opaque(red(color), green(color), blue(color)),
{
    Color32::from_rgb((color.code >> 16u32) as u8, (color.code >> 8u32) as u8, color.code as u8)
}

/// The pixel of a bordered thumbnail at `row` and `col`: the thumbnail pixel
/// inside the border, and the border color on it.
pub open spec fn framed_pixel(pixels: Seq<Color32>, border_color: Color32, row: int, col: int) -> Color32 {
    if 1 <= row <= 4 && 1 <= col <= 4 {
        pixels[(row - 1) * 4 + (col - 1)]
    } else {
        border_color
    }
}

/// A thumbnail image of the given 4x4 pixels, row by row, inside a border.
pub open spec fn framed_pixels(pixels: Seq<Color32>, border_color: Color32) -> Seq<Color32> {
    Seq::new(36, |i: int| framed_pixel(pixels, border_color, i / 6, i % 6))
}

/// The 4x4 pixels of an RGB thumbnail, three bytes for each pixel.
pub open spec fn rgb_pixels(thumbnail: Seq<u8>) -> Seq<Color32> {
    Seq::new(16, |i: int| opaque(thumbnail[3 * i], thumbnail[3 * i + 1], thumbnail[3 * i + 2]))
}

/// `image` is a thumbnail image with the given pixels.
pub open spec fn is_thumbnail_image(image: ColorImage, pixels: Seq<Color32>) -> bool {
    &&& image.size[0] == 6
    &&& image.size[1] == 6
    &&& image.pixels@ == pixels
}

proof fn lemma_row_col(row: int, col: int)
    requires
        0 <= row < 6,
        0 <= col < 6,
    ensures
        (row * 6 + col) / 6 == row,
        (row * 6 + col) % 6 == col,
{
    vstd::arithmetic::div_mod::lemma_fundamental_div_mod_converse(row * 6 + col, 6, row, col);
}

fn artwork_thumbnail_image_with_solid_color(color: Color32) -> (image: ColorImage)
    ensures
        is_thumbnail_image(image, Seq::new(36, |i: int| color)),
{
    let mut pixels: Vec<Color32> = Vec::new();
    let mut i: usize = 0;
    while i < 36
        invariant
            i <= 36,
            pixels@ == Seq::new(i as nat, |j: int| color),
        decreases 36 - i,
    {
        pixels.push(color);
        i += 1;
    }
    ColorImage { size: [ARTWORK_THUMBNAIL_IMAGE_SIZE, ARTWORK_THUMBNAIL_IMAGE_SIZE], pixels }
}

/// The image for a track without artwork: transparent.
pub fn artwork_thumbnail_image_placeholder() -> (image: ColorImage)
    ensures
        is_thumbnail_image(image, Seq::new(36, |i: int| transparent())),
{
    artwork_thumbnail_image_with_solid_color(Color32::transparent())
}

/// The 4x4 thumbnail pixels inside a border of `border_color`: the first
/// 16 pixels, row by row; any further ones are left out.
fn artwork_thumbnail_image_from_pixels(pixels: &Vec<Color32>, border_color: Color32) -> (image: ColorImage)
    requires
        pixels.len() >= 16,
    ensures
        is_thumbnail_image(image, framed_pixels(pixels@, border_color)),
{
    let mut framed: Vec<Color32> = Vec::new();
    let mut row: usize = 0;
    while row < 6
        invariant
            row <= 6,
            pixels.len() >= 16,
            framed.len() == row * 6,
            forall|k: int| 0 <= k < framed.len() ==> #[trigger] framed@[k] == framed_pixel(pixels@, border_color, k / 6, k % 6),
        decreases 6 - row,
    {
        let mut col: usize = 0;
        while col < 6
            invariant
                row < 6,
                col <= 6,
                pixels.len() >= 16,
                framed.len() == row * 6 + col,
                forall|k: int| 0 <= k < framed.len() ==> #[trigger] framed@[k] == framed_pixel(pixels@, border_color, k / 6, k % 6),
            decreases 6 - col,
        {
            let color = if 1 <= row && row <= 4 && 1 <= col && col <= 4 {
                pixels[(row - 1) * 4 + (col - 1)]
            } else {
                border_color
            };
            proof {
                lemma_row_col(row as int, col as int);
            }
            framed.push(color);
            col += 1;
        }
        row += 1;
    }
    assert(framed@ =~= framed_pixels(pixels@, border_color));
    ColorImage { size: [ARTWORK_THUMBNAIL_IMAGE_SIZE, ARTWORK_THUMBNAIL_IMAGE_SIZE], pixels: framed }
}

/// An RGB thumbnail, three bytes for each of its 4x4 pixels, inside a
/// border of `border_color`.
fn artwork_thumbnail_image_from_rgb_pixels(thumbnail: &[u8; 48], border_color: Color32) -> (image: ColorImage)
    ensures
        is_thumbnail_image(image, framed_pixels(rgb_pixels(thumbnail@), border_color)),
{
    let mut pixels: Vec<Color32> = Vec::new();
    let mut i: usize = 0;
    while i < 16
        invariant
            i <= 16,
            thumbnail@.len() == 48,
            pixels@ == rgb_pixels(thumbnail@).take(i as int),
        decreases 16 - i,
    {
        pixels.push(Color32::from_rgb(thumbnail[3 * i], thumbnail[3 * i + 1], thumbnail[3 * i + 2]));
        assert(pixels@ =~= rgb_pixels(thumbnail@).take(i + 1));
        i += 1;
    }
    assert(pixels@ =~= rgb_pixels(thumbnail@));
    artwork_thumbnail_image_from_pixels(&pixels, border_color)
}

/// The thumbnail image of an artwork, if it is embedded: its thumbnail
/// inside a border of its color, or, without a thumbnail, its color alone.
/// Without a color of its own, the artwork takes `default_color`; without
/// any color, the border is transparent and there is no image without a
/// thumbnail.
pub open spec fn thumbnail_image_of(artwork: Artwork, default_color: Option<RgbColor>) -> Option<Seq<Color32>> {
    match artwork {
        Artwork::NotEmbedded => None,
        Artwork::Embedded { thumbnail, color } => {
            let color = match color {
                Some(c) => Some(c),
                None => default_color,
            };
            match thumbnail {
                None => match color {
                    Some(c) => Some(Seq::new(36, |i: int| opaque(red(c), green(c), blue(c)))),
                    None => None,
                },
                Some(t) => Some(
                    framed_pixels(
                        rgb_pixels(t@),
                        match color {
                            Some(c) => opaque(red(c), green(c), blue(c)),
                            None => transparent(),
                        },
                    ),
                ),
            }
        },
    }
}

/// The thumbnail image of an artwork, as [`thumbnail_image_of`] says.
pub fn artwork_thumbnail_image(artwork: &Artwork, default_color: Option<RgbColor>) -> (image: Option<ColorImage>)
    ensures
        match thumbnail_image_of(*artwork, default_color) {
            Some(pixels) => image matches Some(img) && is_thumbnail_image(img, pixels),
            None => image is None,
        },
{
    match artwork {
        Artwork::NotEmbedded => None,
        Artwork::Embedded { thumbnail, color } => {
            let color = match color {
                Some(c) => Some(*c),
                None => default_color,
            };
            match thumbnail {
                None => match color {
                    Some(c) => Some(artwork_thumbnail_image_with_solid_color(solid_rgb_color(c))),
                    None => None,
                },
                Some(t) => {
                    let border_color = match color {
                        Some(c) => solid_rgb_color(c),
                        None => Color32::transparent(),
                    };
                    Some(artwork_thumbnail_image_from_rgb_pixels(t, border_color))
                },
            }
        },
    }
}

} // verus!
