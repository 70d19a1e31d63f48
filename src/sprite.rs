//! Pixel-accurate hit test against a sprite's alpha channel.
use vstd::prelude::*;
use crate::geometry::Point;

verus! {

/// Bytes per pixel of an RGBA8 buffer.
pub const BYTES_PER_PIXEL: u32 = 4;

/// Offset of the alpha byte within a pixel.
pub const ALPHA_OFFSET: u32 = 3;

/// A sprite's image: its size in pixels and, once loaded, its RGBA8 pixels,
/// row by row from the top row down.
#[derive(Debug)]
pub struct SpriteImage {
    pub width: u32,
    pub height: u32,
    pub data: Option<Vec<u8>>,
}

/// Index, row-major from the top-left pixel, of the pixel under `p` when a
/// `width` by `height` sprite is centered at `center`; `None` off the sprite.
/// World y grows upward while rows go downward.
pub open spec fn pixel_under(p: Point, center: Point, width: u32, height: u32) -> Option<int> {
    let col = p.x - (center.x - width / 2);
    let row = (center.y + height / 2) - p.y;
    if 0 <= col < width && 0 <= row < height {
        Some(row * width + col)
    } else {
        None
    }
}

/// Position in the buffer of the alpha byte of pixel `k`.
pub open spec fn alpha_index(k: int) -> int {
    k * BYTES_PER_PIXEL + ALPHA_OFFSET
}

/// The alpha byte of pixel `k`.
pub open spec fn alpha_byte(data: Seq<u8>, k: int) -> u8 {
    data[alpha_index(k)]
}

/// A bullet at `p` hits the sprite centered at `center`: the image is loaded,
/// `p` falls on one of its pixels, that pixel's alpha byte lies within the
/// buffer, and it is not zero.
pub open spec fn pixel_hit_spec(p: Point, center: Point, image: SpriteImage) -> bool {
    match image.data {
        None => false,
        Some(d) => match pixel_under(p, center, image.width, image.height) {
            None => false,
            Some(k) => alpha_index(k) < d@.len() && alpha_byte(d@, k) > 0,
        },
    }
}

/// Every pixel of the image that the buffer holds has alpha zero.
pub open spec fn fully_transparent(image: SpriteImage) -> bool {
    match image.data {
        None => true,
        Some(d) => forall|k: int|
            0 <= k && alpha_index(k) < d@.len() ==> #[trigger] alpha_byte(d@, k) == 0,
    }
}

/// Maps the bullet's position into the sprite's pixel grid (truncating to
/// whole pixels) and reports a hit on an opaque pixel. An image not yet
/// loaded, a position off the sprite, or an index past the buffer is a miss.
pub fn pixel_hit(bullet: Point, center: Point, image: &SpriteImage) -> (r: bool)
    ensures
        r == pixel_hit_spec(bullet, center, *image),
{
    match &image.data {
        None => false,
        Some(d) => {
            let w: i64 = image.width as i64;
            let h: i64 = image.height as i64;
            let col: i64 = bullet.x as i64 - (center.x as i64 - (image.width / 2) as i64);
            let row: i64 = (center.y as i64 + (image.height / 2) as i64) - bullet.y as i64;
            if col < 0 || col >= w || row < 0 || row >= h {
                return false;
            }
            let row: u128 = row as u128;
            let wide: u128 = w as u128;
            assert(row * wide <= 0x1_0000_0000_0000_0000) by (nonlinear_arith)
                requires
                    0 <= row < 0x1_0000_0000,
                    0 <= wide < 0x1_0000_0000,
            ;
            let k: u128 = row * wide + col as u128;
            let bpp: u128 = BYTES_PER_PIXEL as u128;
            assert(k <= 0x2_0000_0000_0000_0000 && bpp == 4);
            let i: u128 = k * bpp + ALPHA_OFFSET as u128;
            if i >= d.len() as u128 {
                false
            } else {
                d[i as usize] > 0
            }
        },
    }
}

/// A fully transparent image is never hit, wherever the bullet is.
pub proof fn lemma_transparent_never_hit(p: Point, center: Point, image: SpriteImage)
    requires
        fully_transparent(image),
    ensures
        !pixel_hit_spec(p, center, image),
{
    match image.data {
        None => {},
        Some(d) => {
            match pixel_under(p, center, image.width, image.height) {
                None => {},
                Some(k) => {
                    if alpha_index(k) < d@.len() {
                        assert(0 <= k) by (nonlinear_arith)
                            requires
                                k == (center.y + image.height / 2 - p.y) * image.width
                                    + (p.x - (center.x - image.width / 2)),
                                0 <= p.x - (center.x - image.width / 2),
                                0 <= center.y + image.height / 2 - p.y,
                                0 <= image.width,
                        ;
                        assert(alpha_byte(d@, k) == 0);
                    }
                },
            }
        },
    }
}

} // verus!
