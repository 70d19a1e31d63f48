use space_shooter::geometry::{ball_collision, Aabb, Circle, Point};
use space_shooter::sprite::{pixel_hit, SpriteImage};

fn pt(x: i32, y: i32) -> Point {
    Point { x, y }
}

fn square(center: Point, half: u32) -> Aabb {
    Aabb { center, half_width: half, half_height: half }
}

fn image_with(width: u32, height: u32, alpha: u8) -> SpriteImage {
    let mut data = Vec::new();
    for _ in 0..(width * height) {
        data.extend_from_slice(&[255, 255, 255, alpha]);
    }
    SpriteImage { width, height, data: Some(data) }
}

#[test]
fn center_inside_box_hits_for_any_radius() {
    let b = square(pt(10, -20), 30);
    for r in [0u32, 1, 5, 1000] {
        for c in [pt(10, -20), pt(-19, 9), pt(39, -49), pt(0, 0)] {
            assert!(ball_collision(Circle { center: c, radius: r }, b));
        }
    }
}

#[test]
fn far_center_misses() {
    let b = square(pt(0, 0), 10);
    assert!(!ball_collision(Circle { center: pt(16, 0), radius: 5 }, b));
    assert!(!ball_collision(Circle { center: pt(0, -21), radius: 10 }, b));
    assert!(!ball_collision(Circle { center: pt(14, 14), radius: 5 }, b));
}

#[test]
fn touching_edge_and_corner_hits() {
    let b = square(pt(0, 0), 10);
    assert!(ball_collision(Circle { center: pt(15, 0), radius: 5 }, b));
    // corner (10, 10); offset (3, 4) is at distance exactly 5
    assert!(ball_collision(Circle { center: pt(13, 14), radius: 5 }, b));
    assert!(!ball_collision(Circle { center: pt(13, 14), radius: 4 }, b));
}

#[test]
fn extreme_coordinates_do_not_overflow() {
    let b = Aabb { center: pt(i32::MIN, i32::MIN), half_width: u32::MAX, half_height: 0 };
    assert!(!ball_collision(Circle { center: pt(i32::MAX, i32::MAX), radius: u32::MAX - 1 }, b));
    assert!(ball_collision(Circle { center: pt(i32::MAX, i32::MIN), radius: 0 }, b));
}

#[test]
fn opaque_pixel_under_bullet_hits() {
    let img = image_with(4, 4, 255);
    assert!(pixel_hit(pt(0, 0), pt(0, 0), &img));
    assert!(pixel_hit(pt(-2, 2), pt(0, 0), &img));
    assert!(pixel_hit(pt(1, -1), pt(0, 0), &img));
}

#[test]
fn bullet_off_sprite_misses() {
    let img = image_with(4, 4, 255);
    assert!(!pixel_hit(pt(2, 0), pt(0, 0), &img));
    assert!(!pixel_hit(pt(-3, 0), pt(0, 0), &img));
    assert!(!pixel_hit(pt(0, 3), pt(0, 0), &img));
    assert!(!pixel_hit(pt(0, -2), pt(0, 0), &img));
}

#[test]
fn pixel_mapping_flips_rows() {
    // only the top-left pixel is opaque
    let mut img = image_with(4, 4, 0);
    if let Some(d) = img.data.as_mut() {
        d[3] = 200;
    }
    assert!(pixel_hit(pt(8, 12), pt(10, 10), &img));
    assert!(!pixel_hit(pt(9, 12), pt(10, 10), &img));
    assert!(!pixel_hit(pt(8, 11), pt(10, 10), &img));
    assert!(!pixel_hit(pt(8, 9), pt(10, 10), &img));
}

#[test]
fn only_the_alpha_byte_counts() {
    // colour bytes set, alpha zero: no hit
    let img = SpriteImage { width: 1, height: 1, data: Some(vec![255, 255, 255, 0]) };
    assert!(!pixel_hit(pt(0, 0), pt(0, 0), &img));
    let img = SpriteImage { width: 1, height: 1, data: Some(vec![0, 0, 0, 1]) };
    assert!(pixel_hit(pt(0, 0), pt(0, 0), &img));
}

#[test]
fn transparent_image_never_hit() {
    let img = image_with(6, 5, 0);
    for x in -10..10 {
        for y in -10..10 {
            assert!(!pixel_hit(pt(x, y), pt(1, -1), &img));
        }
    }
}

#[test]
fn missing_or_short_buffer_fails_closed() {
    let img = SpriteImage { width: 4, height: 4, data: None };
    assert!(!pixel_hit(pt(0, 0), pt(0, 0), &img));
    let img = SpriteImage { width: 0, height: 0, data: Some(Vec::new()) };
    assert!(!pixel_hit(pt(0, 0), pt(0, 0), &img));
    // buffer holds only the first row
    let img = SpriteImage { width: 2, height: 2, data: Some(vec![9, 9, 9, 9, 9, 9, 9, 9]) };
    assert!(pixel_hit(pt(-1, 1), pt(0, 0), &img));
    assert!(!pixel_hit(pt(-1, 0), pt(0, 0), &img));
}
