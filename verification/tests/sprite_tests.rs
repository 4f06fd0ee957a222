use raycaster::color::Color;
use raycaster::fixed::EPSILON;
use raycaster::framebuffer::Framebuffer;
use raycaster::player::Player;
use raycaster::sprite::{
    depth_at, distance_squared, draw_sprite, render_sprites, sort_by_distance, sprite_angle,
    sprite_distance, sprite_visible, Sprite,
};
use raycaster::texture::CpuImage;
use raycaster::vector::Vector2;

const BLACK: Color = Color { r: 0, g: 0, b: 0, a: 255 };
const RED: Color = Color { r: 250, g: 0, b: 0, a: 255 };
const BLUE: Color = Color { r: 0, g: 0, b: 250, a: 255 };

fn one_color(c: Color) -> CpuImage {
    CpuImage::new(1, 1, vec![c]).unwrap()
}

fn eye() -> Player {
    Player { pos: Vector2::new(3_000_000, 2_500_000), a: 0, fov: 10_472 }
}

fn sprite_at(x: i64, y: i64, c: Color) -> Sprite {
    Sprite::new(Vector2::new(x, y), vec![one_color(c)], 60_000, 10_000)
}

fn painted(fb: &Framebuffer, c: Color) -> Vec<(usize, usize)> {
    let mut found = Vec::new();
    for y in 0..fb.height() {
        for x in 0..fb.width() {
            if fb.get_pixel(x, y) == Some(c) {
                found.push((x, y));
            }
        }
    }
    found
}

fn rectangle(x0: usize, x1: usize, y0: usize, y1: usize) -> Vec<(usize, usize)> {
    let mut all = Vec::new();
    for y in y0..y1 {
        for x in x0..x1 {
            all.push((x, y));
        }
    }
    all
}

#[test]
fn new_sprite_starts_its_animation() {
    let s = Sprite::new(Vector2::new(1, 2), Vec::new(), 60_000, 5_000);
    assert_eq!((s.pos, s.fps, s.t, s.scale), (Vector2::new(1, 2), 60_000, 0, 5_000));
    assert!(s.frames.is_empty());
}

#[test]
fn update_adds_the_time() {
    let mut s = sprite_at(0, 0, RED);
    s.update(160);
    s.update(170);
    assert_eq!(s.t, 330);
    s.update(-400);
    assert_eq!(s.t, -70);
}

#[test]
fn update_stops_at_the_ends_of_the_range() {
    let mut s = sprite_at(0, 0, RED);
    s.update(i64::MAX);
    s.update(1);
    assert_eq!(s.t, i64::MAX);
    s.update(i64::MIN);
    s.update(i64::MIN);
    assert_eq!(s.t, i64::MIN);
}

#[test]
fn frame_index_follows_the_time() {
    let frames = || vec![one_color(RED), one_color(BLUE), one_color(BLACK), one_color(RED)];
    let mut s = Sprite::new(Vector2::new(0, 0), frames(), 60_000, 10_000);
    assert_eq!(s.frame_index(), 0);
    // A third of a second at six frames per second: one frame has passed
    // after 0.1667 s, two after 0.3334 s.
    s.t = 3_333;
    assert_eq!(s.frame_index(), 1);
    s.t = 3_334;
    assert_eq!(s.frame_index(), 2);
    s.t = 5_000;
    assert_eq!(s.frame_index(), 3);
    // Six frames after one second: 6 mod 4
    s.t = 10_000;
    assert_eq!(s.frame_index(), 2);
    s.t = -10_000;
    assert_eq!(s.frame_index(), 0);
    s.t = i64::MAX;
    s.fps = i64::MAX;
    assert!(s.frame_index() < 4);
}

#[test]
fn sprite_without_frames_has_no_current_frame() {
    let mut s = Sprite::new(Vector2::new(0, 0), Vec::new(), 60_000, 10_000);
    s.t = 10_000;
    assert_eq!(s.frame_index(), 0);
    assert!(s.current_frame().is_none());
    let single = sprite_at(0, 0, BLUE);
    assert_eq!(single.current_frame().unwrap().sample_repeat(0, 0), BLUE);
}

#[test]
fn current_frame_is_the_indexed_frame() {
    let mut s = Sprite::new(
        Vector2::new(0, 0),
        vec![one_color(RED), one_color(BLUE)],
        10_000,
        10_000,
    );
    assert_eq!(s.current_frame().unwrap().sample_repeat(0, 0), RED);
    s.update(10_000);
    assert_eq!(s.current_frame().unwrap().sample_repeat(0, 0), BLUE);
    s.update(10_000);
    assert_eq!(s.current_frame().unwrap().sample_repeat(0, 0), RED);
}

#[test]
fn distances_are_exact() {
    let origin = Vector2::new(0, 0);
    assert_eq!(distance_squared(Vector2::new(30_000, 40_000), origin), 2_500_000_000);
    assert_eq!(sprite_distance(Vector2::new(30_000, 40_000), origin), 50_000);
    assert_eq!(sprite_distance(Vector2::new(-30_000, -40_000), origin), 50_000);
    assert_eq!(sprite_distance(Vector2::new(3_500_000, 2_600_000), eye().pos), 509_901);
    assert_eq!(
        sprite_distance(
            Vector2::new(1_000_000_000, 1_000_000_000),
            Vector2::new(-1_000_000_000, -1_000_000_000)
        ),
        2_828_427_124
    );
}

#[test]
fn distance_to_the_own_position_is_the_floor_distance() {
    assert_eq!(sprite_distance(eye().pos, eye().pos), EPSILON);
    assert_eq!(sprite_distance(Vector2::new(3, 0), Vector2::new(0, 0)), EPSILON);
    assert_eq!(sprite_distance(Vector2::new(6, 0), Vector2::new(0, 0)), 6);
}

#[test]
fn sprite_angle_is_relative_to_the_heading() {
    let p = eye();
    assert_eq!(sprite_angle(Vector2::new(3_500_000, 2_500_000), &p), 0);
    assert_eq!(sprite_angle(Vector2::new(3_500_000, 2_600_000), &p), 1_974);
    assert_eq!(sprite_angle(Vector2::new(2_500_000, 2_500_000), &p), 31_416);
    let turned = Player { a: 15_708, ..p };
    assert_eq!(sprite_angle(Vector2::new(3_000_000, 3_000_000), &turned), 0);
    assert_eq!(sprite_angle(Vector2::new(3_500_000, 2_500_000), &turned), -15_708);
}

#[test]
fn sprites_outside_half_the_field_of_view_are_not_visible() {
    let p = eye();
    assert!(sprite_visible(Vector2::new(3_500_000, 2_500_000), &p));
    assert!(sprite_visible(Vector2::new(3_500_000, 2_600_000), &p));
    // 0.5256 rad is just beyond half of 1.0472 rad.
    assert!(!sprite_visible(Vector2::new(3_500_000, 2_790_000), &p));
    assert!(!sprite_visible(Vector2::new(2_500_000, 2_500_000), &p));
    assert!(!sprite_visible(Vector2::new(3_500_000, 2_500_000), &Player { fov: 0, ..p }));
    assert!(!sprite_visible(Vector2::new(3_500_000, 2_500_000), &Player { fov: -10_472, ..p }));
}

#[test]
fn depth_at_reads_the_buffer() {
    let depth = vec![5, 70];
    assert_eq!(depth_at(&depth, 0), 5);
    assert_eq!(depth_at(&depth, 1), 70);
    assert_eq!(depth_at(&depth, 2), i64::MAX);
}

#[test]
fn sprite_is_drawn_as_a_centred_square() {
    // 50 units away on a surface of 12 rows: (6 / 50) * 70.0 = 8.4 pixels.
    let mut fb = Framebuffer::new(16, 12);
    let depth = vec![i64::MAX; 16];
    draw_sprite(&mut fb, &eye(), &sprite_at(3_500_000, 2_500_000, RED), &depth);
    assert_eq!(painted(&fb, RED), rectangle(4, 12, 1, 10));
    // 100 units away: 4.2 pixels.
    let mut far = Framebuffer::new(16, 12);
    draw_sprite(&mut far, &eye(), &sprite_at(4_000_000, 2_500_000, RED), &depth);
    assert_eq!(painted(&far, RED), rectangle(6, 10, 3, 8));
    // To the side: 0.1974 rad of 1.0472 rad is 0.1885 of the width.
    let mut side = Framebuffer::new(16, 12);
    draw_sprite(&mut side, &eye(), &sprite_at(3_500_000, 2_600_000, RED), &depth);
    assert_eq!(painted(&side, RED), rectangle(7, 15, 1, 10));
}

#[test]
fn sprite_scale_multiplies_its_size() {
    let depth = vec![i64::MAX; 16];
    let mut fb = Framebuffer::new(16, 12);
    let mut s = sprite_at(3_500_000, 2_500_000, RED);
    s.scale = 5_000;
    draw_sprite(&mut fb, &eye(), &s, &depth);
    assert_eq!(painted(&fb, RED), rectangle(6, 10, 3, 8));
    let mut none = Framebuffer::new(16, 12);
    s.scale = 0;
    draw_sprite(&mut none, &eye(), &s, &depth);
    s.scale = -10_000;
    draw_sprite(&mut none, &eye(), &s, &depth);
    s.scale = i64::MIN;
    draw_sprite(&mut none, &eye(), &s, &depth);
    assert_eq!(painted(&none, RED), Vec::new());
    let mut all = Framebuffer::new(16, 12);
    s.scale = i64::MAX;
    draw_sprite(&mut all, &eye(), &s, &depth);
    assert_eq!(painted(&all, RED), rectangle(0, 16, 0, 12));
}

#[test]
fn sprite_texture_is_stretched_over_the_square() {
    let mut pixels = Vec::new();
    for y in 0..3u8 {
        for x in 0..3u8 {
            pixels.push(Color::new(10 + x, 20 + y, 0, 255));
        }
    }
    let s = Sprite::new(
        Vector2::new(3_500_000, 2_500_000),
        vec![CpuImage::new(3, 3, pixels).unwrap()],
        0,
        10_000,
    );
    let mut fb = Framebuffer::new(16, 12);
    draw_sprite(&mut fb, &eye(), &s, &vec![i64::MAX; 16]);
    for y in 0..12usize {
        for x in 0..16usize {
            let expected = if (4..12).contains(&x) && (1..10).contains(&y) {
                Color::new(if x < 8 { 10 } else { 11 }, if y < 6 { 20 } else { 21 }, 0, 255)
            } else {
                BLACK
            };
            assert_eq!(fb.get_pixel(x, y), Some(expected), "pixel ({}, {})", x, y);
        }
    }
}

#[test]
fn transparent_pixels_are_not_drawn() {
    let mut fb = Framebuffer::new(16, 12);
    let depth = vec![i64::MAX; 16];
    draw_sprite(&mut fb, &eye(), &sprite_at(3_500_000, 2_500_000, Color::new(9, 9, 9, 0)), &depth);
    assert_eq!(painted(&fb, BLACK), rectangle(0, 16, 0, 12));
    assert_eq!(fb.current_color(), Color::new(255, 255, 255, 255));
    // Any opacity above zero is drawn.
    let faint = Color::new(9, 9, 9, 1);
    draw_sprite(&mut fb, &eye(), &sprite_at(3_500_000, 2_500_000, faint), &depth);
    assert_eq!(painted(&fb, faint), rectangle(4, 12, 1, 10));
    assert_eq!(fb.current_color(), faint);
    let half = Color::new(7, 7, 7, 9);
    draw_sprite(&mut fb, &eye(), &sprite_at(3_500_000, 2_500_000, half), &depth);
    assert_eq!(painted(&fb, half), rectangle(4, 12, 1, 10));
}

#[test]
fn walls_hide_sprites_that_are_not_nearer() {
    // The sprite is 50 units away. Columns 4 and 5 have a nearer wall,
    // column 6 a wall at the same distance, column 7 a wall one unit behind
    // the sprite.
    let mut depth = vec![i64::MAX; 16];
    depth[4] = 400_000;
    depth[5] = 499_999;
    depth[6] = 500_000;
    depth[7] = 510_000;
    let mut fb = Framebuffer::new(16, 12);
    draw_sprite(&mut fb, &eye(), &sprite_at(3_500_000, 2_500_000, RED), &depth);
    assert_eq!(painted(&fb, RED), rectangle(7, 12, 1, 10));
    assert_eq!(depth[4], 400_000);
}

#[test]
fn columns_without_a_depth_entry_hide_nothing() {
    let mut fb = Framebuffer::new(16, 12);
    draw_sprite(&mut fb, &eye(), &sprite_at(3_500_000, 2_500_000, RED), &vec![1; 6]);
    assert_eq!(painted(&fb, RED), rectangle(6, 12, 1, 10));
}

#[test]
fn sprite_at_the_position_of_the_observer_fills_the_view() {
    let mut depth = vec![i64::MAX; 16];
    depth[3] = EPSILON;
    depth[9] = EPSILON + 1;
    let mut fb = Framebuffer::new(16, 12);
    draw_sprite(&mut fb, &eye(), &sprite_at(3_000_000, 2_500_000, RED), &depth);
    let mut expected = rectangle(0, 16, 0, 12);
    expected.retain(|(x, _)| *x != 3);
    assert_eq!(painted(&fb, RED), expected);
    // The direction to the own position is the x axis; an observer that
    // looks elsewhere does not see the sprite.
    let mut other = Framebuffer::new(16, 12);
    let turned = Player { a: 15_708, ..eye() };
    draw_sprite(&mut other, &turned, &sprite_at(3_000_000, 2_500_000, RED), &depth);
    assert_eq!(painted(&other, RED), Vec::new());
}

#[test]
fn sprites_behind_the_observer_or_without_frames_are_not_drawn() {
    let depth = vec![i64::MAX; 16];
    let mut fb = Framebuffer::new(16, 12);
    draw_sprite(&mut fb, &eye(), &sprite_at(2_500_000, 2_500_000, RED), &depth);
    let empty = Sprite::new(Vector2::new(3_500_000, 2_500_000), Vec::new(), 60_000, 10_000);
    draw_sprite(&mut fb, &eye(), &empty, &depth);
    draw_sprite(&mut Framebuffer::new(0, 0), &eye(), &sprite_at(3_500_000, 2_500_000, RED), &depth);
    assert_eq!(painted(&fb, BLACK), rectangle(0, 16, 0, 12));
}

#[test]
fn sort_puts_the_farthest_first_and_keeps_ties_in_order() {
    let mut sprites = vec![
        sprite_at(3_100_000, 2_500_000, Color::new(1, 0, 0, 255)),
        sprite_at(3_900_000, 2_500_000, Color::new(2, 0, 0, 255)),
        sprite_at(3_000_000, 2_400_000, Color::new(3, 0, 0, 255)),
        sprite_at(3_500_000, 2_500_000, Color::new(4, 0, 0, 255)),
        sprite_at(2_100_000, 2_500_000, Color::new(5, 0, 0, 255)),
        sprite_at(3_000_000, 2_600_000, Color::new(6, 0, 0, 255)),
    ];
    sort_by_distance(&mut sprites, eye().pos);
    let order: Vec<u8> =
        sprites.iter().map(|s| s.current_frame().unwrap().sample_repeat(0, 0).r).collect();
    assert_eq!(order, vec![2, 5, 4, 1, 3, 6]);
    let mut none: Vec<Sprite> = Vec::new();
    sort_by_distance(&mut none, eye().pos);
    assert!(none.is_empty());
}

#[test]
fn nearer_sprites_are_drawn_over_farther_ones() {
    let depth = vec![i64::MAX; 16];
    let mut fb = Framebuffer::new(16, 12);
    let mut sprites =
        vec![sprite_at(4_000_000, 2_500_000, BLUE), sprite_at(3_500_000, 2_500_000, RED)];
    render_sprites(&mut fb, &eye(), &mut sprites, &depth);
    assert_eq!(painted(&fb, RED), rectangle(4, 12, 1, 10));
    assert_eq!(painted(&fb, BLUE), Vec::new());
    // Given the other way round, the result is the same, and the sprites
    // end up with the farthest first.
    let mut again = Framebuffer::new(16, 12);
    let mut swapped =
        vec![sprite_at(3_500_000, 2_500_000, BLUE), sprite_at(4_000_000, 2_500_000, RED)];
    render_sprites(&mut again, &eye(), &mut swapped, &depth);
    assert_eq!(painted(&again, BLUE), rectangle(4, 12, 1, 10));
    assert_eq!(painted(&again, RED), Vec::new());
    assert_eq!(swapped[0].pos, Vector2::new(4_000_000, 2_500_000));
    assert_eq!(swapped[1].pos, Vector2::new(3_500_000, 2_500_000));
}

#[test]
fn a_wall_between_two_sprites_hides_the_farther_one() {
    // Walls 70 units away in every column: the sprite at 100 units is
    // hidden, the one at 50 units is drawn, smaller than the hidden one
    // would be wide.
    let depth = vec![700_000; 16];
    let mut fb = Framebuffer::new(16, 12);
    let mut sprites = vec![
        sprite_at(3_500_000, 2_500_000, RED),
        Sprite::new(Vector2::new(4_000_000, 2_500_000), vec![one_color(BLUE)], 0, 40_000),
    ];
    render_sprites(&mut fb, &eye(), &mut sprites, &depth);
    assert_eq!(painted(&fb, BLUE), Vec::new());
    assert_eq!(painted(&fb, RED), rectangle(4, 12, 1, 10));
}

#[test]
fn sprites_leave_the_depth_buffer_alone() {
    let depth = vec![600_000; 16];
    let mut fb = Framebuffer::new(16, 12);
    // The nearer sprite is transparent: the farther one shows through, for
    // sprites hide each other by their order alone.
    let mut sprites = vec![
        sprite_at(3_400_000, 2_500_000, Color::new(0, 0, 0, 0)),
        sprite_at(3_500_000, 2_500_000, RED),
    ];
    render_sprites(&mut fb, &eye(), &mut sprites, &depth);
    assert_eq!(painted(&fb, RED), rectangle(4, 12, 1, 10));
    assert_eq!(depth, vec![600_000; 16]);
}

#[test]
fn the_last_painted_pixel_gives_the_current_color() {
    let mut pixels = Vec::new();
    for y in 0..3u8 {
        for x in 0..3u8 {
            pixels.push(Color::new(10 + x, 20 + y, 0, 255));
        }
    }
    let s = Sprite::new(
        Vector2::new(3_500_000, 2_500_000),
        vec![CpuImage::new(3, 3, pixels).unwrap()],
        0,
        10_000,
    );
    let mut fb = Framebuffer::new(16, 12);
    // The sprite covers columns 4 to 11; the wall hides it from column 9 on.
    let mut depth = vec![i64::MAX; 16];
    for d in depth.iter_mut().skip(9) {
        *d = 1;
    }
    draw_sprite(&mut fb, &eye(), &s, &depth);
    assert_eq!(fb.current_color(), fb.get_pixel(8, 9).unwrap());
    assert_eq!(fb.current_color(), Color::new(11, 21, 0, 255));
    // A sprite that paints nothing leaves the current color.
    let mut sprites = vec![sprite_at(2_500_000, 2_500_000, RED)];
    render_sprites(&mut fb, &eye(), &mut sprites, &depth);
    assert_eq!(fb.current_color(), Color::new(11, 21, 0, 255));
    sprites.push(sprite_at(3_500_000, 2_500_000, BLUE));
    sprites.push(sprite_at(4_000_000, 2_500_000, RED));
    render_sprites(&mut fb, &eye(), &mut sprites, &depth);
    assert_eq!(fb.current_color(), BLUE);
}
