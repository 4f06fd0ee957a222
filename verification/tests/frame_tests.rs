use raycaster::color::Color;
use raycaster::fixed::{EPSILON, MAX_DISTANCE};
use raycaster::frame::render_frame;
use raycaster::framebuffer::Framebuffer;
use raycaster::maze::Maze;
use raycaster::player::Player;
use raycaster::sprite::{render_sprites, Sprite};
use raycaster::texture::{CpuImage, WallTex};
use raycaster::vector::Vector2;
use raycaster::world::{new_depth, render_world, reset_depth, NO_WALL};

const RED: Color = Color { r: 250, g: 0, b: 0, a: 255 };

fn chamber() -> Maze {
    ["+++++", "+   +", "+   +", "+   +", "+++++"].iter().map(|r| r.chars().collect()).collect()
}

fn flat(r: u8, g: u8, b: u8) -> CpuImage {
    CpuImage::new(1, 1, vec![Color::new(r, g, b, 255)]).unwrap()
}

fn viewer() -> Player {
    Player { pos: Vector2::new(3_000_000, 2_500_000), a: 0, fov: 10_472 }
}

fn billboard_at(x: i64, y: i64) -> Sprite {
    Sprite::new(Vector2::new(x, y), vec![flat(250, 0, 0)], 0, 10_000)
}

#[test]
fn depth_buffer_starts_and_resets_without_walls() {
    assert_eq!(NO_WALL, i64::MAX);
    let mut depth = new_depth(5);
    assert_eq!(depth, vec![NO_WALL; 5]);
    depth[2] = 7;
    depth[4] = -1;
    reset_depth(&mut depth);
    assert_eq!(depth, vec![NO_WALL; 5]);
    assert!(new_depth(0).is_empty());
}

#[test]
fn frame_is_the_sprites_over_the_world_over_the_background() {
    let walls = WallTex::new(flat(200, 100, 50));
    let (floor, sky) = (flat(100, 100, 100), flat(10, 20, 200));
    let mut fb = Framebuffer::new(16, 12);
    fb.set_background_color(Color::new(1, 2, 3, 4));
    fb.put_pixel(0, 6, Color::new(9, 9, 9, 9));
    let mut depth = vec![5i64; 20];
    let mut sprites = vec![billboard_at(3_500_000, 2_500_000), billboard_at(3_900_000, 2_500_000)];
    render_frame(
        &mut fb,
        &chamber(),
        100,
        &viewer(),
        &walls,
        &floor,
        &sky,
        777,
        &mut sprites,
        &mut depth,
    );

    let mut by_hand = Framebuffer::new(16, 12);
    by_hand.set_background_color(Color::new(1, 2, 3, 4));
    by_hand.clear();
    let mut depth_by_hand = new_depth(20);
    let mut same = vec![billboard_at(3_500_000, 2_500_000), billboard_at(3_900_000, 2_500_000)];
    render_world(
        &mut by_hand,
        &chamber(),
        100,
        &viewer(),
        &walls,
        &floor,
        &sky,
        777,
        &mut depth_by_hand,
    );
    render_sprites(&mut by_hand, &viewer(), &mut same, &depth_by_hand);

    assert_eq!(depth, depth_by_hand);
    for y in 0..12 {
        for x in 0..16 {
            assert_eq!(fb.get_pixel(x, y), by_hand.get_pixel(x, y));
        }
    }
    // The surface has an even number of rows: floor pixels in the row of
    // the middle, if there are any, show the background.
    assert_eq!(fb.get_pixel(0, 6), by_hand.get_pixel(0, 6));
    assert_eq!(sprites[0].pos, Vector2::new(3_900_000, 2_500_000));
    assert_eq!(sprites[1].pos, Vector2::new(3_500_000, 2_500_000));
}

#[test]
fn frame_records_the_depth_of_every_column() {
    let walls = WallTex::new(flat(200, 100, 50));
    let mut fb = Framebuffer::new(16, 12);
    let mut depth = vec![0i64; 18];
    let mut sprites: Vec<Sprite> = Vec::new();
    render_frame(
        &mut fb,
        &chamber(),
        100,
        &viewer(),
        &walls,
        &flat(1, 1, 1),
        &flat(2, 2, 2),
        0,
        &mut sprites,
        &mut depth,
    );
    assert!(depth[..16].iter().all(|d| EPSILON <= *d && *d <= MAX_DISTANCE));
    assert_eq!(depth[8], 1_000_000);
    assert_eq!(&depth[16..], &[NO_WALL, NO_WALL]);
}

#[test]
fn frame_hides_a_sprite_behind_the_wall_and_shows_one_before_it() {
    let walls = WallTex::new(flat(200, 100, 50));
    let mut fb = Framebuffer::new(16, 12);
    let mut depth = new_depth(16);
    // The wall is 100 units away: one sprite stands 50 units before the
    // observer, the other inside the wall at 150 units.
    let mut sprites = vec![billboard_at(4_500_000, 2_500_000)];
    render_frame(
        &mut fb,
        &chamber(),
        100,
        &viewer(),
        &walls,
        &flat(1, 1, 1),
        &flat(2, 2, 2),
        0,
        &mut sprites,
        &mut depth,
    );
    for y in 0..12 {
        for x in 0..16 {
            assert!(fb.get_pixel(x, y) != Some(RED));
        }
    }
    sprites.push(billboard_at(3_500_000, 2_500_000));
    render_frame(
        &mut fb,
        &chamber(),
        100,
        &viewer(),
        &walls,
        &flat(1, 1, 1),
        &flat(2, 2, 2),
        0,
        &mut sprites,
        &mut depth,
    );
    for y in 0..12 {
        for x in 0..16 {
            let inside = (4..12).contains(&x) && (1..10).contains(&y);
            assert_eq!(fb.get_pixel(x, y) == Some(RED), inside, "pixel ({}, {})", x, y);
        }
    }
}

#[test]
fn frame_of_window_size_is_rendered() {
    let maze: Maze = [
        "+--------+",
        "|        |",
        "|  +--+  |",
        "|  |     |",
        "|  +  +--+",
        "|        |",
        "|  ++    |",
        "|      g |",
        "+--------+",
    ]
    .iter()
    .map(|r| r.chars().collect())
    .collect();
    let mut pixels = Vec::new();
    for y in 0..64u32 {
        for x in 0..64u32 {
            pixels.push(Color::new((x * 4) as u8, (y * 4) as u8, ((x + y) * 2) as u8, 255));
        }
    }
    let tex = CpuImage::new(64, 64, pixels).unwrap();
    let mut walls = WallTex::new(tex.clone());
    walls.insert('g', tex.clone());
    let p = Player { pos: Vector2::new(2_250_000, 2_250_000), a: 7_000, fov: 10_472 };
    let mut fb = Framebuffer::new(1300, 900);
    let mut depth = new_depth(1300);
    let mut sprites = vec![
        Sprite::new(Vector2::new(4_500_000, 2_600_000), vec![tex.clone()], 60_000, 10_000),
        Sprite::new(Vector2::new(7_000_000, 4_000_000), vec![tex.clone()], 60_000, 10_000),
        Sprite::new(Vector2::new(3_000_000, 6_000_000), vec![tex.clone()], 60_000, 10_000),
    ];
    render_frame(&mut fb, &maze, 150, &p, &walls, &tex, &tex, 12_345, &mut sprites, &mut depth);
    assert!(depth.iter().all(|d| EPSILON <= *d && *d < MAX_DISTANCE));
    // Every pixel was painted: none shows the background, which no texture
    // holds.
    fb.set_background_color(Color::new(1, 2, 3, 4));
    for y in 0..900 {
        for x in 0..1300 {
            assert!(fb.get_pixel(x, y).unwrap().a == 255);
        }
    }
}
