use wurstmapberg::canvas::{TileCanvas, WorldCanvas};
use wurstmapberg::color::Rgba8;

const NONE: Rgba8 = Rgba8 { r: 0, g: 0, b: 0, a: 0 };
const RED: Rgba8 = Rgba8 { r: 255, g: 0, b: 0, a: 255 };
const GREEN: Rgba8 = Rgba8 { r: 1, g: 200, b: 3, a: 255 };
const BLUE: Rgba8 = Rgba8 { r: 9, g: 8, b: 250, a: 77 };

#[test]
fn new_tile_is_transparent() {
    let tile = TileCanvas::new();
    assert_eq!(tile.get(0, 0), Some(NONE));
    assert_eq!(tile.get(511, 511), Some(NONE));
    assert_eq!(tile.get(200, 300), Some(NONE));
    assert_eq!(tile.get(512, 0), None);
    assert_eq!(tile.get(0, 512), None);
    assert_eq!(tile.get(u32::MAX, u32::MAX), None);
}

#[test]
fn tile_put_writes_one_pixel() {
    let mut tile = TileCanvas::new();
    tile.put(3, 7, RED);
    assert_eq!(tile.get(3, 7), Some(RED));
    assert_eq!(tile.get(7, 3), Some(NONE));
    assert_eq!(tile.get(2, 7), Some(NONE));
    assert_eq!(tile.get(4, 7), Some(NONE));
    tile.put(7, 3, BLUE);
    assert_eq!(tile.get(7, 3), Some(BLUE));
    assert_eq!(tile.get(3, 7), Some(RED));
    tile.put(3, 7, GREEN);
    assert_eq!(tile.get(3, 7), Some(GREEN));
}

#[test]
fn tile_put_wraps_world_positions() {
    let mut tile = TileCanvas::new();
    tile.put(512 + 5, 1024 + 6, RED);
    assert_eq!(tile.get(5, 6), Some(RED));
    tile.put(-1, -512, GREEN);
    assert_eq!(tile.get(511, 0), Some(GREEN));
    tile.put(i32::MIN, i32::MAX, BLUE);
    assert_eq!(tile.get(0, 511), Some(BLUE));
    tile.put(-513, -1, RED);
    assert_eq!(tile.get(511, 511), Some(RED));
}

#[test]
fn new_world_canvas_is_empty() {
    let canvas = WorldCanvas::new();
    assert_eq!(canvas.bounds_of(), (0, 0, 0, 0));
    assert_eq!(canvas.get(0, 0), None);
}

#[test]
fn world_canvas_grows_to_cover_every_insert() {
    let mut canvas = WorldCanvas::new();
    assert!(canvas.insert(5, 5, RED));
    assert_eq!(canvas.bounds_of(), (5, 5, 6, 6));
    assert_eq!(canvas.get(5, 5), Some(RED));
    assert!(canvas.insert(-3, 10, GREEN));
    assert_eq!(canvas.bounds_of(), (-3, 5, 6, 11));
    assert_eq!(canvas.get(5, 5), Some(RED));
    assert_eq!(canvas.get(-3, 10), Some(GREEN));
    assert!(canvas.insert(8, -2, BLUE));
    assert_eq!(canvas.bounds_of(), (-3, -2, 9, 11));
    assert_eq!(canvas.get(5, 5), Some(RED));
    assert_eq!(canvas.get(-3, 10), Some(GREEN));
    assert_eq!(canvas.get(8, -2), Some(BLUE));
}

#[test]
fn world_canvas_growth_adds_transparent_pixels() {
    let mut canvas = WorldCanvas::new();
    assert!(canvas.insert(5, 5, RED));
    assert!(canvas.insert(-3, 10, GREEN));
    assert!(canvas.insert(8, -2, BLUE));
    let mut opaque = 0;
    for z in -2..11 {
        for x in -3..9 {
            let pixel = canvas.get(x, z).unwrap();
            if pixel != NONE {
                opaque += 1;
            }
        }
    }
    assert_eq!(opaque, 3);
    assert_eq!(canvas.get(-4, 0), None);
    assert_eq!(canvas.get(9, 0), None);
    assert_eq!(canvas.get(0, -3), None);
    assert_eq!(canvas.get(0, 11), None);
}

#[test]
fn world_canvas_insert_inside_the_bounds_overwrites() {
    let mut canvas = WorldCanvas::new();
    assert!(canvas.insert(0, 0, RED));
    assert!(canvas.insert(3, 2, GREEN));
    assert!(canvas.insert(1, 1, BLUE));
    assert_eq!(canvas.bounds_of(), (0, 0, 4, 3));
    assert_eq!(canvas.get(1, 1), Some(BLUE));
    assert!(canvas.insert(1, 1, RED));
    assert_eq!(canvas.get(1, 1), Some(RED));
    assert_eq!(canvas.get(0, 0), Some(RED));
    assert_eq!(canvas.get(3, 2), Some(GREEN));
    assert_eq!(canvas.get(2, 1), Some(NONE));
    assert_eq!(canvas.bounds_of(), (0, 0, 4, 3));
}

#[test]
fn world_canvas_grows_in_one_direction_at_a_time() {
    let mut canvas = WorldCanvas::new();
    assert!(canvas.insert(10, 10, RED));
    assert!(canvas.insert(12, 10, GREEN));
    assert_eq!(canvas.bounds_of(), (10, 10, 13, 11));
    assert!(canvas.insert(10, 7, BLUE));
    assert_eq!(canvas.bounds_of(), (10, 7, 13, 11));
    assert_eq!(canvas.get(10, 10), Some(RED));
    assert_eq!(canvas.get(12, 10), Some(GREEN));
    assert_eq!(canvas.get(10, 7), Some(BLUE));
    assert_eq!(canvas.get(11, 8), Some(NONE));
}

#[test]
fn world_canvas_refuses_what_it_cannot_hold() {
    let mut canvas = WorldCanvas::new();
    assert!(canvas.insert(i32::MIN, i32::MIN, RED));
    assert_eq!(canvas.bounds_of(), (i32::MIN as i64, i32::MIN as i64, i32::MIN as i64 + 1, i32::MIN as i64 + 1));
    // The grown canvas would be 2^32 pixels wide and high.
    assert!(!canvas.insert(i32::MAX, i32::MAX, GREEN));
    assert_eq!(canvas.bounds_of(), (i32::MIN as i64, i32::MIN as i64, i32::MIN as i64 + 1, i32::MIN as i64 + 1));
    assert_eq!(canvas.get(i32::MIN, i32::MIN), Some(RED));
    assert_eq!(canvas.get(i32::MAX, i32::MAX), None);
}

#[test]
fn tile_is_drawn_at_its_region_in_the_world() {
    let mut tile = TileCanvas::new();
    tile.put(3, 4, RED);
    tile.put(10, 20, GREEN);
    let mut canvas = WorldCanvas::new();
    assert!(canvas.draw_tile(-1, 2, &tile));
    // Only what was drawn is covered: the two pixels at (-509, 1028) and (-502, 1044).
    assert_eq!(canvas.bounds_of(), (-509, 1028, -501, 1045));
    assert_eq!(canvas.get(-509, 1028), Some(RED));
    assert_eq!(canvas.get(-502, 1044), Some(GREEN));
    assert_eq!(canvas.get(-508, 1028), Some(NONE));
}

#[test]
fn drawing_a_tile_never_clears_a_pixel() {
    let mut canvas = WorldCanvas::new();
    assert!(canvas.insert(5, 5, RED));
    assert!(canvas.insert(6, 5, BLUE));
    let mut tile = TileCanvas::new();
    tile.put(6, 5, GREEN);
    assert!(canvas.draw_tile(0, 0, &tile));
    // The transparent pixel of the tile at (5, 5) leaves the canvas alone.
    assert_eq!(canvas.get(5, 5), Some(RED));
    assert_eq!(canvas.get(6, 5), Some(GREEN));
    assert_eq!(canvas.bounds_of(), (5, 5, 7, 6));
    // An empty tile draws nothing and grows nothing.
    assert!(canvas.draw_tile(40, 40, &TileCanvas::new()));
    assert_eq!(canvas.bounds_of(), (5, 5, 7, 6));
}

#[test]
fn tile_of_a_region_beyond_the_block_range_is_refused() {
    let mut tile = TileCanvas::new();
    tile.put(0, 0, RED);
    let mut canvas = WorldCanvas::new();
    assert!(!canvas.draw_tile(4194304, 0, &tile));
    assert!(!canvas.draw_tile(0, -4194305, &tile));
    assert_eq!(canvas.bounds_of(), (0, 0, 0, 0));
    assert!(canvas.draw_tile(4194303, -4194304, &tile));
    assert_eq!(canvas.bounds_of(), (2147483136, -2147483648, 2147483137, -2147483647));
    assert_eq!(canvas.get(2147483136, i32::MIN), Some(RED));
}
