use wurstmapberg::block::{Block, ColorTable};
use wurstmapberg::canvas::TileCanvas;
use wurstmapberg::color::{BlockMapColor, MapColor, Rgba8, Tint};
use wurstmapberg::column::{ChunkColumn, Section};
use wurstmapberg::region::{Region, RegionOutcome};

type BlockDesc = (&'static str, &'static [(&'static str, &'static str)]);

const AIR: BlockDesc = ("minecraft:air", &[]);
const STONE: BlockDesc = ("minecraft:stone", &[]);
const GRASS: BlockDesc = ("minecraft:grass_block", &[]);
const WATER: BlockDesc = ("minecraft:water", &[]);
const SAND: BlockDesc = ("minecraft:sand", &[]);

fn make_block(spec: BlockDesc) -> Block {
    let mut block = Block::new(spec.0);
    for (key, value) in spec.1 {
        block.set_property(key, value);
    }
    block
}

fn build_column(
    x_pos: i32,
    z_pos: i32,
    floor: i32,
    heights: Option<[[i32; 16]; 16]>,
    sections: std::ops::RangeInclusive<i8>,
    at: &dyn Fn(u8, i32, u8) -> BlockDesc,
) -> ChunkColumn {
    let mut col = ChunkColumn::new(x_pos, z_pos, floor, heights);
    for cy in sections {
        let mut specs: Vec<BlockDesc> = Vec::new();
        let mut cells: Vec<u16> = Vec::with_capacity(4096);
        for by in 0..16u8 {
            for bz in 0..16u8 {
                for bx in 0..16u8 {
                    let spec = at(bx, cy as i32 * 16 + by as i32, bz);
                    let index = match specs.iter().position(|s| *s == spec) {
                        Some(i) => i,
                        None => {
                            specs.push(spec);
                            specs.len() - 1
                        }
                    };
                    cells.push(index as u16);
                }
            }
        }
        let palette: Vec<Block> = specs.into_iter().map(make_block).collect();
        col = col.with_section(cy, Section::new(palette, cells).unwrap());
    }
    col
}

fn table() -> ColorTable {
    let mut table = ColorTable::new();
    table.insert("minecraft:air", BlockMapColor::Single(MapColor::Clear));
    table.insert("minecraft:stone", BlockMapColor::Single(MapColor::StoneGray));
    table.insert("minecraft:grass_block", BlockMapColor::Single(MapColor::PaleGreen));
    table.insert("minecraft:water", BlockMapColor::Single(MapColor::WaterBlue));
    table.insert("minecraft:sand", BlockMapColor::Single(MapColor::PaleYellow));
    table.insert("minecraft:red_bed", BlockMapColor::Bed { head: MapColor::Red, foot: MapColor::Pink });
    table.insert("minecraft:wheat", BlockMapColor::Crops { growing: MapColor::DarkGreen, grown: MapColor::Yellow });
    table.insert("minecraft:oak_log", BlockMapColor::Pillar { top: MapColor::OakTan, side: MapColor::SpruceBrown });
    table.insert("minecraft:oak_slab", BlockMapColor::Waterloggable { dry: MapColor::OakTan, wet: MapColor::WaterBlue });
    table.insert("minecraft:kelp", BlockMapColor::Single(MapColor::Clear));
    table
}

/// Stone up to `height`, air above.
fn land(x_pos: i32, z_pos: i32, height: i32) -> ChunkColumn {
    build_column(x_pos, z_pos, 0, Some([[height; 16]; 16]), 0..=7, &move |_, y, _| if y <= height { STONE } else { AIR })
}

const NONE: Rgba8 = Rgba8 { r: 0, g: 0, b: 0, a: 0 };

fn drawn(outcome: RegionOutcome) -> TileCanvas {
    match outcome {
        RegionOutcome::Drawn(tile) => tile,
        RegionOutcome::ColumnFailed(message) => panic!("column failed: {message}"),
    }
}

fn failed(outcome: RegionOutcome) -> String {
    match outcome {
        RegionOutcome::Drawn(_) => panic!("the region was drawn"),
        RegionOutcome::ColumnFailed(message) => message,
    }
}

#[test]
fn pixel_is_the_resolved_color_under_its_tint() {
    let t = table();
    let col = land(0, 1, 64);
    let higher = land(0, 0, 70);
    assert_eq!(col.pixel_at(None, &t, 0, 0), MapColor::StoneGray.tint(Tint::Normal));
    assert_eq!(col.pixel_at(Some(&higher), &t, 0, 0), MapColor::StoneGray.tint(Tint::Dark));
    assert_eq!(col.pixel_at(Some(&higher), &t, 0, 1), MapColor::StoneGray.tint(Tint::Normal));
    assert_eq!(col.pixel_at(Some(&higher), &t, 0, 0), Rgba8 { r: 79, g: 79, b: 79, a: 255 });
    let void = build_column(0, 0, 0, None, 0..=1, &|_, _, _| AIR);
    assert_eq!(void.pixel_at(Some(&higher), &t, 0, 0), NONE);
}

#[test]
fn column_draws_its_own_square_of_the_tile() {
    let t = table();
    let mut tile = TileCanvas::new();
    // Chunk (33, -1) lies at chunk (1, 31) of its region's tile.
    land(33, -1, 64).draw(None, &t, &mut tile);
    let normal = MapColor::StoneGray.tint(Tint::Normal);
    for pz in 0..512u32 {
        for px in 0..512u32 {
            let inside = (16..32).contains(&px) && (496..512).contains(&pz);
            assert_eq!(tile.get(px, pz), Some(if inside { normal } else { NONE }), "pixel ({px}, {pz})");
        }
    }
}

#[test]
fn region_lookup_tells_absent_decoded_and_failed_apart() {
    let mut region = Region::new(2, -3);
    assert_eq!(region.coords(), (2, -3));
    region.push_column(land(64, -96, 70));
    region.push_failed(65, -96, "bad chunk");
    assert_eq!(region.chunk_column(64, -96).unwrap().unwrap().top_y(0, 0), 70);
    assert_eq!(region.chunk_column(65, -96).err(), Some("bad chunk".to_string()));
    assert!(region.chunk_column(66, -96).unwrap().is_none());
    assert!(region.chunk_column(-96, 64).unwrap().is_none());
}

#[test]
fn north_column_comes_from_the_same_region_or_the_previous_one() {
    let mut north_region = Region::new(0, 0);
    north_region.push_column(land(0, 31, 90));
    let mut region = Region::new(0, 1);
    region.push_column(land(0, 32, 64));
    region.push_column(land(0, 33, 70));
    let edge = land(0, 32, 64);
    let inner = land(0, 33, 70);
    let lonely = land(5, 40, 70);
    assert_eq!(region.north_column(Some(&north_region), &edge).unwrap().unwrap().top_y(0, 0), 90);
    assert!(region.north_column(None, &edge).unwrap().is_none());
    assert_eq!(region.north_column(Some(&north_region), &inner).unwrap().unwrap().top_y(0, 0), 64);
    assert_eq!(region.north_column(None, &inner).unwrap().unwrap().top_y(0, 0), 64);
    assert!(region.north_column(Some(&north_region), &lonely).unwrap().is_none());
    let corner = land(0, i32::MIN, 64);
    assert!(region.north_column(Some(&north_region), &corner).unwrap().is_none());
}

#[test]
fn region_without_columns_draws_a_transparent_tile() {
    let t = table();
    let tile = drawn(Region::new(0, 0).render(None, &t));
    assert_eq!(tile.get(0, 0), Some(NONE));
    assert_eq!(tile.get(511, 511), Some(NONE));
}

#[test]
fn region_shades_across_chunk_borders() {
    let t = table();
    let mut region = Region::new(0, 0);
    region.push_column(land(4, 4, 64));
    region.push_column(land(4, 5, 65));
    region.push_column(land(4, 6, 64));
    region.push_column(land(4, 7, 64));
    let tile = drawn(region.render(None, &t));
    let stone = |tint| Some(MapColor::StoneGray.tint(tint));
    // Chunk (4, 4) has nothing to its north.
    assert_eq!(tile.get(64, 64), stone(Tint::Normal));
    assert_eq!(tile.get(64, 65), stone(Tint::Normal));
    // Chunk (4, 5) is one block higher than (4, 4), (4, 6) one lower than (4, 5).
    assert_eq!(tile.get(64, 80), stone(Tint::Light));
    assert_eq!(tile.get(79, 80), stone(Tint::Light));
    assert_eq!(tile.get(64, 81), stone(Tint::Normal));
    assert_eq!(tile.get(64, 96), stone(Tint::Dark));
    assert_eq!(tile.get(64, 97), stone(Tint::Normal));
    assert_eq!(tile.get(64, 112), stone(Tint::Normal));
    assert_eq!(tile.get(63, 80), Some(NONE));
    assert_eq!(tile.get(80, 80), Some(NONE));
}

#[test]
fn region_finds_the_north_column_whatever_the_order() {
    let t = table();
    let mut region = Region::new(0, 0);
    region.push_column(land(0, 1, 64));
    region.push_column(land(0, 0, 70));
    let tile = drawn(region.render(None, &t));
    assert_eq!(tile.get(0, 16), Some(MapColor::StoneGray.tint(Tint::Dark)));
    assert_eq!(tile.get(0, 0), Some(MapColor::StoneGray.tint(Tint::Normal)));
}

#[test]
fn southern_region_is_shaded_against_the_northern_one() {
    let t = table();
    // Region A is north of region B. A's southmost row is two blocks
    // higher than B's northmost row.
    let mut a = Region::new(0, 0);
    a.push_column(land(0, 31, 66));
    let mut b = Region::new(0, 1);
    b.push_column(land(0, 32, 64));
    let tile = drawn(b.render(Some(&a), &t));
    let stone = |tint| Some(MapColor::StoneGray.tint(tint));
    for px in 0..16 {
        assert_eq!(tile.get(px, 0), stone(Tint::Dark));
        assert_eq!(tile.get(px, 1), stone(Tint::Normal));
        assert_eq!(tile.get(px, 15), stone(Tint::Normal));
    }
    // Without the northern region the row is level with nothing.
    let alone = drawn(b.render(None, &t));
    assert_eq!(alone.get(0, 0), stone(Tint::Normal));
    // And the northern region is not changed by its southern neighbor.
    let north_tile = drawn(a.render(None, &t));
    assert_eq!(north_tile.get(0, 31 * 16 + 15), stone(Tint::Normal));
}

#[test]
fn region_draws_water_by_depth() {
    let t = table();
    let mut region = Region::new(0, 0);
    region.push_column(build_column(0, 0, 0, Some([[62; 16]; 16]), 0..=7, &|bx, y, _| {
        if y <= 62 - bx as i32 - 1 {
            SAND
        } else if y <= 62 {
            WATER
        } else {
            AIR
        }
    }));
    let tile = drawn(region.render(None, &t));
    let water = |tint| Some(MapColor::WaterBlue.tint(tint));
    // At x the water is x + 1 deep.
    assert_eq!(tile.get(0, 0), water(Tint::Light));
    assert_eq!(tile.get(1, 0), water(Tint::Light));
    assert_eq!(tile.get(2, 0), water(Tint::Light));
    assert_eq!(tile.get(2, 1), water(Tint::Normal));
    assert_eq!(tile.get(3, 0), water(Tint::Normal));
    assert_eq!(tile.get(3, 1), water(Tint::Light));
    assert_eq!(tile.get(4, 0), water(Tint::Normal));
    assert_eq!(tile.get(5, 0), water(Tint::Normal));
    assert_eq!(tile.get(6, 0), water(Tint::Normal));
    assert_eq!(tile.get(6, 1), water(Tint::Dark));
    assert_eq!(tile.get(8, 0), water(Tint::Normal));
    assert_eq!(tile.get(8, 1), water(Tint::Dark));
    assert_eq!(tile.get(9, 0), water(Tint::Dark));
    assert_eq!(tile.get(9, 1), water(Tint::Dark));
    assert_eq!(tile.get(15, 7), water(Tint::Dark));
}

#[test]
fn rendering_twice_gives_the_same_tile() {
    let t = table();
    let mut region = Region::new(0, 0);
    region.push_column(build_column(1, 1, 0, None, 0..=5, &|bx, y, bz| {
        if y <= 40 + ((bx as i32 * 7 + bz as i32 * 3) % 5) {
            GRASS
        } else if y <= 42 {
            WATER
        } else {
            AIR
        }
    }));
    let first = drawn(region.render(None, &t));
    let second = drawn(region.render(None, &t));
    for pz in 16..32 {
        for px in 16..32 {
            assert_eq!(first.get(px, pz), second.get(px, pz));
            assert_ne!(first.get(px, pz), Some(NONE));
        }
    }
}

#[test]
fn failed_column_stops_the_region() {
    let t = table();
    let mut region = Region::new(0, 0);
    region.push_column(land(0, 0, 64));
    region.push_failed(1, 0, "chunk 1 0 is corrupt");
    region.push_failed(2, 0, "chunk 2 0 is corrupt");
    region.push_column(land(3, 0, 64));
    assert_eq!(failed(region.render(None, &t)), "chunk 1 0 is corrupt");
}

#[test]
fn failed_column_of_the_region_fails_it_wherever_it_lies() {
    let t = table();
    let mut region = Region::new(0, 0);
    region.push_column(land(0, 1, 64));
    region.push_failed(0, 0, "north is corrupt");
    assert_eq!(failed(region.render(None, &t)), "north is corrupt");
}

#[test]
fn failed_column_to_the_north_does_not_fail_the_region_south_of_it() {
    let t = table();
    let mut prev = Region::new(0, -1);
    prev.push_failed(0, -1, "far north is corrupt");
    let mut next = Region::new(0, 0);
    next.push_column(land(0, 0, 64));
    let tile = drawn(next.render(Some(&prev), &t));
    let stone = Some(MapColor::StoneGray.tint(Tint::Normal));
    for px in 0..16 {
        assert_eq!(tile.get(px, 0), stone);
        assert_eq!(tile.get(px, 1), stone);
    }
    // The northern region itself is the one that fails.
    assert_eq!(failed(prev.render(None, &t)), "far north is corrupt");
}

#[test]
fn failed_column_on_the_south_edge_leaves_the_land_below_level() {
    let t = table();
    // Region A holds a high column at chunk row 30 and a failed one at
    // chunk row 31, its south edge. Region B starts with land right below.
    let mut a = Region::new(3, 0);
    a.push_column(land(96, 30, 90));
    a.push_failed(96, 31, "south edge is corrupt");
    a.push_column(land(97, 31, 90));
    let mut b = Region::new(3, 1);
    b.push_column(land(96, 32, 64));
    b.push_column(land(97, 32, 64));
    b.push_column(land(96, 33, 64));
    assert_eq!(failed(a.render(None, &t)), "south edge is corrupt");
    let tile = drawn(b.render(Some(&a), &t));
    let stone = |tint| Some(MapColor::StoneGray.tint(tint));
    for px in 0..16 {
        // Below the failed column there is no neighbor to compare with.
        assert_eq!(tile.get(px, 0), stone(Tint::Normal));
        // Below the decoded column the land lies in its shadow.
        assert_eq!(tile.get(16 + px, 0), stone(Tint::Dark));
        assert_eq!(tile.get(px, 16), stone(Tint::Normal));
    }
}

#[test]
fn region_holds_each_chunk_position_once() {
    let t = table();
    let mut region = Region::new(0, 0);
    assert!(region.push_column(land(2, 2, 64)));
    assert!(region.push_column(land(2, 3, 64)));
    // A second column at (2, 2) takes the place of the first.
    assert!(region.push_column(land(2, 2, 70)));
    assert_eq!(region.chunk_column(2, 2).unwrap().unwrap().top_y(0, 0), 70);
    let tile = drawn(region.render(None, &t));
    assert_eq!(tile.get(32, 32), Some(MapColor::StoneGray.tint(Tint::Normal)));
    assert_eq!(tile.get(32, 48), Some(MapColor::StoneGray.tint(Tint::Dark)));
    // A failure takes the place of a column, and a column that of a failure.
    assert!(region.push_failed(2, 3, "gone"));
    assert_eq!(region.chunk_column(2, 3).err(), Some("gone".to_string()));
    assert_eq!(failed(region.render(None, &t)), "gone");
    assert!(region.push_column(land(2, 3, 64)));
    assert_eq!(drawn(region.render(None, &t)).get(32, 48), Some(MapColor::StoneGray.tint(Tint::Dark)));
}

#[test]
fn region_refuses_what_lies_outside_it() {
    let mut region = Region::new(1, -1);
    assert!(region.holds(32, -32));
    assert!(region.holds(63, -1));
    assert!(!region.holds(64, -1));
    assert!(!region.holds(31, -1));
    assert!(!region.holds(32, 0));
    assert!(!region.holds(32, -33));
    assert!(!region.push_column(land(0, 0, 64)));
    assert!(!region.push_failed(64, -1, "elsewhere"));
    assert!(region.chunk_column(0, 0).unwrap().is_none());
    assert!(region.chunk_column(64, -1).unwrap().is_none());
    assert!(region.push_column(land(63, -32, 64)));
    assert!(region.chunk_column(63, -32).unwrap().is_some());
    let far = Region::new(i32::MAX / 32, i32::MIN / 32);
    assert!(far.holds(i32::MAX, i32::MIN));
}

#[test]
fn failed_column_to_the_north_does_not_fail_water_either() {
    let t = table();
    let mut prev = Region::new(0, -1);
    prev.push_failed(0, -1, "far north is corrupt");
    let mut region = Region::new(0, 0);
    region.push_column(build_column(0, 0, 0, Some([[62; 16]; 16]), 0..=7, &|_, y, _| if y <= 62 { WATER } else { AIR }));
    let tile = drawn(region.render(Some(&prev), &t));
    assert_eq!(tile.get(0, 0), Some(MapColor::WaterBlue.tint(Tint::Dark)));
}
