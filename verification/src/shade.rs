//! Shading: water columns by their depth, everything else by how its
//! height compares with the block position to its north.

use vstd::prelude::*;
use crate::block::{counts_as_water, ColorTable};
use crate::color::{BlockMapColor, MapColor, Tint};
use crate::column::{ChunkColumn, ColumnView};
use crate::resolve::colored_height;

verus! {

/// Whether the block at one height counts as water. A block in a section
/// that is not loaded does not.
pub open spec fn wet_at(col: ColumnView, table: Map<Seq<char>, BlockMapColor>, bx: int, bz: int, y: int) -> bool {
    col.block_at(bx, y, bz) matches Some(block) && counts_as_water(table, block)
}

/// How many consecutive heights, from `y` downward and not below the
/// column's floor, count as water.
pub open spec fn water_depth(col: ColumnView, table: Map<Seq<char>, BlockMapColor>, bx: int, bz: int, y: int) -> nat
    decreases y - col.floor + 1,
{
    if y < col.floor || !wet_at(col, table, bx, bz, y) {
        0
    } else {
        1 + water_depth(col, table, bx, bz, y - 1)
    }
}

/// The tint of a water column of the given depth. `even` says whether
/// `block_x + block_z` is even: the bands 3..=4 and 7..=9 alternate by it.
pub open spec fn water_tint(depth: nat, even: bool) -> Tint {
    if depth <= 2 {
        Tint::Light
    } else if depth <= 4 {
        if even {
            Tint::Light
        } else {
            Tint::Normal
        }
    } else if depth <= 6 {
        Tint::Normal
    } else if depth <= 9 {
        if even {
            Tint::Normal
        } else {
            Tint::Dark
        }
    } else {
        Tint::Dark
    }
}

/// The tint of a land column that stopped at height `own`, next to a
/// north neighbor of the given height: lower is in shadow, higher catches
/// the light. Without a neighbor the column is taken to be level with it.
pub open spec fn relief_tint(own: int, north: Option<int>) -> Tint {
    match north {
        None => Tint::Normal,
        Some(neighbor) => if own < neighbor {
            Tint::Dark
        } else if own == neighbor {
            Tint::Normal
        } else {
            Tint::Light
        },
    }
}

/// The height of the topmost colored block directly north of a block
/// position: in the same column for `bz > 0`, else in the southmost row
/// of the column to the north, where there is one.
pub open spec fn north_height(col: ColumnView, north: Option<ColumnView>, table: Map<Seq<char>, BlockMapColor>, bx: int, bz: int) -> Option<int> {
    if bz > 0 {
        colored_height(col, table, bx, bz - 1, col.top(bx, bz - 1))
    } else {
        match north {
            Some(neighbor) => colored_height(neighbor, table, bx, 15, neighbor.top(bx, 15)),
            None => None,
        }
    }
}

/// The tint of a block position whose scan gave `color` and stopped at
/// `stop_y`.
pub open spec fn shade(col: ColumnView, north: Option<ColumnView>, table: Map<Seq<char>, BlockMapColor>, bx: int, bz: int, color: MapColor, stop_y: int) -> Tint {
    if color == MapColor::Clear {
        Tint::Normal
    } else if color == MapColor::WaterBlue {
        water_tint(water_depth(col, table, bx, bz, stop_y), (bx + bz) % 2 == 0)
    } else {
        relief_tint(stop_y, north_height(col, north, table, bx, bz))
    }
}

/// At a fixed block position, deeper water is never drawn brighter.
pub proof fn lemma_water_tint_darkens_with_depth(shallow: nat, deep: nat, even: bool)
    requires
        shallow <= deep,
    ensures
        water_tint(shallow, even).strength() >= water_tint(deep, even).strength(),
{
}

/// The ends of the depth scale: up to two blocks of water are light, ten
/// or more are dark, whatever the position.
pub proof fn lemma_water_tint_ends(depth: nat, even: bool)
    ensures
        depth <= 2 ==> water_tint(depth, even) == Tint::Light,
        depth >= 10 ==> water_tint(depth, even) == Tint::Dark,
        5 <= depth <= 6 ==> water_tint(depth, even) == Tint::Normal,
{
}

/// Relief by cases: higher than the north neighbor is light, lower is
/// dark, level is normal, and so is a column without a neighbor.
pub proof fn lemma_relief_tint_cases(own: int, neighbor: int)
    ensures
        own > neighbor ==> relief_tint(own, Some(neighbor)) == Tint::Light,
        own < neighbor ==> relief_tint(own, Some(neighbor)) == Tint::Dark,
        own == neighbor ==> relief_tint(own, Some(neighbor)) == Tint::Normal,
        relief_tint(own, None) == Tint::Normal,
{
}

/// A column whose scan found nothing is shaded normal.
pub proof fn lemma_clear_is_normal(col: ColumnView, north: Option<ColumnView>, table: Map<Seq<char>, BlockMapColor>, bx: int, bz: int, stop_y: int)
    ensures
        shade(col, north, table, bx, bz, MapColor::Clear, stop_y) == Tint::Normal,
{
}

/// Shading reads nothing but the columns and the table: the same content
/// gives the same tint.
pub proof fn lemma_shade_is_a_function_of_content(
    a: ChunkColumn,
    b: ChunkColumn,
    north_a: Option<ChunkColumn>,
    north_b: Option<ChunkColumn>,
    s: ColorTable,
    t: ColorTable,
    bx: int,
    bz: int,
    color: MapColor,
    stop_y: int,
)
    requires
        a@ == b@,
        s@ == t@,
        column_content(north_a) == column_content(north_b),
    ensures
        shade(a@, column_content(north_a), s@, bx, bz, color, stop_y) == shade(b@, column_content(north_b), t@, bx, bz, color, stop_y),
{
}

/// The content of a column that may be missing.
pub open spec fn column_content(col: Option<ChunkColumn>) -> Option<ColumnView> {
    match col {
        Some(c) => Some(c@),
        None => None,
    }
}

/// The content of a borrowed column that may be missing.
pub open spec fn borrowed_content(col: Option<&ChunkColumn>) -> Option<ColumnView> {
    match col {
        Some(c) => Some(c@),
        None => None,
    }
}

/// The tint of a water column of the given depth at a block position.
pub fn water_tint_at(depth: u64, bx: u8, bz: u8) -> (tint: Tint)
    requires
        bx < 16,
        bz < 16,
    ensures
        tint == water_tint(depth as nat, (bx + bz) % 2 == 0),
{
    let even: bool = (bx + bz) % 2 == 0;
    if depth <= 2 {
        Tint::Light
    } else if depth <= 4 {
        if even {
            Tint::Light
        } else {
            Tint::Normal
        }
    } else if depth <= 6 {
        Tint::Normal
    } else if depth <= 9 {
        if even {
            Tint::Normal
        } else {
            Tint::Dark
        }
    } else {
        Tint::Dark
    }
}

/// The tint of a land column from its own height and its north
/// neighbor's.
pub fn relief_tint_of(own: i32, north: Option<i32>) -> (tint: Tint)
    ensures
        tint == relief_tint(own as int, match north {
            Some(n) => Some(n as int),
            None => None,
        }),
{
    match north {
        None => Tint::Normal,
        Some(neighbor) => if own < neighbor {
            Tint::Dark
        } else if own == neighbor {
            Tint::Normal
        } else {
            Tint::Light
        },
    }
}

impl ChunkColumn {
    /// Whether the block at one height counts as water.
    pub fn wet_at(&self, table: &ColorTable, bx: u8, bz: u8, y: i32) -> (wet: bool)
        requires
            bx < 16,
            bz < 16,
        ensures
            wet == wet_at(self@, table@, bx as int, bz as int, y as int),
    {
        match self.block_at(bx, y, bz) {
            Some(block) => table.counts_as_water(block),
            None => false,
        }
    }

    /// Counts the water of a block position from `stop_y` downward.
    pub fn water_depth(&self, table: &ColorTable, bx: u8, bz: u8, stop_y: i32) -> (depth: u64)
        requires
            bx < 16,
            bz < 16,
        ensures
            depth == water_depth(self@, table@, bx as int, bz as int, stop_y as int),
    {
        let floor: i32 = self.y_pos();
        let mut y: i32 = stop_y;
        let mut depth: u64 = 0;
        while y >= floor
            invariant
                bx < 16,
                bz < 16,
                floor == self@.floor,
                y <= stop_y,
                depth == stop_y - y,
                depth + water_depth(self@, table@, bx as int, bz as int, y as int) == water_depth(
                    self@,
                    table@,
                    bx as int,
                    bz as int,
                    stop_y as int,
                ),
            decreases y - floor,
        {
            if !self.wet_at(table, bx, bz, y) {
                return depth;
            }
            depth += 1;
            if y == floor {
                assert(water_depth(self@, table@, bx as int, bz as int, y - 1) == 0);
                return depth;
            }
            y -= 1;
        }
        depth
    }

    /// The height of the topmost colored block directly north of a block
    /// position. `north` is the column to the north, where there is one;
    /// it is consulted only for `bz == 0`.
    pub fn north_height(&self, north: Option<&ChunkColumn>, table: &ColorTable, bx: u8, bz: u8) -> (height: Option<i32>)
        requires
            bx < 16,
            bz < 16,
        ensures
            height.is_some() == north_height(self@, borrowed_content(north), table@, bx as int, bz as int).is_some(),
            height matches Some(y) ==> Some(y as int) == north_height(self@, borrowed_content(north), table@, bx as int, bz as int),
    {
        if bz > 0 {
            self.surface_height(table, bx, bz - 1)
        } else {
            match north {
                Some(neighbor) => neighbor.surface_height(table, bx, 15),
                None => None,
            }
        }
    }

    /// The tint of a block position whose scan gave `color` and stopped at
    /// `stop_y`: by water depth for water blue, by relief against the
    /// north neighbor for every other color, normal for `Clear`.
    pub fn shade(&self, north: Option<&ChunkColumn>, table: &ColorTable, bx: u8, bz: u8, color: MapColor, stop_y: i32) -> (tint: Tint)
        requires
            bx < 16,
            bz < 16,
        ensures
            tint == shade(self@, borrowed_content(north), table@, bx as int, bz as int, color, stop_y as int),
    {
        match color {
            MapColor::Clear => Tint::Normal,
            MapColor::WaterBlue => water_tint_at(self.water_depth(table, bx, bz, stop_y), bx, bz),
            _ => relief_tint_of(stop_y, self.north_height(north, table, bx, bz)),
        }
    }
}

} // verus!
