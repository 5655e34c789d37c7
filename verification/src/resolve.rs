//! The column scan: which block, looking down from the surface, gives a
//! column its map color.

use vstd::prelude::*;
use crate::block::{block_color, BlockView, ColorTable};
use crate::color::{BlockMapColor, MapColor};
use crate::column::{ChunkColumn, ColumnView};

verus! {

/// The color seen at one height of a block position: `Clear` where the
/// section is not loaded or the table does not know the block.
pub open spec fn color_at(col: ColumnView, table: Map<Seq<char>, BlockMapColor>, bx: int, bz: int, y: int) -> MapColor {
    match col.block_at(bx, y, bz) {
        Some(block) => match block_color(table, block) {
            Some(color) => color,
            None => MapColor::Clear,
        },
        None => MapColor::Clear,
    }
}

/// The downward scan from `y`: the first color that is not `Clear` with
/// the height where it was found, or `Clear` with the column's floor when
/// the scan runs out. A scan that starts below the floor examines nothing
/// and stays where it started.
pub open spec fn scan(col: ColumnView, table: Map<Seq<char>, BlockMapColor>, bx: int, bz: int, y: int) -> (MapColor, int)
    decreases y - col.floor,
{
    if y < col.floor {
        (MapColor::Clear, y)
    } else if color_at(col, table, bx, bz, y) != MapColor::Clear {
        (color_at(col, table, bx, bz, y), y)
    } else if y == col.floor {
        (MapColor::Clear, y)
    } else {
        scan(col, table, bx, bz, y - 1)
    }
}

/// The height of the topmost colored block at or below `y`, if the scan
/// finds one.
pub open spec fn colored_height(col: ColumnView, table: Map<Seq<char>, BlockMapColor>, bx: int, bz: int, y: int) -> Option<int> {
    let found = scan(col, table, bx, bz, y);
    if found.0 != MapColor::Clear {
        Some(found.1)
    } else {
        None
    }
}

/// What the scan returns, said without recursion: it stops inside the
/// scanned range, everything above the stop is `Clear`, the color is the
/// one seen at the stop, and a `Clear` result means the floor was reached.
pub proof fn lemma_scan_stops_at_topmost(col: ColumnView, table: Map<Seq<char>, BlockMapColor>, bx: int, bz: int, top: int)
    requires
        col.floor <= top,
    ensures
        col.floor <= scan(col, table, bx, bz, top).1 <= top,
        scan(col, table, bx, bz, top).0 == color_at(col, table, bx, bz, scan(col, table, bx, bz, top).1),
        scan(col, table, bx, bz, top).0 == MapColor::Clear ==> scan(col, table, bx, bz, top).1 == col.floor,
        forall|y: int| scan(col, table, bx, bz, top).1 < y <= top ==> color_at(col, table, bx, bz, y) == MapColor::Clear,
    decreases top - col.floor,
{
    if color_at(col, table, bx, bz, top) == MapColor::Clear && top != col.floor {
        lemma_scan_stops_at_topmost(col, table, bx, bz, top - 1);
    }
}

/// A block that the table does not know is transparent to the scan: a
/// scan that starts on it gives what the scan from the block below gives.
pub proof fn lemma_unknown_block_is_transparent(col: ColumnView, table: Map<Seq<char>, BlockMapColor>, block: BlockView, bx: int, bz: int, y: int)
    requires
        col.floor < y,
        col.block_at(bx, y, bz) == Some(block),
        !table.contains_key(block.name),
    ensures
        scan(col, table, bx, bz, y) == scan(col, table, bx, bz, y - 1),
{
}

/// The color seen at a position is decided by the block at that position
/// alone: two columns that hold the same block there show the same color,
/// whatever they hold elsewhere.
pub proof fn lemma_color_is_local(a: ColumnView, b: ColumnView, table: Map<Seq<char>, BlockMapColor>, bx: int, bz: int, y: int)
    requires
        a.block_at(bx, y, bz) == b.block_at(bx, y, bz),
    ensures
        color_at(a, table, bx, bz, y) == color_at(b, table, bx, bz, y),
{
}

/// A section that is not loaded is skipped in the same way.
pub proof fn lemma_unloaded_section_is_skipped(col: ColumnView, table: Map<Seq<char>, BlockMapColor>, bx: int, bz: int, y: int)
    requires
        col.floor < y,
        !col.sections.contains_key(y / 16),
    ensures
        scan(col, table, bx, bz, y) == scan(col, table, bx, bz, y - 1),
{
}

/// The scan reads nothing but the column and the table: two columns with
/// the same content, under tables with the same content, resolve alike.
pub proof fn lemma_scan_is_a_function_of_content(a: ChunkColumn, b: ChunkColumn, s: ColorTable, t: ColorTable, bx: int, bz: int, top: int)
    requires
        a@ == b@,
        s@ == t@,
    ensures
        scan(a@, s@, bx, bz, top) == scan(b@, t@, bx, bz, top),
{
}

impl ChunkColumn {
    /// The color seen at one height of a block position.
    pub fn color_at(&self, table: &ColorTable, bx: u8, bz: u8, y: i32) -> (color: MapColor)
        requires
            bx < 16,
            bz < 16,
        ensures
            color == color_at(self@, table@, bx as int, bz as int, y as int),
    {
        match self.block_at(bx, y, bz) {
            Some(block) => match table.color_of(block) {
                Some(color) => color,
                None => MapColor::Clear,
            },
            None => MapColor::Clear,
        }
    }

    /// Scans a block position downward from `top_y` to the column's lowest
    /// stored Y and returns the first color that is not `Clear`, with the
    /// Y at which the scan stopped.
    pub fn resolve(&self, table: &ColorTable, bx: u8, bz: u8, top_y: i32) -> (found: (MapColor, i32))
        requires
            bx < 16,
            bz < 16,
        ensures
            (found.0, found.1 as int) == scan(self@, table@, bx as int, bz as int, top_y as int),
    {
        let floor: i32 = self.y_pos();
        let mut y: i32 = top_y;
        while y >= floor
            invariant
                bx < 16,
                bz < 16,
                floor == self@.floor,
                y <= top_y,
                scan(self@, table@, bx as int, bz as int, top_y as int) == scan(self@, table@, bx as int, bz as int, y as int),
            decreases y - floor,
        {
            let color = self.color_at(table, bx, bz, y);
            if !color.is_clear() {
                return (color, y);
            }
            if y == floor {
                return (MapColor::Clear, y);
            }
            y -= 1;
        }
        (MapColor::Clear, y)
    }

    /// The height of the topmost colored block of a block position, looking
    /// down from its cached surface height.
    pub fn surface_height(&self, table: &ColorTable, bx: u8, bz: u8) -> (height: Option<i32>)
        requires
            bx < 16,
            bz < 16,
        ensures
            height.is_some() == colored_height(self@, table@, bx as int, bz as int, self@.top(bx as int, bz as int)).is_some(),
            height matches Some(y) ==> Some(y as int) == colored_height(self@, table@, bx as int, bz as int, self@.top(bx as int, bz as int)),
    {
        let (color, y) = self.resolve(table, bx, bz, self.top_y(bx, bz));
        if color.is_clear() {
            None
        } else {
            Some(y)
        }
    }
}

} // verus!
