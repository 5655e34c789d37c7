//! Chunk columns: a vertical stack of 16-block sections with a cached
//! surface height for each of its 16 x 16 block positions.

use vstd::prelude::*;
use crate::block::{Block, BlockView};

verus! {

/// The surface height assumed everywhere in a column that carries no
/// height map.
pub const FALLBACK_HEIGHT: i32 = 320;

/// What a section is, mathematically: its 4096 blocks, the one at
/// `(bx, by, bz)` at index [`cell_index`].
pub struct SectionView {
    pub blocks: Seq<BlockView>,
}

/// What a column is, mathematically.
pub struct ColumnView {
    /// The column's position, in chunks.
    pub x_pos: int,
    pub z_pos: int,
    /// The lowest stored Y.
    pub floor: int,
    /// The surface height of each block position, the one of `(bx, bz)`
    /// at index `bz * 16 + bx`.
    pub heights: Seq<int>,
    /// The loaded sections by section index: the section with index `cy`
    /// holds the blocks with `16 * cy <= y < 16 * cy + 16`.
    pub sections: Map<int, SectionView>,
}

/// Where a section keeps the block at `(bx, by, bz)`.
pub open spec fn cell_index(bx: int, by: int, bz: int) -> int {
    by * 256 + bz * 16 + bx
}

impl ColumnView {
    /// The cached surface height at a block position.
    pub open spec fn top(self, bx: int, bz: int) -> int {
        self.heights[bz * 16 + bx]
    }

    /// The block at a position, or `None` where the containing section is
    /// not loaded.
    pub open spec fn block_at(self, bx: int, y: int, bz: int) -> Option<BlockView> {
        if self.sections.contains_key(y / 16) {
            Some(self.sections[y / 16].blocks[cell_index(bx, y % 16, bz)])
        } else {
            None
        }
    }
}

/// A 16 x 16 x 16 cube of blocks, stored as a palette and one palette
/// index per cell.
pub struct Section {
    palette: Vec<Block>,
    cells: Vec<u16>,
}

/// One chunk column.
pub struct ChunkColumn {
    x_pos: i32,
    z_pos: i32,
    y_pos: i32,
    heightmap: Option<[[i32; 16]; 16]>,
    sections: Vec<Option<Section>>,
}

/// Whether cells are a full section's worth of indices into a palette of
/// the given length.
pub open spec fn cells_fit(palette_len: nat, cells: Seq<u16>) -> bool {
    cells.len() == 4096 && forall|i: int| 0 <= i < 4096 ==> (#[trigger] cells[i]) < palette_len
}

impl View for Section {
    type V = SectionView;

    closed spec fn view(&self) -> SectionView {
        SectionView { blocks: Seq::new(4096, |i: int| self.palette@[self.cells@[i] as int]@) }
    }
}

impl Section {
    #[verifier::type_invariant]
    spec fn well_formed(self) -> bool {
        cells_fit(self.palette@.len(), self.cells@)
    }

    /// Builds a section from a palette and 4096 palette indices, the cell
    /// of `(bx, by, bz)` at index `by * 256 + bz * 16 + bx`. Returns
    /// `None` unless there are exactly 4096 cells and each names a
    /// palette entry.
    pub fn new(palette: Vec<Block>, cells: Vec<u16>) -> (section: Option<Section>)
        ensures
            section is Some <==> cells_fit(palette@.len(), cells@),
            section matches Some(s) ==> {
                &&& s@.blocks.len() == 4096
                &&& forall|i: int| 0 <= i < 4096 ==> #[trigger] s@.blocks[i] == palette@[cells@[i] as int]@
            },
    {
        if cells.len() != 4096 {
            return None;
        }
        let mut i: usize = 0;
        while i < 4096
            invariant
                i <= 4096,
                cells@.len() == 4096,
                forall|j: int| 0 <= j < i ==> (#[trigger] cells@[j]) < palette@.len(),
            decreases 4096 - i,
        {
            if cells[i] as usize >= palette.len() {
                return None;
            }
            i += 1;
        }
        Some(Section { palette, cells })
    }

    /// The block at a position inside the section.
    pub fn block(&self, bx: u8, by: u8, bz: u8) -> (block: &Block)
        requires
            bx < 16,
            by < 16,
            bz < 16,
        ensures
            block@ == self@.blocks[cell_index(bx as int, by as int, bz as int)],
    {
        proof {
            use_type_invariant(self);
        }
        let index: usize = by as usize * 256 + bz as usize * 16 + bx as usize;
        &self.palette[self.cells[index] as usize]
    }
}

impl View for ChunkColumn {
    type V = ColumnView;

    closed spec fn view(&self) -> ColumnView {
        ColumnView {
            x_pos: self.x_pos as int,
            z_pos: self.z_pos as int,
            floor: self.y_pos as int,
            heights: Seq::new(
                256,
                |i: int|
                    match self.heightmap {
                        Some(rows) => rows@[i / 16]@[i % 16] as int,
                        None => FALLBACK_HEIGHT as int,
                    },
            ),
            sections: Map::new(
                |cy: int| -128 <= cy < 128 && self.sections@[cy + 128] is Some,
                |cy: int| self.sections@[cy + 128]->0@,
            ),
        }
    }
}

impl ChunkColumn {
    #[verifier::type_invariant]
    spec fn well_formed(self) -> bool {
        self.sections@.len() == 256
    }

    /// A column at chunk position `(x_pos, z_pos)` whose lowest stored Y
    /// is `y_pos`, with no section loaded. `heightmap[bz][bx]` is the
    /// surface height at `(bx, bz)`; without a height map every position
    /// has [`FALLBACK_HEIGHT`].
    pub fn new(x_pos: i32, z_pos: i32, y_pos: i32, heightmap: Option<[[i32; 16]; 16]>) -> (col: ChunkColumn)
        ensures
            col@.x_pos == x_pos,
            col@.z_pos == z_pos,
            col@.floor == y_pos,
            col@.heights.len() == 256,
            forall|bx: int, bz: int|
                0 <= bx < 16 && 0 <= bz < 16 ==> #[trigger] col@.top(bx, bz) == (match heightmap {
                    Some(rows) => rows@[bz]@[bx] as int,
                    None => FALLBACK_HEIGHT as int,
                }),
            col@.sections == Map::<int, SectionView>::empty(),
    {
        let mut sections: Vec<Option<Section>> = Vec::new();
        let mut i: usize = 0;
        while i < 256
            invariant
                i <= 256,
                sections@.len() == i,
                forall|j: int| 0 <= j < i ==> (#[trigger] sections@[j]) is None,
            decreases 256 - i,
        {
            sections.push(None);
            i += 1;
        }
        let col = ChunkColumn { x_pos, z_pos, y_pos, heightmap, sections };
        proof {
            assert(col@.sections =~= Map::<int, SectionView>::empty());
            assert forall|bx: int, bz: int| 0 <= bx < 16 && 0 <= bz < 16 implies #[trigger] col@.top(bx, bz)
                == (match heightmap {
                Some(rows) => rows@[bz]@[bx] as int,
                None => FALLBACK_HEIGHT as int,
            }) by {
                assert((bz * 16 + bx) / 16 == bz && (bz * 16 + bx) % 16 == bx);
            }
        }
        col
    }

    /// The same column with a section loaded at section index `cy`, in
    /// place of one that was loaded there before.
    pub fn with_section(self, cy: i8, section: Section) -> (col: ChunkColumn)
        ensures
            col@.x_pos == self@.x_pos,
            col@.z_pos == self@.z_pos,
            col@.floor == self@.floor,
            col@.heights == self@.heights,
            col@.sections == self@.sections.insert(cy as int, section@),
    {
        proof {
            use_type_invariant(&self);
        }
        let slot: usize = (cy as i16 + 128) as usize;
        let ChunkColumn { x_pos, z_pos, y_pos, heightmap, mut sections } = self;
        sections.set(slot, Some(section));
        let col = ChunkColumn { x_pos, z_pos, y_pos, heightmap, sections };
        proof {
            assert(col@.heights =~= self@.heights);
            assert(col@.sections =~= self@.sections.insert(cy as int, section@));
        }
        col
    }

    /// The column's chunk position along x.
    pub fn x_pos(&self) -> (x: i32)
        ensures
            x == self@.x_pos,
    {
        self.x_pos
    }

    /// The column's chunk position along z.
    pub fn z_pos(&self) -> (z: i32)
        ensures
            z == self@.z_pos,
    {
        self.z_pos
    }

    /// The lowest stored Y.
    pub fn y_pos(&self) -> (y: i32)
        ensures
            y == self@.floor,
    {
        self.y_pos
    }

    /// The cached surface height at a block position.
    pub fn top_y(&self, bx: u8, bz: u8) -> (y: i32)
        requires
            bx < 16,
            bz < 16,
        ensures
            y == self@.top(bx as int, bz as int),
    {
        proof {
            assert((bz * 16 + bx) / 16 == bz && (bz * 16 + bx) % 16 == bx);
        }
        match &self.heightmap {
            Some(rows) => rows[bz as usize][bx as usize],
            None => FALLBACK_HEIGHT,
        }
    }

    /// The section with index `cy`, if it is loaded.
    pub fn section_at(&self, cy: i8) -> (section: Option<&Section>)
        ensures
            section is Some <==> self@.sections.contains_key(cy as int),
            section matches Some(s) ==> s@ == self@.sections[cy as int],
    {
        proof {
            use_type_invariant(self);
        }
        let slot: usize = (cy as i16 + 128) as usize;
        self.sections[slot].as_ref()
    }

    /// The block at a position, or `None` where the section that contains
    /// `y` is not loaded.
    pub fn block_at(&self, bx: u8, y: i32, bz: u8) -> (block: Option<&Block>)
        requires
            bx < 16,
            bz < 16,
        ensures
            block is Some <==> self@.block_at(bx as int, y as int, bz as int) is Some,
            block matches Some(b) ==> Some(b@) == self@.block_at(bx as int, y as int, bz as int),
    {
        let cy: i32 = match y.checked_div_euclid(16) {
            Some(cy) => cy,
            None => { return None; },
        };
        let by: i32 = match y.checked_rem_euclid(16) {
            Some(by) => by,
            None => { return None; },
        };
        if cy < -128 || cy > 127 {
            return None;
        }
        match self.section_at(cy as i8) {
            Some(section) => Some(section.block(bx, by as u8, bz)),
            None => None,
        }
    }

    /// A column always views with a height for each of its 256 positions,
    /// with section indices that fit a signed byte, and with a position
    /// and a floor that fit 32 bits.
    pub proof fn lemma_shape(self)
        ensures
            self@.heights.len() == 256,
            i32::MIN <= self@.x_pos <= i32::MAX,
            i32::MIN <= self@.z_pos <= i32::MAX,
            i32::MIN <= self@.floor <= i32::MAX,
            forall|cy: int| #[trigger] self@.sections.contains_key(cy) ==> -128 <= cy < 128,
    {
    }
}

} // verus!
