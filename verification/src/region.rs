//! Regions: 32 x 32 chunk columns drawn into one tile, with the region to
//! the north supplying the neighbors of the northmost row.

use vstd::prelude::*;
use crate::block::ColorTable;
use crate::canvas::TileCanvas;
use crate::color::{transparent, BlockMapColor, MapColor, Rgba8};
use crate::column::{ChunkColumn, ColumnView};
use crate::resolve::scan;
use crate::shade::{borrowed_content, shade};

verus! {

/// One slot of a region, mathematically.
pub enum EntryView {
    Loaded(ColumnView),
    Failed { x_pos: int, z_pos: int, message: Seq<char> },
}

/// What a region is, mathematically.
pub struct RegionView {
    pub x: int,
    pub z: int,
    pub entries: Seq<EntryView>,
}

/// One slot of a region: a decoded column, or the position and the
/// message of a column that could not be decoded.
pub enum ColumnEntry {
    Loaded(ChunkColumn),
    Failed { x_pos: i32, z_pos: i32, message: String },
}

/// A region: its coordinates and its columns in the order in which they
/// are drawn. Every column lies in the region, and each chunk position
/// holds one column at most.
pub struct Region {
    x: i32,
    z: i32,
    entries: Vec<ColumnEntry>,
}

/// How drawing a region ended.
pub enum RegionOutcome {
    /// Every column was drawn.
    Drawn(TileCanvas),
    /// A column of the region could not be decoded, with this message;
    /// nothing is to be saved.
    ColumnFailed(String),
}

impl EntryView {
    /// The chunk position of the slot.
    pub open spec fn position(self) -> (int, int) {
        match self {
            EntryView::Loaded(col) => (col.x_pos, col.z_pos),
            EntryView::Failed { x_pos, z_pos, .. } => (x_pos, z_pos),
        }
    }

    /// Whether the slot holds a decoded column that draws the pixel.
    pub open spec fn draws(self, px: int, pz: int) -> bool {
        self matches EntryView::Loaded(col) && col.covers_pixel(px, pz)
    }
}

impl ColumnView {
    /// Whether the pixel `(px, pz)` of a tile belongs to this column: the
    /// column at chunk position `(x_pos, z_pos)` owns the 16 x 16 pixels
    /// whose chunk within the tile is `(x_pos mod 32, z_pos mod 32)`.
    pub open spec fn covers_pixel(self, px: int, pz: int) -> bool {
        px / 16 == self.x_pos % 32 && pz / 16 == self.z_pos % 32
    }
}

/// The pixel of one block position: its resolved color under its tint.
pub open spec fn column_pixel(col: ColumnView, north: Option<ColumnView>, table: Map<Seq<char>, BlockMapColor>, bx: int, bz: int) -> Rgba8 {
    let found = scan(col, table, bx, bz, col.top(bx, bz));
    found.0.tinted(shade(col, north, table, bx, bz, found.0, found.1))
}

impl RegionView {
    /// Whether the chunk position lies in this region: a region holds the
    /// 32 x 32 chunks whose position, divided by 32 and rounded down, is
    /// the region's own.
    pub open spec fn holds(self, x_pos: int, z_pos: int) -> bool {
        x_pos / 32 == self.x && z_pos / 32 == self.z
    }

    /// Every slot lies in the region, and no two slots lie at the same
    /// chunk position.
    pub open spec fn wf(self) -> bool {
        &&& forall|i: int|
            0 <= i < self.entries.len() ==> self.holds(
                (#[trigger] self.entries[i]).position().0,
                self.entries[i].position().1,
            )
        &&& forall|i: int, j: int|
            0 <= i < j < self.entries.len() ==> (#[trigger] self.entries[i]).position() != (
            #[trigger] self.entries[j]).position()
    }

    /// The slots after `entry` is put in: in place of the slot at its
    /// chunk position, or at the end where that position was free.
    pub open spec fn placed(self, entry: EntryView) -> Seq<EntryView> {
        match self.index_of(entry.position().0, entry.position().1, 0) {
            Some(i) => self.entries.update(i, entry),
            None => self.entries.push(entry),
        }
    }

    /// The first slot at or after `from` with the given chunk position.
    pub open spec fn index_of(self, x_pos: int, z_pos: int, from: int) -> Option<int>
        decreases self.entries.len() - from,
    {
        if from < 0 || from >= self.entries.len() {
            None
        } else if self.entries[from].position() == (x_pos, z_pos) {
            Some(from)
        } else {
            self.index_of(x_pos, z_pos, from + 1)
        }
    }

    /// The column at a chunk position: absent, decoded, or failed with
    /// its message.
    pub open spec fn chunk_column(self, x_pos: int, z_pos: int) -> Result<Option<ColumnView>, Seq<char>> {
        match self.index_of(x_pos, z_pos, 0) {
            None => Ok(None),
            Some(i) => match self.entries[i] {
                EntryView::Loaded(col) => Ok(Some(col)),
                EntryView::Failed { message, .. } => Err(message),
            },
        }
    }

    /// The last of the first `n` slots that draws the pixel `(px, pz)`.
    pub open spec fn last_drawing(self, px: int, pz: int, n: int) -> Option<int>
        decreases n,
    {
        if n <= 0 {
            None
        } else if self.entries[n - 1].draws(px, pz) {
            Some(n - 1)
        } else {
            self.last_drawing(px, pz, n - 1)
        }
    }
}

/// Where the column north of `col` is looked up: in the same region
/// unless `col` lies in the region's northmost row, else in the region to
/// the north, if one was handed on.
pub open spec fn north_lookup(region: RegionView, prev: Option<RegionView>, col: ColumnView) -> Result<Option<ColumnView>, Seq<char>> {
    if col.z_pos % 32 > 0 {
        region.chunk_column(col.x_pos, col.z_pos - 1)
    } else {
        match prev {
            Some(p) => p.chunk_column(col.x_pos, col.z_pos - 1),
            None => Ok(None),
        }
    }
}

/// The column north of `col`, where there is one that decoded.
pub open spec fn north_of(region: RegionView, prev: Option<RegionView>, col: ColumnView) -> Option<ColumnView> {
    match north_lookup(region, prev, col) {
        Ok(found) => found,
        Err(_) => None,
    }
}

/// The message with which slot `i` fails, if it does: that of a column
/// of the region that could not be decoded. A column to the north that
/// could not be decoded is no failure of the slot that looks at it: the
/// slot is shaded as if it had no neighbor.
pub open spec fn entry_fault(region: RegionView, i: int) -> Option<Seq<char>> {
    match region.entries[i] {
        EntryView::Failed { message, .. } => Some(message),
        EntryView::Loaded(_) => None,
    }
}

/// The first of the first `n` slots that failed.
pub open spec fn first_fault(region: RegionView, n: int) -> Option<int>
    decreases n,
{
    if n <= 0 {
        None
    } else {
        match first_fault(region, n - 1) {
            Some(i) => Some(i),
            None => if entry_fault(region, n - 1) is Some {
                Some(n - 1)
            } else {
                None
            },
        }
    }
}

/// The pixel `(px, pz)` of a region's tile once the first `n` slots are
/// drawn: that of the column that owns it, transparent where no decoded
/// column does.
pub open spec fn region_pixel(region: RegionView, prev: Option<RegionView>, table: Map<Seq<char>, BlockMapColor>, px: int, pz: int, n: int) -> Rgba8 {
    match region.last_drawing(px, pz, n) {
        Some(i) => column_pixel(
            region.entries[i]->Loaded_0,
            north_of(region, prev, region.entries[i]->Loaded_0),
            table,
            px % 16,
            pz % 16,
        ),
        None => transparent(),
    }
}

/// The content of a region that may be missing.
pub open spec fn region_content(region: Option<&Region>) -> Option<RegionView> {
    match region {
        Some(r) => Some(r@),
        None => None,
    }
}

/// What `index_of` finds is a slot at the position, and the first one.
pub proof fn lemma_index_of(region: RegionView, x_pos: int, z_pos: int, from: int)
    requires
        0 <= from,
    ensures
        match region.index_of(x_pos, z_pos, from) {
            Some(i) => from <= i < region.entries.len() && region.entries[i].position() == (x_pos, z_pos)
                && forall|j: int| from <= j < i ==> (#[trigger] region.entries[j]).position() != (x_pos, z_pos),
            None => forall|j: int|
                from <= j < region.entries.len() ==> (#[trigger] region.entries[j]).position() != (x_pos, z_pos),
        },
    decreases region.entries.len() - from,
{
    if from < region.entries.len() && region.entries[from].position() != (x_pos, z_pos) {
        lemma_index_of(region, x_pos, z_pos, from + 1);
    }
}

/// Putting in a slot that lies in the region keeps the region well
/// formed: the position that it takes held one slot at most, and holds
/// one after.
pub proof fn lemma_placed_is_wf(region: RegionView, entry: EntryView)
    requires
        region.wf(),
        region.holds(entry.position().0, entry.position().1),
    ensures
        (RegionView { x: region.x, z: region.z, entries: region.placed(entry) }).wf(),
{
    let after = RegionView { x: region.x, z: region.z, entries: region.placed(entry) };
    lemma_index_of(region, entry.position().0, entry.position().1, 0);
    match region.index_of(entry.position().0, entry.position().1, 0) {
        Some(k) => {
            assert forall|i: int| 0 <= i < after.entries.len() implies (#[trigger] after.entries[i]).position()
                == region.entries[i].position() by {}
        },
        None => {
            assert forall|i: int| 0 <= i < region.entries.len() implies (#[trigger] after.entries[i])
                == region.entries[i] by {}
        },
    }
}

/// Each pixel of a region's tile belongs to one slot at most: two slots
/// that draw the same pixel are the same slot.
pub proof fn lemma_pixel_has_one_owner(region: RegionView, px: int, pz: int, i: int, j: int)
    requires
        region.wf(),
        0 <= i < region.entries.len(),
        0 <= j < region.entries.len(),
        region.entries[i].draws(px, pz),
        region.entries[j].draws(px, pz),
    ensures
        i == j,
{
    let a = region.entries[i].position();
    let b = region.entries[j].position();
    assert(region.holds(a.0, a.1) && region.holds(b.0, b.1));
    assert(a.0 == (a.0 / 32) * 32 + a.0 % 32 && b.0 == (b.0 / 32) * 32 + b.0 % 32);
    assert(a.1 == (a.1 / 32) * 32 + a.1 % 32 && b.1 == (b.1 / 32) * 32 + b.1 % 32);
    assert(a == b);
}

/// Once a column has drawn a pixel it is final: the tile shows the pixel
/// of the one slot that owns it, however many slots are drawn after.
pub proof fn lemma_drawn_pixel_is_final(region: RegionView, px: int, pz: int, i: int, n: int)
    requires
        region.wf(),
        0 <= i < n <= region.entries.len(),
        region.entries[i].draws(px, pz),
    ensures
        region.last_drawing(px, pz, n) == Some(i),
    decreases n,
{
    if n > i + 1 {
        if region.entries[n - 1].draws(px, pz) {
            lemma_pixel_has_one_owner(region, px, pz, i, n - 1);
        }
        lemma_drawn_pixel_is_final(region, px, pz, i, n - 1);
    }
}

/// A block position whose scan finds no color draws a transparent pixel,
/// whatever lies to its north.
pub proof fn lemma_clear_column_is_transparent(col: ColumnView, north: Option<ColumnView>, table: Map<Seq<char>, BlockMapColor>, bx: int, bz: int)
    requires
        scan(col, table, bx, bz, col.top(bx, bz)).0 == MapColor::Clear,
    ensures
        column_pixel(col, north, table, bx, bz) == transparent(),
{
}

impl View for ColumnEntry {
    type V = EntryView;

    open spec fn view(&self) -> EntryView {
        match self {
            ColumnEntry::Loaded(col) => EntryView::Loaded(col@),
            ColumnEntry::Failed { x_pos, z_pos, message } => EntryView::Failed {
                x_pos: *x_pos as int,
                z_pos: *z_pos as int,
                message: message@,
            },
        }
    }
}

impl View for Region {
    type V = RegionView;

    closed spec fn view(&self) -> RegionView {
        RegionView { x: self.x as int, z: self.z as int, entries: Seq::new(self.entries@.len(), |i: int| self.entries@[i]@) }
    }
}

impl ChunkColumn {
    /// The pixel of one block position. `north` is the column to the
    /// north, where there is one.
    pub fn pixel_at(&self, north: Option<&ChunkColumn>, table: &ColorTable, bx: u8, bz: u8) -> (pixel: Rgba8)
        requires
            bx < 16,
            bz < 16,
        ensures
            pixel == column_pixel(self@, borrowed_content(north), table@, bx as int, bz as int),
    {
        let (color, stop_y) = self.resolve(table, bx, bz, self.top_y(bx, bz));
        let tint = self.shade(north, table, bx, bz, color, stop_y);
        color.tint(tint)
    }

    /// Draws the 256 pixels of this column into a tile.
    #[verifier::rlimit(50)]
    pub fn draw(&self, north: Option<&ChunkColumn>, table: &ColorTable, tile: &mut TileCanvas)
        requires
            old(tile).wf(),
        ensures
            final(tile).wf(),
            forall|px: int, pz: int|
                0 <= px < 512 && 0 <= pz < 512 ==> #[trigger] final(tile)@[(px, pz)] == (if self@.covers_pixel(px, pz) {
                    column_pixel(self@, borrowed_content(north), table@, px % 16, pz % 16)
                } else {
                    old(tile)@[(px, pz)]
                }),
    {
        let cx: i32 = match self.x_pos().checked_rem_euclid(32) {
            Some(r) => r,
            None => 0,
        };
        let cz: i32 = match self.z_pos().checked_rem_euclid(32) {
            Some(r) => r,
            None => 0,
        };
        let mut bz: u8 = 0;
        while bz < 16
            invariant
                bz <= 16,
                tile.wf(),
                cx == self@.x_pos % 32,
                cz == self@.z_pos % 32,
                forall|px: int, pz: int|
                    0 <= px < 512 && 0 <= pz < 512 ==> #[trigger] tile@[(px, pz)] == (if self@.covers_pixel(px, pz) && pz
                        % 16 < bz {
                        column_pixel(self@, borrowed_content(north), table@, px % 16, pz % 16)
                    } else {
                        old(tile)@[(px, pz)]
                    }),
            decreases 16 - bz,
        {
            let mut bx: u8 = 0;
            while bx < 16
                invariant
                    bx <= 16,
                    bz < 16,
                    tile.wf(),
                    cx == self@.x_pos % 32,
                    cz == self@.z_pos % 32,
                    forall|px: int, pz: int|
                        0 <= px < 512 && 0 <= pz < 512 ==> #[trigger] tile@[(px, pz)] == (if self@.covers_pixel(px, pz)
                            && (pz % 16 < bz || (pz % 16 == bz && px % 16 < bx)) {
                            column_pixel(self@, borrowed_content(north), table@, px % 16, pz % 16)
                        } else {
                            old(tile)@[(px, pz)]
                        }),
                decreases 16 - bx,
            {
                let pixel = self.pixel_at(north, table, bx, bz);
                let ghost before = tile@;
                tile.put(cx * 16 + bx as i32, cz * 16 + bz as i32, pixel);
                proof {
                    let qx = cx * 16 + bx;
                    let qz = cz * 16 + bz;
                    assert(qx % 512 == qx && qz % 512 == qz);
                    assert(qx / 16 == cx && qx % 16 == bx);
                    assert(qz / 16 == cz && qz % 16 == bz);
                    assert(tile@ == before.insert((qx, qz), pixel));
                    assert forall|px: int, pz: int| 0 <= px < 512 && 0 <= pz < 512 implies #[trigger] tile@[(px, pz)]
                        == (if self@.covers_pixel(px, pz) && (pz % 16 < bz || (pz % 16 == bz && px % 16 < bx + 1)) {
                        column_pixel(self@, borrowed_content(north), table@, px % 16, pz % 16)
                    } else {
                        old(tile)@[(px, pz)]
                    }) by {
                        if (px, pz) == (qx, qz) {
                        } else {
                            assert(tile@[(px, pz)] == before[(px, pz)]);
                            if self@.covers_pixel(px, pz) && pz % 16 == bz && px % 16 == bx {
                                assert(px == (px / 16) * 16 + px % 16);
                                assert(pz == (pz / 16) * 16 + pz % 16);
                            }
                        }
                    }
                }
                bx += 1;
            }
            bz += 1;
        }
    }
}

/// Whether a lookup gave what the region's content says it gives.
pub open spec fn same_lookup(found: Result<Option<&ChunkColumn>, String>, expected: Result<Option<ColumnView>, Seq<char>>) -> bool {
    match (found, expected) {
        (Ok(Some(col)), Ok(Some(content))) => col@ == content,
        (Ok(None), Ok(None)) => true,
        (Err(message), Err(text)) => message@ == text,
        _ => false,
    }
}

/// Only a region's own columns fail it: among the first `n` slots there
/// is a failure exactly when one of them holds a column that could not be
/// decoded, and the first failure is such a slot. What lies to the north
/// plays no part.
pub proof fn lemma_fault_is_the_regions_own(region: RegionView, n: int)
    ensures
        first_fault(region, n) is Some <==> exists|i: int| 0 <= i < n && (#[trigger] region.entries[i]) is Failed,
        first_fault(region, n) matches Some(i) ==> 0 <= i < n && region.entries[i] is Failed,
    decreases n,
{
    if n > 0 {
        lemma_fault_is_the_regions_own(region, n - 1);
        if first_fault(region, n) is Some {
            let i = first_fault(region, n)->0;
            assert(region.entries[i] is Failed);
        }
        if exists|i: int| 0 <= i < n && (#[trigger] region.entries[i]) is Failed {
            let i = choose|i: int| 0 <= i < n && (#[trigger] region.entries[i]) is Failed;
            if i < n - 1 {
                assert(first_fault(region, n - 1) is Some);
            }
        }
    }
}

/// Once a slot has failed, it stays the first failure however many more
/// slots are considered.
pub proof fn lemma_first_fault_stays(region: RegionView, i: int, n: int)
    requires
        0 <= i < n,
        first_fault(region, i) is None,
        entry_fault(region, i) is Some,
    ensures
        first_fault(region, n) == Some(i),
    decreases n - i,
{
    if n > i + 1 {
        lemma_first_fault_stays(region, i, n - 1);
    }
}

impl ColumnEntry {
    /// The chunk position of the slot.
    pub fn position(&self) -> (at: (i32, i32))
        ensures
            (at.0 as int, at.1 as int) == self@.position(),
    {
        match self {
            ColumnEntry::Loaded(col) => (col.x_pos(), col.z_pos()),
            ColumnEntry::Failed { x_pos, z_pos, .. } => (*x_pos, *z_pos),
        }
    }
}

impl Region {
    #[verifier::type_invariant]
    spec fn well_formed(self) -> bool {
        self@.wf()
    }

    /// A region at region coordinates `(x, z)` with no column.
    pub fn new(x: i32, z: i32) -> (region: Region)
        ensures
            region@.x == x,
            region@.z == z,
            region@.entries == Seq::<EntryView>::empty(),
            region@.wf(),
    {
        let entries: Vec<ColumnEntry> = Vec::new();
        assert(Seq::new(entries@.len(), |i: int| entries@[i]@) =~= Seq::<EntryView>::empty());
        Region { x, z, entries }
    }

    /// Whether the chunk position lies in this region.
    pub fn holds(&self, x_pos: i32, z_pos: i32) -> (inside: bool)
        ensures
            inside == self@.holds(x_pos as int, z_pos as int),
    {
        x_pos.checked_div_euclid(32) == Some(self.x) && z_pos.checked_div_euclid(32) == Some(self.z)
    }

    /// Puts a slot in: in place of the slot at its chunk position, or at
    /// the end. A slot that lies outside the region is refused.
    fn place(&mut self, entry: ColumnEntry) -> (ok: bool)
        ensures
            final(self)@.x == old(self)@.x,
            final(self)@.z == old(self)@.z,
            final(self)@.wf(),
            ok == old(self)@.holds(entry@.position().0, entry@.position().1),
            ok ==> final(self)@.entries == old(self)@.placed(entry@),
            !ok ==> final(self)@ == old(self)@,
    {
        proof {
            use_type_invariant(&*self);
        }
        let at = entry.position();
        if !self.holds(at.0, at.1) {
            return false;
        }
        let ghost before = self@;
        let mut entries: Vec<ColumnEntry> = Vec::new();
        proof {
            assert(Seq::new(entries@.len(), |i: int| entries@[i]@) =~= Seq::<EntryView>::empty());
        }
        core::mem::swap(&mut self.entries, &mut entries);
        assert(Seq::new(entries@.len(), |i: int| entries@[i]@) =~= before.entries);
        let mut i: usize = 0;
        let mut found: Option<usize> = None;
        while i < entries.len() && found.is_none()
            invariant
                i <= entries@.len(),
                Seq::new(entries@.len(), |k: int| entries@[k]@) == before.entries,
                found is None ==> before.index_of(at.0 as int, at.1 as int, 0) == before.index_of(
                    at.0 as int,
                    at.1 as int,
                    i as int,
                ),
                found matches Some(k) ==> k < entries@.len() && before.index_of(at.0 as int, at.1 as int, 0) == Some(
                    k as int,
                ),
            decreases entries@.len() - i + (if found is None { 1int } else { 0int }),
        {
            let here = entries[i].position();
            assert(entries@[i as int]@ == before.entries[i as int]);
            if here.0 == at.0 && here.1 == at.1 {
                found = Some(i);
            } else {
                i += 1;
            }
        }
        match found {
            Some(k) => {
                assert(entries@[k as int]@ == before.entries[k as int]);
                entries.set(k, entry);
            },
            None => {
                entries.push(entry);
            },
        }
        proof {
            assert(Seq::new(entries@.len(), |k: int| entries@[k]@) =~= before.placed(entry@));
            lemma_placed_is_wf(before, entry@);
        }
        core::mem::swap(&mut self.entries, &mut entries);
        true
    }

    /// Puts a decoded column in, in place of what the region held at its
    /// chunk position. Returns `false`, and changes nothing, for a column
    /// that lies outside the region.
    pub fn push_column(&mut self, col: ChunkColumn) -> (ok: bool)
        ensures
            final(self)@.x == old(self)@.x,
            final(self)@.z == old(self)@.z,
            final(self)@.wf(),
            ok == old(self)@.holds(col@.x_pos, col@.z_pos),
            ok ==> final(self)@.entries == old(self)@.placed(EntryView::Loaded(col@)),
            !ok ==> final(self)@ == old(self)@,
    {
        self.place(ColumnEntry::Loaded(col))
    }

    /// Puts the record of a column that could not be decoded in, in place
    /// of what the region held at the chunk position. Returns `false`,
    /// and changes nothing, for a position that lies outside the region.
    pub fn push_failed(&mut self, x_pos: i32, z_pos: i32, message: &str) -> (ok: bool)
        ensures
            final(self)@.x == old(self)@.x,
            final(self)@.z == old(self)@.z,
            final(self)@.wf(),
            ok == old(self)@.holds(x_pos as int, z_pos as int),
            ok ==> final(self)@.entries == old(self)@.placed(
                EntryView::Failed { x_pos: x_pos as int, z_pos: z_pos as int, message: message@ },
            ),
            !ok ==> final(self)@ == old(self)@,
    {
        self.place(ColumnEntry::Failed { x_pos, z_pos, message: message.to_owned() })
    }

    /// The region's coordinates `(x, z)`.
    pub fn coords(&self) -> (at: (i32, i32))
        ensures
            at.0 == self@.x,
            at.1 == self@.z,
    {
        (self.x, self.z)
    }

    /// The column at a chunk position: `Ok(None)` where the region holds
    /// none, the failure message where the one it holds did not decode.
    pub fn chunk_column(&self, x_pos: i32, z_pos: i32) -> (found: Result<Option<&ChunkColumn>, String>)
        ensures
            same_lookup(found, self@.chunk_column(x_pos as int, z_pos as int)),
    {
        let mut i: usize = 0;
        while i < self.entries.len()
            invariant
                i <= self.entries@.len(),
                self@.index_of(x_pos as int, z_pos as int, 0) == self@.index_of(x_pos as int, z_pos as int, i as int),
            decreases self.entries@.len() - i,
        {
            let at = self.entries[i].position();
            if at.0 == x_pos && at.1 == z_pos {
                return match &self.entries[i] {
                    ColumnEntry::Loaded(col) => Ok(Some(col)),
                    ColumnEntry::Failed { message, .. } => Err(message.clone()),
                };
            }
            i += 1;
        }
        Ok(None)
    }

    /// Every slot lies at a chunk position that 32 bits hold, so no slot
    /// is found at any other.
    proof fn lemma_positions_fit(self, x_pos: int, z_pos: int, from: int)
        requires
            z_pos < i32::MIN || z_pos > i32::MAX || x_pos < i32::MIN || x_pos > i32::MAX,
        ensures
            self@.index_of(x_pos, z_pos, from) is None,
        decreases self@.entries.len() - from,
    {
        if 0 <= from < self@.entries.len() {
            if let ColumnEntry::Loaded(col) = self.entries@[from] {
                col.lemma_shape();
            }
            self.lemma_positions_fit(x_pos, z_pos, from + 1);
        }
    }

    /// Looks up the column north of `col`: in this region, or for a column
    /// in the northmost row in `prev`, the region to the north.
    pub fn north_column<'a>(&'a self, prev: Option<&'a Region>, col: &ChunkColumn) -> (found: Result<Option<&'a ChunkColumn>, String>)
        ensures
            same_lookup(found, north_lookup(self@, region_content(prev), col@)),
    {
        let row: i32 = match col.z_pos().checked_rem_euclid(32) {
            Some(r) => r,
            None => 0,
        };
        let north_z: i32 = match col.z_pos().checked_sub(1) {
            Some(z) => z,
            None => {
                proof {
                    self.lemma_positions_fit(col@.x_pos, col@.z_pos - 1, 0);
                    if let Some(p) = prev {
                        p.lemma_positions_fit(col@.x_pos, col@.z_pos - 1, 0);
                    }
                }
                return Ok(None);
            },
        };
        if row > 0 {
            self.chunk_column(col.x_pos(), north_z)
        } else {
            match prev {
                Some(p) => p.chunk_column(col.x_pos(), north_z),
                None => Ok(None),
            }
        }
    }

    /// Draws the region: every decoded column in order, each block
    /// position colored by its topmost colored block and shaded against
    /// its north neighbor or by its water depth. `prev` is the region
    /// directly to the north, if it was processed. Drawing stops at the
    /// first column of this region that did not decode. A column to the
    /// north that did not decode stops nothing: where it is looked at,
    /// in this region or in `prev`, there is no neighbor.
    #[verifier::rlimit(50)]
    pub fn render(&self, prev: Option<&Region>, table: &ColorTable) -> (outcome: RegionOutcome)
        ensures
            self@.wf(),
            match outcome {
                RegionOutcome::Drawn(tile) => {
                    &&& first_fault(self@, self@.entries.len() as int) is None
                    &&& tile.wf()
                    &&& forall|px: int, pz: int|
                        0 <= px < 512 && 0 <= pz < 512 ==> #[trigger] tile@[(px, pz)] == region_pixel(
                            self@,
                            region_content(prev),
                            table@,
                            px,
                            pz,
                            self@.entries.len() as int,
                        )
                },
                RegionOutcome::ColumnFailed(message) => {
                    &&& first_fault(self@, self@.entries.len() as int) matches Some(i)
                    &&& entry_fault(self@, i) == Some(message@)
                },
            },
    {
        proof {
            use_type_invariant(self);
        }
        let mut tile = TileCanvas::new();
        let mut i: usize = 0;
        while i < self.entries.len()
            invariant
                i <= self.entries@.len(),
                self@.wf(),
                tile.wf(),
                first_fault(self@, i as int) is None,
                forall|px: int, pz: int|
                    0 <= px < 512 && 0 <= pz < 512 ==> #[trigger] tile@[(px, pz)] == region_pixel(
                        self@,
                        region_content(prev),
                        table@,
                        px,
                        pz,
                        i as int,
                    ),
            decreases self.entries@.len() - i,
        {
            let ghost before = tile@;
            match &self.entries[i] {
                ColumnEntry::Failed { message, .. } => {
                    proof {
                        lemma_first_fault_stays(self@, i as int, self@.entries.len() as int);
                    }
                    return RegionOutcome::ColumnFailed(message.clone());
                },
                ColumnEntry::Loaded(col) => {
                    let north: Option<&ChunkColumn> = match self.north_column(prev, col) {
                        Ok(found) => found,
                        Err(_) => None,
                    };
                    assert(borrowed_content(north) == north_of(self@, region_content(prev), col@));
                    col.draw(north, table, &mut tile);
                    proof {
                        assert(entry_fault(self@, i as int) is None);
                        assert forall|px: int, pz: int| 0 <= px < 512 && 0 <= pz < 512 implies #[trigger] tile@[(
                            px,
                            pz,
                        )] == region_pixel(self@, region_content(prev), table@, px, pz, i + 1) by {
                            if col@.covers_pixel(px, pz) {
                                assert(self@.entries[i as int].draws(px, pz));
                            } else {
                                assert(tile@[(px, pz)] == before[(px, pz)]);
                            }
                        }
                    }
                },
            }
            i += 1;
        }
        RegionOutcome::Drawn(tile)
    }
}

} // verus!
