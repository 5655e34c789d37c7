//! The two canvases: a fixed 512 x 512 tile for one region, and a world
//! canvas whose bounds grow to cover every pixel inserted.

use vstd::prelude::*;
use crate::color::{transparent, Rgba8};
use crate::raster::{channels, in_rect, pixel_of, raster_get, raster_get_height, raster_get_width, raster_height, raster_new, raster_pixels, raster_put, raster_width, Raster};

verus! {

/// Pixels per edge of a region's tile: 32 chunks of 16 blocks.
pub const TILE_EDGE: u32 = 512;

/// The picture of one region: 512 x 512 pixels, the block column at world
/// position `(x, z)` at pixel `(x mod 512, z mod 512)`.
pub struct TileCanvas {
    img: Raster,
}

/// A half-open rectangle of world block positions:
/// `min_x <= x < max_x`, `min_z <= z < max_z`.
pub struct Bounds {
    pub min_x: int,
    pub min_z: int,
    pub max_x: int,
    pub max_z: int,
}

/// What a world canvas is, mathematically: its bounds and one pixel for
/// every position inside them.
pub struct WorldView {
    pub bounds: Bounds,
    pub pixels: Map<(int, int), Rgba8>,
}

/// One picture for the whole world, addressed by world block position.
pub struct WorldCanvas {
    min_x: i64,
    min_z: i64,
    img: Raster,
}

impl Bounds {
    pub open spec fn width(self) -> int {
        self.max_x - self.min_x
    }

    pub open spec fn height(self) -> int {
        self.max_z - self.min_z
    }

    pub open spec fn is_empty(self) -> bool {
        self.width() <= 0 || self.height() <= 0
    }

    pub open spec fn contains(self, x: int, z: int) -> bool {
        self.min_x <= x < self.max_x && self.min_z <= z < self.max_z
    }

    /// Whether every position of `other` lies in these bounds.
    pub open spec fn covers(self, other: Bounds) -> bool {
        other.is_empty() || (self.min_x <= other.min_x && other.max_x <= self.max_x && self.min_z <= other.min_z
            && other.max_z <= self.max_z)
    }

    /// The smallest bounds that cover these and the position `(x, z)`.
    pub open spec fn grown(self, x: int, z: int) -> Bounds {
        if self.is_empty() {
            Bounds { min_x: x, min_z: z, max_x: x + 1, max_z: z + 1 }
        } else {
            Bounds {
                min_x: if x < self.min_x { x } else { self.min_x },
                min_z: if z < self.min_z { z } else { self.min_z },
                max_x: if x + 1 > self.max_x { x + 1 } else { self.max_x },
                max_z: if z + 1 > self.max_z { z + 1 } else { self.max_z },
            }
        }
    }

    /// Whether a picture of this size can be held: each edge fits 32 bits
    /// and four bytes per pixel fit what one allocation may hold.
    pub open spec fn fits(self) -> bool {
        self.width() <= u32::MAX && self.height() <= u32::MAX && 4 * self.width() * self.height() <= isize::MAX
    }
}

impl WorldView {
    /// Whether there is a pixel for exactly the positions in the bounds.
    pub open spec fn consistent(self) -> bool {
        forall|q: (int, int)| #[trigger] self.pixels.contains_key(q) <==> self.bounds.contains(q.0, q.1)
    }

    /// The canvas after the first `n` pixels of a region's tile, row by
    /// row, are drawn at their world positions: each pixel that is not
    /// transparent is inserted, each transparent one is passed over, so
    /// that the bounds grow only as far as something was drawn.
    pub open spec fn tile_drawn(self, tile: Map<(int, int), Rgba8>, rx: int, rz: int, n: nat) -> WorldView
        decreases n,
    {
        if n == 0 {
            self
        } else {
            let before = self.tile_drawn(tile, rx, rz, (n - 1) as nat);
            let px = (n - 1) % 512;
            let pz = (n - 1) / 512;
            if tile[(px, pz)] == transparent() {
                before
            } else {
                before.inserted(rx * 512 + px, rz * 512 + pz, tile[(px, pz)])
            }
        }
    }

    /// Whether the first `n` pixels of a tile can be drawn: the canvas
    /// can be held after each pixel that is inserted.
    pub open spec fn tile_fits(self, tile: Map<(int, int), Rgba8>, rx: int, rz: int, n: nat) -> bool
        decreases n,
    {
        if n == 0 {
            true
        } else {
            let before = self.tile_drawn(tile, rx, rz, (n - 1) as nat);
            let px = (n - 1) % 512;
            let pz = (n - 1) / 512;
            self.tile_fits(tile, rx, rz, (n - 1) as nat) && (tile[(px, pz)] == transparent() || before.bounds.grown(
                rx * 512 + px,
                rz * 512 + pz,
            ).fits())
        }
    }

    /// The canvas after `pixel` is written at `(x, z)`: the bounds grown to
    /// cover the position, the new pixel in its place, every earlier pixel
    /// where it was, and what the growth added transparent.
    pub open spec fn inserted(self, x: int, z: int, pixel: Rgba8) -> WorldView {
        WorldView {
            bounds: self.bounds.grown(x, z),
            pixels: Map::new(
                |q: (int, int)| self.bounds.grown(x, z).contains(q.0, q.1),
                |q: (int, int)|
                    if q == (x, z) {
                        pixel
                    } else if self.pixels.contains_key(q) {
                        self.pixels[q]
                    } else {
                        transparent()
                    },
            ),
        }
    }
}

/// Growth gives the smallest rectangle that covers the old bounds and the
/// new position: it covers both, and every rectangle that covers both
/// covers it.
pub proof fn lemma_grown_is_smallest_cover(bounds: Bounds, x: int, z: int, other: Bounds)
    ensures
        bounds.grown(x, z).covers(bounds),
        bounds.grown(x, z).contains(x, z),
        !bounds.grown(x, z).is_empty(),
        other.covers(bounds) && other.contains(x, z) ==> other.covers(bounds.grown(x, z)),
        bounds.contains(x, z) ==> bounds.grown(x, z) == bounds,
{
}

/// An insert keeps every pixel that was on the canvas, at its world
/// position, whether or not the canvas had to grow.
pub proof fn lemma_insert_keeps_other_pixels(canvas: WorldView, x: int, z: int, pixel: Rgba8, q: (int, int))
    requires
        canvas.pixels.contains_key(q),
        canvas.bounds.contains(q.0, q.1),
        q != (x, z),
    ensures
        canvas.inserted(x, z, pixel).pixels.contains_key(q),
        canvas.inserted(x, z, pixel).pixels[q] == canvas.pixels[q],
        canvas.inserted(x, z, pixel).pixels[(x, z)] == pixel,
{
}

/// Whether every block position of the region `(rx, rz)` fits 32 bits.
pub open spec fn region_in_range(rx: int, rz: int) -> bool {
    -4194304 <= rx < 4194304 && -4194304 <= rz < 4194304
}

/// An insert leaves a pixel for exactly the positions in the new bounds.
pub proof fn lemma_insert_is_consistent(canvas: WorldView, x: int, z: int, pixel: Rgba8)
    ensures
        canvas.inserted(x, z, pixel).consistent(),
{
}

/// A pixel never goes back to transparent: whatever part of a tile is
/// drawn onto a canvas, every position that held a pixel before holds one
/// after, the bounds have only grown, and a pixel that was not
/// transparent is not transparent after.
pub proof fn lemma_drawing_never_clears(canvas: WorldView, tile: Map<(int, int), Rgba8>, rx: int, rz: int, n: nat, q: (int, int))
    requires
        canvas.consistent(),
        canvas.pixels.contains_key(q),
    ensures
        canvas.tile_drawn(tile, rx, rz, n).consistent(),
        canvas.tile_drawn(tile, rx, rz, n).bounds.covers(canvas.bounds),
        canvas.tile_drawn(tile, rx, rz, n).pixels.contains_key(q),
        canvas.pixels[q] != transparent() ==> canvas.tile_drawn(tile, rx, rz, n).pixels[q] != transparent(),
    decreases n,
{
    if n > 0 {
        lemma_drawing_never_clears(canvas, tile, rx, rz, (n - 1) as nat, q);
        let before = canvas.tile_drawn(tile, rx, rz, (n - 1) as nat);
        let px = (n - 1) % 512;
        let pz = (n - 1) / 512;
        if tile[(px, pz)] != transparent() {
            lemma_insert_is_consistent(before, rx * 512 + px, rz * 512 + pz, tile[(px, pz)]);
            lemma_grown_is_smallest_cover(before.bounds, rx * 512 + px, rz * 512 + pz, before.bounds);
        }
    }
}

/// Once a pixel of a tile cannot be drawn, no longer part of the tile
/// can be.
pub proof fn lemma_tile_fits_shorter(canvas: WorldView, tile: Map<(int, int), Rgba8>, rx: int, rz: int, n: nat, m: nat)
    requires
        n <= m,
        canvas.tile_fits(tile, rx, rz, m),
    ensures
        canvas.tile_fits(tile, rx, rz, n),
    decreases m,
{
    if n < m {
        lemma_tile_fits_shorter(canvas, tile, rx, rz, n, (m - 1) as nat);
    }
}

impl View for TileCanvas {
    type V = Map<(int, int), Rgba8>;

    closed spec fn view(&self) -> Map<(int, int), Rgba8> {
        Map::new(
            |q: (int, int)| in_rect(TILE_EDGE as nat, TILE_EDGE as nat, q.0, q.1),
            |q: (int, int)| pixel_of(raster_pixels(self.img)[q]),
        )
    }
}

impl TileCanvas {
    /// The canvas is 512 pixels wide and high.
    pub closed spec fn wf(&self) -> bool {
        raster_width(self.img) == TILE_EDGE && raster_height(self.img) == TILE_EDGE
    }

    /// An empty tile: every pixel transparent.
    pub fn new() -> (tile: TileCanvas)
        ensures
            tile.wf(),
            forall|px: int, pz: int| #[trigger] tile@.contains_key((px, pz)) <==> 0 <= px < 512 && 0 <= pz < 512,
            forall|px: int, pz: int| 0 <= px < 512 && 0 <= pz < 512 ==> #[trigger] tile@[(px, pz)] == transparent(),
    {
        let tile = TileCanvas { img: raster_new(TILE_EDGE, TILE_EDGE) };
        proof {
            assert forall|px: int, pz: int| 0 <= px < 512 && 0 <= pz < 512 implies #[trigger] tile@[(px, pz)]
                == transparent() by {
                assert(in_rect(512, 512, px, pz));
                assert(raster_pixels(tile.img)[(px, pz)] == (0u8, 0u8, 0u8, 0u8));
            }
        }
        tile
    }

    /// Writes the pixel of the block column at world position `(x, z)`.
    pub fn put(&mut self, x: i32, z: i32, pixel: Rgba8)
        requires
            old(self).wf(),
        ensures
            final(self).wf(),
            final(self)@ == old(self)@.insert((x as int % 512, z as int % 512), pixel),
    {
        let px: u32 = match x.checked_rem_euclid(512) {
            Some(r) => r as u32,
            None => 0,
        };
        let pz: u32 = match z.checked_rem_euclid(512) {
            Some(r) => r as u32,
            None => 0,
        };
        raster_put(&mut self.img, px, pz, pixel);
        proof {
            assert(pixel_of(channels(pixel)) == pixel);
            assert(self@ =~= old(self)@.insert((x as int % 512, z as int % 512), pixel));
        }
    }

    /// The pixel at `(px, pz)`, or `None` outside the tile.
    pub fn get(&self, px: u32, pz: u32) -> (pixel: Option<Rgba8>)
        requires
            self.wf(),
        ensures
            pixel == (if px < 512 && pz < 512 {
                Some(self@[(px as int, pz as int)])
            } else {
                None
            }),
    {
        if px < TILE_EDGE && pz < TILE_EDGE {
            let p = raster_get(&self.img, px, pz);
            proof {
                assert(pixel_of(channels(p)) == p);
            }
            Some(p)
        } else {
            None
        }
    }
}

impl View for WorldCanvas {
    type V = WorldView;

    closed spec fn view(&self) -> WorldView {
        WorldView {
            bounds: self.bounds(),
            pixels: Map::new(
                |q: (int, int)| self.bounds().contains(q.0, q.1),
                |q: (int, int)| pixel_of(raster_pixels(self.img)[(q.0 - self.min_x, q.1 - self.min_z)]),
            ),
        }
    }
}

impl WorldCanvas {
    closed spec fn bounds(&self) -> Bounds {
        Bounds {
            min_x: self.min_x as int,
            min_z: self.min_z as int,
            max_x: self.min_x + raster_width(self.img),
            max_z: self.min_z + raster_height(self.img),
        }
    }

    /// The bounds lie within the 32-bit block positions, the picture can
    /// be held, and an empty canvas has no extent at all.
    pub closed spec fn wf(&self) -> bool {
        &&& i32::MIN <= self.min_x
        &&& i32::MIN <= self.min_z
        &&& self.min_x + raster_width(self.img) <= i32::MAX + 1
        &&& self.min_z + raster_height(self.img) <= i32::MAX + 1
        &&& (raster_width(self.img) == 0) == (raster_height(self.img) == 0)
        &&& self.bounds().fits()
    }

    /// A canvas with empty bounds and no pixel.
    pub fn new() -> (canvas: WorldCanvas)
        ensures
            canvas.wf(),
            canvas@.bounds.is_empty(),
            canvas@.bounds == (Bounds { min_x: 0, min_z: 0, max_x: 0, max_z: 0 }),
            canvas@.pixels == Map::<(int, int), Rgba8>::empty(),
    {
        let canvas = WorldCanvas { min_x: 0, min_z: 0, img: raster_new(0, 0) };
        proof {
            assert(canvas@.pixels =~= Map::<(int, int), Rgba8>::empty());
        }
        canvas
    }

    /// The bounds as `(min_x, min_z, max_x, max_z)`, the maxima exclusive.
    pub fn bounds_of(&self) -> (b: (i64, i64, i64, i64))
        requires
            self.wf(),
        ensures
            b.0 == self@.bounds.min_x,
            b.1 == self@.bounds.min_z,
            b.2 == self@.bounds.max_x,
            b.3 == self@.bounds.max_z,
    {
        let w: u32 = raster_get_width(&self.img);
        let h: u32 = raster_get_height(&self.img);
        (self.min_x, self.min_z, self.min_x + w as i64, self.min_z + h as i64)
    }

    /// The pixel at world position `(x, z)`, or `None` outside the bounds.
    pub fn get(&self, x: i32, z: i32) -> (pixel: Option<Rgba8>)
        requires
            self.wf(),
        ensures
            pixel == (if self@.bounds.contains(x as int, z as int) {
                Some(self@.pixels[(x as int, z as int)])
            } else {
                None
            }),
    {
        let w: u32 = raster_get_width(&self.img);
        let h: u32 = raster_get_height(&self.img);
        let dx: i64 = x as i64 - self.min_x;
        let dz: i64 = z as i64 - self.min_z;
        if 0 <= dx && dx < w as i64 && 0 <= dz && dz < h as i64 {
            let p = raster_get(&self.img, dx as u32, dz as u32);
            proof {
                assert(pixel_of(channels(p)) == p);
            }
            Some(p)
        } else {
            None
        }
    }

    /// Writes `pixel` at world position `(x, z)`. Where the position lies
    /// outside the bounds, the bounds first grow to the smallest rectangle
    /// that covers them and the position, and every pixel keeps its world
    /// position. Returns `false`, and changes nothing, exactly when the
    /// grown picture would be too large to hold.
    #[verifier::rlimit(50)]
    pub fn insert(&mut self, x: i32, z: i32, pixel: Rgba8) -> (ok: bool)
        requires
            old(self).wf(),
        ensures
            final(self).wf(),
            ok == old(self)@.bounds.grown(x as int, z as int).fits(),
            ok ==> final(self)@ == old(self)@.inserted(x as int, z as int, pixel),
            !ok ==> final(self)@ == old(self)@,
    {
        let w: u32 = raster_get_width(&self.img);
        let h: u32 = raster_get_height(&self.img);
        let x: i64 = x as i64;
        let z: i64 = z as i64;
        let old_max_x: i64 = self.min_x + w as i64;
        let old_max_z: i64 = self.min_z + h as i64;
        let empty: bool = w == 0;
        let min_x: i64 = if empty || x < self.min_x { x } else { self.min_x };
        let min_z: i64 = if empty || z < self.min_z { z } else { self.min_z };
        let max_x: i64 = if empty || x + 1 > old_max_x { x + 1 } else { old_max_x };
        let max_z: i64 = if empty || z + 1 > old_max_z { z + 1 } else { old_max_z };
        let new_w: i64 = max_x - min_x;
        let new_h: i64 = max_z - min_z;
        proof {
            assert(old(self)@.bounds.grown(x as int, z as int) == (Bounds {
                min_x: min_x as int,
                min_z: min_z as int,
                max_x: max_x as int,
                max_z: max_z as int,
            }));
            assert(pixel_of(channels(pixel)) == pixel);
        }
        if new_w == w as i64 && new_h == h as i64 {
            raster_put(&mut self.img, (x - self.min_x) as u32, (z - self.min_z) as u32, pixel);
            proof {
                assert(self@.pixels =~= old(self)@.inserted(x as int, z as int, pixel).pixels);
            }
            return true;
        }
        if new_w > u32::MAX as i64 || new_h > u32::MAX as i64 {
            return false;
        }
        assert(0 < new_w * new_h <= 0x1_0000_0000 * 0x1_0000_0000) by (nonlinear_arith)
            requires
                0 < new_w <= 0x1_0000_0000,
                0 < new_h <= 0x1_0000_0000,
        ;
        let bytes: u128 = 4 * (new_w as u128 * new_h as u128);
        assert(bytes == 4 * new_w * new_h) by (nonlinear_arith)
            requires
                bytes == 4 * (new_w * new_h),
        ;
        if bytes > isize::MAX as u128 {
            return false;
        }
        let dx: u32 = if empty { 0 } else { (self.min_x - min_x) as u32 };
        let dz: u32 = if empty { 0 } else { (self.min_z - min_z) as u32 };
        let mut grown: Raster = raster_new(new_w as u32, new_h as u32);
        let mut j: u32 = 0;
        while j < h
            invariant
                j <= h,
                w == raster_width(self.img),
                h == raster_height(self.img),
                raster_width(grown) == new_w,
                raster_height(grown) == new_h,
                new_w <= u32::MAX,
                new_h <= u32::MAX,
                dx + w <= new_w,
                dz + h <= new_h,
                forall|a: int, b: int| #[trigger]
                    raster_pixels(grown).contains_key((a, b)) <==> in_rect(new_w as nat, new_h as nat, a, b),
                forall|a: int, b: int|
                    in_rect(new_w as nat, new_h as nat, a, b) ==> #[trigger] raster_pixels(grown)[(a, b)] == (if dx <= a
                        < dx + w && dz <= b < dz + j {
                        raster_pixels(self.img)[(a - dx, b - dz)]
                    } else {
                        (0u8, 0u8, 0u8, 0u8)
                    }),
            decreases h - j,
        {
            let mut i: u32 = 0;
            while i < w
                invariant
                    i <= w,
                    j < h,
                    w == raster_width(self.img),
                    h == raster_height(self.img),
                    raster_width(grown) == new_w,
                    raster_height(grown) == new_h,
                    new_w <= u32::MAX,
                    new_h <= u32::MAX,
                    dx + w <= new_w,
                    dz + h <= new_h,
                    forall|a: int, b: int| #[trigger]
                        raster_pixels(grown).contains_key((a, b)) <==> in_rect(new_w as nat, new_h as nat, a, b),
                    forall|a: int, b: int|
                        in_rect(new_w as nat, new_h as nat, a, b) ==> #[trigger] raster_pixels(grown)[(a, b)] == (if dx
                            <= a < dx + w && (dz <= b < dz + j || (b == dz + j && a < dx + i)) {
                            raster_pixels(self.img)[(a - dx, b - dz)]
                        } else {
                            (0u8, 0u8, 0u8, 0u8)
                        }),
                decreases w - i,
            {
                let p = raster_get(&self.img, i, j);
                raster_put(&mut grown, dx + i, dz + j, p);
                i += 1;
            }
            j += 1;
        }
        raster_put(&mut grown, (x - min_x) as u32, (z - min_z) as u32, pixel);
        self.min_x = min_x;
        self.min_z = min_z;
        self.img = grown;
        proof {
            assert(self@.bounds == old(self)@.bounds.grown(x as int, z as int));
            assert(self@.pixels =~= old(self)@.inserted(x as int, z as int, pixel).pixels);
        }
        true
    }

    /// A canvas always views with a pixel for exactly the positions in
    /// its bounds.
    pub proof fn lemma_consistent(self)
        ensures
            self@.consistent(),
    {
    }

    /// Draws the tile of the region `(rx, rz)`: every pixel of the tile
    /// that is not transparent is inserted at its world position
    /// `(512 * rx + px, 512 * rz + pz)`, row by row. Returns `false` for a
    /// region whose block positions do not fit 32 bits, with nothing
    /// changed, and as soon as an insert fails, with what was drawn until
    /// then in place.
    #[verifier::rlimit(50)]
    pub fn draw_tile(&mut self, rx: i32, rz: i32, tile: &TileCanvas) -> (ok: bool)
        requires
            old(self).wf(),
            tile.wf(),
        ensures
            final(self).wf(),
            ok == (region_in_range(rx as int, rz as int) && old(self)@.tile_fits(tile@, rx as int, rz as int, 262144)),
            ok ==> final(self)@ == old(self)@.tile_drawn(tile@, rx as int, rz as int, 262144),
            !region_in_range(rx as int, rz as int) ==> final(self)@ == old(self)@,
            !ok && region_in_range(rx as int, rz as int) ==> exists|n: nat|
                {
                    &&& n < 262144
                    &&& old(self)@.tile_fits(tile@, rx as int, rz as int, n)
                    &&& !old(self)@.tile_fits(tile@, rx as int, rz as int, n + 1)
                    &&& final(self)@ == old(self)@.tile_drawn(tile@, rx as int, rz as int, n)
                },
    {
        if rx < -4194304 || rx >= 4194304 || rz < -4194304 || rz >= 4194304 {
            return false;
        }
        let mut n: u32 = 0;
        while n < 262144
            invariant
                n <= 262144,
                self.wf(),
                tile.wf(),
                region_in_range(rx as int, rz as int),
                self@ == old(self)@.tile_drawn(tile@, rx as int, rz as int, n as nat),
                old(self)@.tile_fits(tile@, rx as int, rz as int, n as nat),
            decreases 262144 - n,
        {
            let px: u32 = n % 512;
            let pz: u32 = n / 512;
            let pixel = match tile.get(px, pz) {
                Some(p) => p,
                None => Rgba8 { r: 0, g: 0, b: 0, a: 0 },
            };
            if pixel != (Rgba8 { r: 0, g: 0, b: 0, a: 0 }) {
                let x: i32 = rx * 512 + px as i32;
                let z: i32 = rz * 512 + pz as i32;
                if !self.insert(x, z, pixel) {
                    proof {
                        let failed: nat = n as nat;
                        assert(!old(self)@.tile_fits(tile@, rx as int, rz as int, failed + 1));
                        assert(self@ == old(self)@.tile_drawn(tile@, rx as int, rz as int, failed));
                        if old(self)@.tile_fits(tile@, rx as int, rz as int, 262144) {
                            lemma_tile_fits_shorter(old(self)@, tile@, rx as int, rz as int, (n + 1) as nat, 262144);
                        }
                    }
                    return false;
                }
            }
            n += 1;
        }
        true
    }
}

} // verus!
