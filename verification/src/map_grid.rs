//! The tile grid: area queries and mutations under an overwrite policy,
//! kernel stamping, and a chunked dirty bitmap.
//!
//! The grid is `width x height`, stored column by column.  A parallel
//! bitmap holds one flag per `CHUNK_SIZE`-sized chunk; a chunk flips to
//! dirty the first time a tile inside it is written, so a clean chunk is
//! guaranteed to hold nothing but the initial fill tile.

use vstd::prelude::*;
use vstd::pervasive::VecAdditionalExecFns;

use crate::error::GenError;
use crate::kernel::Kernel;
use crate::position::Position;
use crate::tile::{spec_allows, Overwrite, Tile};

verus! {

/// The edge length of a dirty-tracking chunk.
pub const CHUNK_SIZE: usize = 16;

/// The largest accepted map dimension on either axis.
pub const MAX_MAP_DIM: usize = 10000;

/// An inclusive rectangle of grid cells.
#[derive(Clone, Copy, Debug, PartialEq, Eq, Structural)]
pub struct Rect {
    pub x0: usize,
    pub y0: usize,
    pub x1: usize,
    pub y1: usize,
}

/// Whether `(x, y)` lies inside the inclusive rectangle.
pub open spec fn spec_in_rect(r: Rect, x: int, y: int) -> bool {
    r.x0 <= x <= r.x1 && r.y0 <= y <= r.y1
}

/// Whether `(x, y)` lies inside any of the rectangles.
pub open spec fn spec_in_reserved(rs: Seq<Rect>, x: int, y: int) -> bool {
    exists|k: int| 0 <= k < rs.len() && spec_in_rect(rs[k], x, y)
}

/// The tile grid with its chunked dirty bitmap and the rectangles that
/// post-processing must leave reserved.
#[derive(Debug)]
pub struct MapGrid {
    pub width: usize,
    pub height: usize,
    pub fill_tile: Tile,
    pub tiles: Vec<Tile>,
    pub chunks_x: usize,
    pub chunks_y: usize,
    pub dirty: Vec<bool>,
    pub reserved: Vec<Rect>,
}

impl MapGrid {
    /// The tile at `(x, y)`.
    pub open spec fn spec_tile(self, x: int, y: int) -> Tile {
        self.tiles@[x * self.height + y]
    }

    /// Whether `(x, y)` lies on the grid.
    pub open spec fn spec_in_bounds(self, x: int, y: int) -> bool {
        0 <= x < self.width && 0 <= y < self.height
    }

    /// The dirty-bitmap index of the chunk holding `(x, y)`.
    pub open spec fn spec_chunk_index(self, x: int, y: int) -> int {
        (x / (CHUNK_SIZE as int)) * self.chunks_y + (y / (CHUNK_SIZE as int))
    }

    /// A clean chunk holds nothing but the initial fill tile.
    pub open spec fn spec_clean_chunks_uniform(self) -> bool {
        forall|x: int, y: int|
            self.spec_in_bounds(x, y) && !self.dirty@[self.spec_chunk_index(x, y)]
                ==> self.spec_tile(x, y) == self.fill_tile
    }

    /// The structural invariant of the grid.
    pub open spec fn wf(self) -> bool {
        &&& 1 <= self.width <= MAX_MAP_DIM
        &&& 1 <= self.height <= MAX_MAP_DIM
        &&& self.tiles@.len() == self.width * self.height
        &&& self.chunks_x == (self.width + CHUNK_SIZE - 1) as int / CHUNK_SIZE as int
        &&& self.chunks_y == (self.height + CHUNK_SIZE - 1) as int / CHUNK_SIZE as int
        &&& self.dirty@.len() == self.chunks_x * self.chunks_y
        &&& self.spec_clean_chunks_uniform()
    }

    /// Everything but tiles and dirty flags is unchanged, and no dirty
    /// flag has been cleared.
    pub open spec fn spec_same_frame(old_g: MapGrid, new_g: MapGrid) -> bool {
        &&& new_g.width == old_g.width
        &&& new_g.height == old_g.height
        &&& new_g.fill_tile == old_g.fill_tile
        &&& new_g.chunks_x == old_g.chunks_x
        &&& new_g.chunks_y == old_g.chunks_y
        &&& new_g.reserved@ == old_g.reserved@
        &&& new_g.tiles@.len() == old_g.tiles@.len()
        &&& new_g.dirty@.len() == old_g.dirty@.len()
        &&& forall|i: int| 0 <= i < old_g.dirty@.len() && old_g.dirty@[i] ==> new_g.dirty@[i]
    }

    /// A fresh grid, every tile the initial fill, every chunk clean.
    pub fn new(width: usize, height: usize, fill_tile: Tile) -> (r: Result<MapGrid, GenError>)
        ensures
            match r {
                Ok(g) => {
                    &&& g.wf()
                    &&& 1 <= width <= MAX_MAP_DIM && 1 <= height <= MAX_MAP_DIM
                    &&& g.width == width
                    &&& g.height == height
                    &&& g.fill_tile == fill_tile
                    &&& g.reserved@.len() == 0
                    &&& forall|x: int, y: int|
                        g.spec_in_bounds(x, y) ==> g.spec_tile(x, y) == fill_tile
                    &&& forall|i: int| 0 <= i < g.dirty@.len() ==> !g.dirty@[i]
                },
                Err(e) => {
                    &&& e == GenError::OutOfBounds
                    &&& (width < 1 || width > MAX_MAP_DIM || height < 1 || height > MAX_MAP_DIM)
                },
            },
    {
        if width < 1 || width > MAX_MAP_DIM || height < 1 || height > MAX_MAP_DIM {
            return Err(GenError::OutOfBounds);
        }
        assert(width * height <= MAX_MAP_DIM * MAX_MAP_DIM) by (nonlinear_arith)
            requires
                width <= MAX_MAP_DIM,
                height <= MAX_MAP_DIM,
        ;
        let tiles: Vec<Tile> = vec![fill_tile; width * height];
        let chunks_x: usize = (width + CHUNK_SIZE - 1) / CHUNK_SIZE;
        let chunks_y: usize = (height + CHUNK_SIZE - 1) / CHUNK_SIZE;
        assert(chunks_x * chunks_y <= MAX_MAP_DIM * MAX_MAP_DIM) by (nonlinear_arith)
            requires
                0 <= chunks_x <= MAX_MAP_DIM,
                0 <= chunks_y <= MAX_MAP_DIM,
        ;
        let dirty: Vec<bool> = vec![false; chunks_x * chunks_y];
        let g = MapGrid { width, height, fill_tile, tiles, chunks_x, chunks_y, dirty, reserved: Vec::new() };
        proof {
            assert forall|x: int, y: int| g.spec_in_bounds(x, y) implies g.spec_tile(x, y)
                == fill_tile by {
                lemma_cell_index_bound(x, y, width as int, height as int);
            }
        }
        Ok(g)
    }

    /// Whether a position lies on the grid.
    pub fn pos_in_bounds(&self, pos: Position) -> (r: bool)
        ensures
            r == self.spec_in_bounds(pos.x as int, pos.y as int),
    {
        pos.x < self.width && pos.y < self.height
    }

    /// The tile at an in-bounds position.
    pub fn tile_at(&self, x: usize, y: usize) -> (r: Tile)
        requires
            self.wf(),
            x < self.width,
            y < self.height,
        ensures
            r == self.spec_tile(x as int, y as int),
    {
        proof {
            lemma_cell_index_bound(x as int, y as int, self.width as int, self.height as int);
        }
        self.tiles[x * self.height + y]
    }

    /// Write one cell unconditionally and mark its chunk dirty.
    fn write_cell(&mut self, x: usize, y: usize, tile: Tile)
        requires
            old(self).wf(),
            x < old(self).width,
            y < old(self).height,
        ensures
            final(self).wf(),
            MapGrid::spec_same_frame(*old(self), *final(self)),
            forall|a: int, b: int|
                final(self).spec_in_bounds(a, b) ==> #[trigger] final(self).spec_tile(a, b) == (if a == x && b
                    == y {
                    tile
                } else {
                    old(self).spec_tile(a, b)
                }),
    {
        proof {
            lemma_cell_index_bound(x as int, y as int, self.width as int, self.height as int);
            lemma_chunk_index_bound(
                x as int,
                y as int,
                self.width as int,
                self.height as int,
                self.chunks_x as int,
                self.chunks_y as int,
            );
        }
        let i: usize = x * self.height + y;
        self.tiles.set(i, tile);
        let c: usize = (x / CHUNK_SIZE) * self.chunks_y + (y / CHUNK_SIZE);
        self.dirty.set(c, true);
        proof {
            let g0 = *old(self);
            let g1 = *self;
            assert forall|a: int, b: int| g1.spec_in_bounds(a, b) implies g1.spec_tile(a, b) == (
            if a == x && b == y {
                tile
            } else {
                g0.spec_tile(a, b)
            }) by {
                lemma_cell_index_bound(a, b, g1.width as int, g1.height as int);
                if a != x || b != y {
                    lemma_cell_index_injective(
                        a,
                        b,
                        x as int,
                        y as int,
                        g1.width as int,
                        g1.height as int,
                    );
                }
            }
            assert forall|a: int, b: int|
                g1.spec_in_bounds(a, b) && !g1.dirty@[g1.spec_chunk_index(a, b)] implies g1.spec_tile(
                a,
                b,
            ) == g1.fill_tile by {
                lemma_chunk_index_bound(
                    a,
                    b,
                    g1.width as int,
                    g1.height as int,
                    g1.chunks_x as int,
                    g1.chunks_y as int,
                );
                if a == x && b == y {
                    assert(g1.spec_chunk_index(a, b) == c);
                    assert(g1.dirty@[c as int]);
                } else {
                    assert(!g0.dirty@[g0.spec_chunk_index(a, b)]);
                }
            }
        }
    }

    /// Reset every tile to the initial fill, mark every chunk clean and
    /// drop the reserved rectangles.
    pub fn clear(&mut self)
        requires
            old(self).wf(),
        ensures
            final(self).wf(),
            final(self).width == old(self).width,
            final(self).height == old(self).height,
            final(self).fill_tile == old(self).fill_tile,
            final(self).reserved@.len() == 0,
            forall|x: int, y: int|
                final(self).spec_in_bounds(x, y) ==> final(self).spec_tile(x, y) == old(
                    self,
                ).fill_tile,
            forall|i: int| 0 <= i < final(self).dirty@.len() ==> !final(self).dirty@[i],
    {
        assert(self.width * self.height <= MAX_MAP_DIM * MAX_MAP_DIM) by (nonlinear_arith)
            requires
                1 <= self.width <= MAX_MAP_DIM,
                1 <= self.height <= MAX_MAP_DIM,
        ;
        self.tiles = vec![self.fill_tile; self.width * self.height];
        let n: usize = self.dirty.len();
        self.dirty = vec![false; n];
        self.reserved = Vec::new();
        proof {
            assert forall|x: int, y: int| self.spec_in_bounds(x, y) implies self.spec_tile(x, y)
                == self.fill_tile by {
                lemma_cell_index_bound(x, y, self.width as int, self.height as int);
            }
        }
    }

    /// Whether `(x, y)` lies inside any reserved rectangle.
    pub fn pos_reserved(&self, x: usize, y: usize) -> (r: bool)
        ensures
            r == spec_in_reserved(self.reserved@, x as int, y as int),
    {
        let n = self.reserved.len();
        let mut i: usize = 0;
        while i < n
            invariant
                i <= n,
                n == self.reserved@.len(),
                forall|k: int|
                    0 <= k < i ==> !spec_in_rect(#[trigger] self.reserved@[k], x as int, y as int),
            decreases n - i,
        {
            let rc = self.reserved[i];
            if rc.x0 <= x && x <= rc.x1 && rc.y0 <= y && y <= rc.y1 {
                return true;
            }
            i = i + 1;
        }
        false
    }

    /// Record a rectangle that later passes must leave reserved.
    pub fn reserve(&mut self, rect: Rect)
        requires
            old(self).wf(),
        ensures
            final(self).wf(),
            final(self).reserved@ == old(self).reserved@.push(rect),
            final(self).tiles@ == old(self).tiles@,
            final(self).dirty@ == old(self).dirty@,
            final(self).width == old(self).width,
            final(self).height == old(self).height,
            final(self).fill_tile == old(self).fill_tile,
            final(self).chunks_x == old(self).chunks_x,
            final(self).chunks_y == old(self).chunks_y,
    {
        self.reserved.push(rect);
        proof {
            assert forall|x: int, y: int|
                self.spec_in_bounds(x, y) && !self.dirty@[self.spec_chunk_index(x, y)] implies self.spec_tile(
                x,
                y,
            ) == self.fill_tile by {
                assert(old(self).spec_in_bounds(x, y));
                assert(self.spec_chunk_index(x, y) == old(self).spec_chunk_index(x, y));
                assert(self.spec_tile(x, y) == old(self).spec_tile(x, y));
            }
        }
    }

    /// Write one tile under the overwrite policy; the write is skipped
    /// where the policy does not allow replacing what is there.
    pub fn set_tile(&mut self, pos: Position, tile: Tile, overwrite: Overwrite) -> (r: Result<
        (),
        GenError,
    >)
        requires
            old(self).wf(),
        ensures
            final(self).wf(),
            MapGrid::spec_same_frame(*old(self), *final(self)),
            match r {
                Ok(()) => {
                    &&& old(self).spec_in_bounds(pos.x as int, pos.y as int)
                    &&& forall|a: int, b: int|
                        final(self).spec_in_bounds(a, b) ==> #[trigger] final(self).spec_tile(a, b) == (if a
                            == pos.x && b == pos.y && spec_allows(
                            overwrite,
                            old(self).spec_tile(a, b),
                        ) {
                            tile
                        } else {
                            old(self).spec_tile(a, b)
                        })
                },
                Err(e) => {
                    &&& e == GenError::OutOfBounds
                    &&& !old(self).spec_in_bounds(pos.x as int, pos.y as int)
                    &&& final(self).tiles@ == old(self).tiles@
                    &&& final(self).dirty@ == old(self).dirty@
                },
            },
    {
        if pos.x >= self.width || pos.y >= self.height {
            return Err(GenError::OutOfBounds);
        }
        let cur = self.tile_at(pos.x, pos.y);
        if overwrite.allows(cur) {
            self.write_cell(pos.x, pos.y, tile);
        }
        Ok(())
    }
}

/// The inclusive rectangle spanned by two positions.
pub open spec fn spec_rect(tl: Position, br: Position) -> Rect {
    Rect { x0: tl.x, y0: tl.y, x1: br.x, y1: br.y }
}

/// Whether `(x, y)` lies on the one-tile-thick outline of the rectangle.
pub open spec fn spec_on_border(r: Rect, x: int, y: int) -> bool {
    spec_in_rect(r, x, y) && (x == r.x0 || x == r.x1 || y == r.y0 || y == r.y1)
}

impl MapGrid {
    /// Whether two positions span a rectangle that lies on the grid.
    pub open spec fn spec_rect_ok(self, tl: Position, br: Position) -> bool {
        tl.x <= br.x && tl.y <= br.y && br.x < self.width && br.y < self.height
    }

    /// Fill an inclusive rectangle under the overwrite policy.
    pub fn set_area(
        &mut self,
        top_left: Position,
        bot_right: Position,
        tile: Tile,
        overwrite: Overwrite,
    ) -> (r: Result<(), GenError>)
        requires
            old(self).wf(),
        ensures
            final(self).wf(),
            MapGrid::spec_same_frame(*old(self), *final(self)),
            match r {
                Ok(()) => {
                    &&& old(self).spec_rect_ok(top_left, bot_right)
                    &&& forall|a: int, b: int|
                        final(self).spec_in_bounds(a, b) ==> #[trigger] final(self).spec_tile(a, b) == (if
                        spec_in_rect(spec_rect(top_left, bot_right), a, b) && spec_allows(
                            overwrite,
                            old(self).spec_tile(a, b),
                        ) {
                            tile
                        } else {
                            old(self).spec_tile(a, b)
                        })
                },
                Err(e) => {
                    &&& e == GenError::OutOfBounds
                    &&& !old(self).spec_rect_ok(top_left, bot_right)
                    &&& final(self).tiles@ == old(self).tiles@
                    &&& final(self).dirty@ == old(self).dirty@
                },
            },
    {
        if !(top_left.x <= bot_right.x && top_left.y <= bot_right.y && bot_right.x < self.width
            && bot_right.y < self.height) {
            return Err(GenError::OutOfBounds);
        }
        let ghost orig = *self;
        let ghost rect = spec_rect(top_left, bot_right);
        let mut x: usize = top_left.x;
        while x <= bot_right.x
            invariant
                top_left.x <= x <= bot_right.x + 1,
                top_left.x <= bot_right.x,
                top_left.y <= bot_right.y,
                bot_right.x < self.width,
                bot_right.y < self.height,
                rect == spec_rect(top_left, bot_right),
                self.wf(),
                MapGrid::spec_same_frame(orig, *self),
                self.width == orig.width,
                self.height == orig.height,
                forall|a: int, b: int|
                    self.spec_in_bounds(a, b) ==> #[trigger] self.spec_tile(a, b) == (if spec_in_rect(rect, a, b)
                        && a < x && spec_allows(overwrite, orig.spec_tile(a, b)) {
                        tile
                    } else {
                        orig.spec_tile(a, b)
                    }),
            decreases bot_right.x + 1 - x,
        {
            let mut y: usize = top_left.y;
            while y <= bot_right.y
                invariant
                    top_left.x <= x <= bot_right.x,
                    top_left.y <= y <= bot_right.y + 1,
                    top_left.y <= bot_right.y,
                    bot_right.x < self.width,
                    bot_right.y < self.height,
                    rect == spec_rect(top_left, bot_right),
                    self.wf(),
                    MapGrid::spec_same_frame(orig, *self),
                    self.width == orig.width,
                    self.height == orig.height,
                    forall|a: int, b: int|
                        self.spec_in_bounds(a, b) ==> #[trigger] self.spec_tile(a, b) == (if spec_in_rect(
                            rect,
                            a,
                            b,
                        ) && (a < x || (a == x && b < y)) && spec_allows(
                            overwrite,
                            orig.spec_tile(a, b),
                        ) {
                            tile
                        } else {
                            orig.spec_tile(a, b)
                        }),
                decreases bot_right.y + 1 - y,
            {
                let ghost before = *self;
                let cur = self.tile_at(x, y);
                if overwrite.allows(cur) {
                    self.write_cell(x, y, tile);
                }
                proof {
                    assert forall|a: int, b: int| self.spec_in_bounds(a, b) implies #[trigger] self.spec_tile(
                        a,
                        b,
                    ) == (if spec_in_rect(rect, a, b) && (a < x || (a == x && b < y + 1))
                        && spec_allows(overwrite, orig.spec_tile(a, b)) {
                        tile
                    } else {
                        orig.spec_tile(a, b)
                    }) by {
                        assert(before.spec_in_bounds(a, b));
                        assert(spec_in_rect(rect, x as int, y as int));
                        if a == x && b == y {
                            assert(before.spec_tile(a, b) == orig.spec_tile(a, b));
                            assert(cur == before.spec_tile(a, b));
                            if spec_allows(overwrite, orig.spec_tile(a, b)) {
                                assert(self.spec_tile(a, b) == tile);
                            } else {
                                assert(self.spec_tile(a, b) == orig.spec_tile(a, b));
                            }
                        } else {
                            assert(self.spec_tile(a, b) == before.spec_tile(a, b));
                            assert(before.spec_tile(a, b) == (if spec_in_rect(rect, a, b) && (a < x
                                || (a == x && b < y)) && spec_allows(
                                overwrite,
                                orig.spec_tile(a, b),
                            ) {
                                tile
                            } else {
                                orig.spec_tile(a, b)
                            }));
                        }
                    }
                }
                y = y + 1;
            }
            proof {
                assert forall|a: int, b: int| self.spec_in_bounds(a, b) implies #[trigger] self.spec_tile(
                    a,
                    b,
                ) == (if spec_in_rect(rect, a, b) && a < x + 1 && spec_allows(
                    overwrite,
                    orig.spec_tile(a, b),
                ) {
                    tile
                } else {
                    orig.spec_tile(a, b)
                }) by {
                }
            }
            x = x + 1;
        }
        Ok(())
    }

    /// Draw the one-tile-thick outline of an inclusive rectangle under
    /// the overwrite policy.
    pub fn set_area_border(
        &mut self,
        top_left: Position,
        bot_right: Position,
        tile: Tile,
        overwrite: Overwrite,
    ) -> (r: Result<(), GenError>)
        requires
            old(self).wf(),
        ensures
            final(self).wf(),
            MapGrid::spec_same_frame(*old(self), *final(self)),
            match r {
                Ok(()) => {
                    &&& old(self).spec_rect_ok(top_left, bot_right)
                    &&& forall|a: int, b: int|
                        final(self).spec_in_bounds(a, b) ==> #[trigger] final(self).spec_tile(a, b) == (if
                        spec_on_border(spec_rect(top_left, bot_right), a, b) && spec_allows(
                            overwrite,
                            old(self).spec_tile(a, b),
                        ) {
                            tile
                        } else {
                            old(self).spec_tile(a, b)
                        })
                },
                Err(e) => {
                    &&& e == GenError::OutOfBounds
                    &&& !old(self).spec_rect_ok(top_left, bot_right)
                    &&& final(self).tiles@ == old(self).tiles@
                    &&& final(self).dirty@ == old(self).dirty@
                },
            },
    {
        if !(top_left.x <= bot_right.x && top_left.y <= bot_right.y && bot_right.x < self.width
            && bot_right.y < self.height) {
            return Err(GenError::OutOfBounds);
        }
        let ghost orig = *self;
        let ghost rect = spec_rect(top_left, bot_right);
        let mut x: usize = top_left.x;
        while x <= bot_right.x
            invariant
                top_left.x <= x <= bot_right.x + 1,
                top_left.x <= bot_right.x,
                top_left.y <= bot_right.y,
                bot_right.x < self.width,
                bot_right.y < self.height,
                rect == spec_rect(top_left, bot_right),
                self.wf(),
                MapGrid::spec_same_frame(orig, *self),
                self.width == orig.width,
                self.height == orig.height,
                forall|a: int, b: int|
                    self.spec_in_bounds(a, b) ==> #[trigger] self.spec_tile(a, b) == (if spec_on_border(
                        rect,
                        a,
                        b,
                    ) && a < x && spec_allows(overwrite, orig.spec_tile(a, b)) {
                        tile
                    } else {
                        orig.spec_tile(a, b)
                    }),
            decreases bot_right.x + 1 - x,
        {
            let mut y: usize = top_left.y;
            while y <= bot_right.y
                invariant
                    top_left.x <= x <= bot_right.x,
                    top_left.y <= y <= bot_right.y + 1,
                    top_left.y <= bot_right.y,
                    bot_right.x < self.width,
                    bot_right.y < self.height,
                    rect == spec_rect(top_left, bot_right),
                    self.wf(),
                    MapGrid::spec_same_frame(orig, *self),
                    self.width == orig.width,
                    self.height == orig.height,
                    forall|a: int, b: int|
                        self.spec_in_bounds(a, b) ==> #[trigger] self.spec_tile(a, b) == (if spec_on_border(
                            rect,
                            a,
                            b,
                        ) && (a < x || (a == x && b < y)) && spec_allows(
                            overwrite,
                            orig.spec_tile(a, b),
                        ) {
                            tile
                        } else {
                            orig.spec_tile(a, b)
                        }),
                decreases bot_right.y + 1 - y,
            {
                let ghost before = *self;
                if x == top_left.x || x == bot_right.x || y == top_left.y || y == bot_right.y {
                    let cur = self.tile_at(x, y);
                    if overwrite.allows(cur) {
                        self.write_cell(x, y, tile);
                    }
                }
                proof {
                    assert forall|a: int, b: int| self.spec_in_bounds(a, b) implies #[trigger] self.spec_tile(
                        a,
                        b,
                    ) == (if spec_on_border(rect, a, b) && (a < x || (a == x && b < y + 1))
                        && spec_allows(overwrite, orig.spec_tile(a, b)) {
                        tile
                    } else {
                        orig.spec_tile(a, b)
                    }) by {
                        assert(before.spec_in_bounds(a, b));
                        if a == x && b == y {
                            assert(before.spec_tile(a, b) == orig.spec_tile(a, b));
                        } else {
                            assert(self.spec_tile(a, b) == before.spec_tile(a, b));
                        }
                    }
                }
                y = y + 1;
            }
            proof {
                assert forall|a: int, b: int| self.spec_in_bounds(a, b) implies #[trigger] self.spec_tile(
                    a,
                    b,
                ) == (if spec_on_border(rect, a, b) && a < x + 1 && spec_allows(
                    overwrite,
                    orig.spec_tile(a, b),
                ) {
                    tile
                } else {
                    orig.spec_tile(a, b)
                }) by {
                }
            }
            x = x + 1;
        }
        Ok(())
    }

    /// Whether any tile in the inclusive rectangle equals `tile`.
    pub fn check_area_exists(&self, top_left: Position, bot_right: Position, tile: Tile) -> (r:
        Result<bool, GenError>)
        requires
            self.wf(),
        ensures
            match r {
                Ok(found) => {
                    &&& self.spec_rect_ok(top_left, bot_right)
                    &&& found == exists|a: int, b: int|
                        spec_in_rect(spec_rect(top_left, bot_right), a, b) && self.spec_tile(a, b)
                            == tile
                },
                Err(e) => {
                    &&& e == GenError::OutOfBounds
                    &&& !self.spec_rect_ok(top_left, bot_right)
                },
            },
    {
        if !(top_left.x <= bot_right.x && top_left.y <= bot_right.y && bot_right.x < self.width
            && bot_right.y < self.height) {
            return Err(GenError::OutOfBounds);
        }
        let ghost rect = spec_rect(top_left, bot_right);
        let mut x: usize = top_left.x;
        while x <= bot_right.x
            invariant
                top_left.x <= x <= bot_right.x + 1,
                top_left.x <= bot_right.x,
                top_left.y <= bot_right.y,
                bot_right.x < self.width,
                bot_right.y < self.height,
                rect == spec_rect(top_left, bot_right),
                self.wf(),
                forall|a: int, b: int|
                    spec_in_rect(rect, a, b) && a < x ==> self.spec_tile(a, b) != tile,
            decreases bot_right.x + 1 - x,
        {
            let mut y: usize = top_left.y;
            while y <= bot_right.y
                invariant
                    top_left.x <= x <= bot_right.x,
                    top_left.y <= y <= bot_right.y + 1,
                    top_left.y <= bot_right.y,
                    bot_right.x < self.width,
                    bot_right.y < self.height,
                    rect == spec_rect(top_left, bot_right),
                    self.wf(),
                    forall|a: int, b: int|
                        spec_in_rect(rect, a, b) && (a < x || (a == x && b < y)) ==> self.spec_tile(
                            a,
                            b,
                        ) != tile,
                decreases bot_right.y + 1 - y,
            {
                if self.tile_at(x, y) == tile {
                    return Ok(true);
                }
                y = y + 1;
            }
            x = x + 1;
        }
        Ok(false)
    }

    /// Whether every tile in the inclusive rectangle equals `tile`.
    pub fn check_area_all(&self, top_left: Position, bot_right: Position, tile: Tile) -> (r: Result<
        bool,
        GenError,
    >)
        requires
            self.wf(),
        ensures
            match r {
                Ok(all) => {
                    &&& self.spec_rect_ok(top_left, bot_right)
                    &&& all == forall|a: int, b: int|
                        spec_in_rect(spec_rect(top_left, bot_right), a, b) ==> self.spec_tile(a, b)
                            == tile
                },
                Err(e) => {
                    &&& e == GenError::OutOfBounds
                    &&& !self.spec_rect_ok(top_left, bot_right)
                },
            },
    {
        if !(top_left.x <= bot_right.x && top_left.y <= bot_right.y && bot_right.x < self.width
            && bot_right.y < self.height) {
            return Err(GenError::OutOfBounds);
        }
        let ghost rect = spec_rect(top_left, bot_right);
        let mut x: usize = top_left.x;
        while x <= bot_right.x
            invariant
                top_left.x <= x <= bot_right.x + 1,
                top_left.x <= bot_right.x,
                top_left.y <= bot_right.y,
                bot_right.x < self.width,
                bot_right.y < self.height,
                rect == spec_rect(top_left, bot_right),
                self.wf(),
                forall|a: int, b: int|
                    spec_in_rect(rect, a, b) && a < x ==> self.spec_tile(a, b) == tile,
            decreases bot_right.x + 1 - x,
        {
            let mut y: usize = top_left.y;
            while y <= bot_right.y
                invariant
                    top_left.x <= x <= bot_right.x,
                    top_left.y <= y <= bot_right.y + 1,
                    top_left.y <= bot_right.y,
                    bot_right.x < self.width,
                    bot_right.y < self.height,
                    rect == spec_rect(top_left, bot_right),
                    self.wf(),
                    forall|a: int, b: int|
                        spec_in_rect(rect, a, b) && (a < x || (a == x && b < y)) ==> self.spec_tile(
                            a,
                            b,
                        ) == tile,
                decreases bot_right.y + 1 - y,
            {
                if self.tile_at(x, y) != tile {
                    return Ok(false);
                }
                y = y + 1;
            }
            x = x + 1;
        }
        Ok(true)
    }
}

/// Whether a kernel stamp of `size` centered at `center` is accepted on a
/// `w x h` grid: the centre must lie strictly inside the border ring and
/// the whole stamp box must fit on the grid.  In particular a one-tile
/// kernel centred on the exact border is rejected.
pub open spec fn spec_kernel_accepts(center: Position, size: int, w: int, h: int) -> bool {
    let off = size / 2;
    &&& 1 <= center.x && 1 <= center.y
    &&& center.x + 1 < w && center.y + 1 < h
    &&& off <= center.x && off <= center.y
    &&& center.x - off + size <= w
    &&& center.y - off + size <= h
}

/// Whether `(a, b)` lies inside the stamp box of a kernel of `size`
/// centered at `center`.
pub open spec fn spec_kernel_covers(center: Position, size: int, a: int, b: int) -> bool {
    let off = size / 2;
    center.x - off <= a < center.x - off + size && center.y - off <= b < center.y - off + size
}

/// The carving rule of the kernel stamp: only `Hookable` and `Freeze`
/// tiles may ever be overwritten by a stamp, further narrowed by the
/// overwrite policy of the call.
pub open spec fn spec_carvable(t: Tile, ow: Overwrite) -> bool {
    (t == Tile::Hookable || t == Tile::Freeze) && spec_allows(ow, t)
}

impl MapGrid {
    /// Stamp every active kernel cell into the grid around `center`.
    /// Rejected with `false` (and no tile written) when the stamp would
    /// not fit; otherwise every active cell is written, but only over
    /// `Hookable` or `Freeze`, further narrowed by the overwrite policy.
    pub fn apply_kernel(
        &mut self,
        center: Position,
        kernel: &Kernel,
        tile: Tile,
        overwrite: Overwrite,
    ) -> (r: bool)
        requires
            old(self).wf(),
            kernel.wf(),
        ensures
            final(self).wf(),
            MapGrid::spec_same_frame(*old(self), *final(self)),
            r == spec_kernel_accepts(
                center,
                kernel.size as int,
                old(self).width as int,
                old(self).height as int,
            ),
            !r ==> final(self).tiles@ == old(self).tiles@ && final(self).dirty@ == old(
                self,
            ).dirty@,
            r ==> forall|a: int, b: int|
                final(self).spec_in_bounds(a, b) ==> #[trigger] final(self).spec_tile(a, b) == (if
                spec_kernel_covers(center, kernel.size as int, a, b) && kernel.spec_active(
                    a - (center.x - kernel.size / 2),
                    b - (center.y - kernel.size / 2),
                ) && spec_carvable(old(self).spec_tile(a, b), overwrite) {
                    tile
                } else {
                    old(self).spec_tile(a, b)
                }),
    {
        let size = kernel.size;
        let off = size / 2;
        if !(center.x >= 1 && center.y >= 1 && center.x < self.width - 1 && center.y < self.height
            - 1 && center.x >= off && center.y >= off && center.x - off + size <= self.width
            && center.y - off + size <= self.height) {
            return false;
        }
        let x0 = center.x - off;
        let y0 = center.y - off;
        let ghost orig = *self;
        let mut kx: usize = 0;
        while kx < size
            invariant
                kx <= size,
                1 <= size <= crate::kernel::MAX_KERNEL_SIZE,
                kernel.wf(),
                size == kernel.size,
                off == size / 2,
                x0 == center.x - off,
                y0 == center.y - off,
                x0 + size <= self.width,
                y0 + size <= self.height,
                self.wf(),
                MapGrid::spec_same_frame(orig, *self),
                self.width == orig.width,
                self.height == orig.height,
                forall|a: int, b: int|
                    self.spec_in_bounds(a, b) ==> #[trigger] self.spec_tile(a, b) == (if
                    spec_kernel_covers(center, size as int, a, b) && a - x0 < kx && kernel.spec_active(
                        a - x0,
                        b - y0,
                    ) && spec_carvable(orig.spec_tile(a, b), overwrite) {
                        tile
                    } else {
                        orig.spec_tile(a, b)
                    }),
            decreases size - kx,
        {
            let mut ky: usize = 0;
            while ky < size
                invariant
                    kx < size,
                    ky <= size,
                    1 <= size <= crate::kernel::MAX_KERNEL_SIZE,
                    kernel.wf(),
                    size == kernel.size,
                    off == size / 2,
                    x0 == center.x - off,
                    y0 == center.y - off,
                    x0 + size <= self.width,
                    y0 + size <= self.height,
                    self.wf(),
                    MapGrid::spec_same_frame(orig, *self),
                    self.width == orig.width,
                    self.height == orig.height,
                    forall|a: int, b: int|
                        self.spec_in_bounds(a, b) ==> #[trigger] self.spec_tile(a, b) == (if
                        spec_kernel_covers(center, size as int, a, b) && (a - x0 < kx || (a - x0
                            == kx && b - y0 < ky)) && kernel.spec_active(a - x0, b - y0)
                            && spec_carvable(orig.spec_tile(a, b), overwrite) {
                            tile
                        } else {
                            orig.spec_tile(a, b)
                        }),
                decreases size - ky,
            {
                let a = x0 + kx;
                let b = y0 + ky;
                let ghost before = *self;
                let active = kernel.active(kx, ky);
                let cur = self.tile_at(a, b);
                if active && (cur == Tile::Hookable || cur == Tile::Freeze) && overwrite.allows(
                    cur,
                ) {
                    self.write_cell(a, b, tile);
                }
                proof {
                    assert forall|p: int, q: int| self.spec_in_bounds(p, q) implies #[trigger] self.spec_tile(
                        p,
                        q,
                    ) == (if spec_kernel_covers(center, size as int, p, q) && (p - x0 < kx || (p
                        - x0 == kx && q - y0 < ky + 1)) && kernel.spec_active(p - x0, q - y0)
                        && spec_carvable(orig.spec_tile(p, q), overwrite) {
                        tile
                    } else {
                        orig.spec_tile(p, q)
                    }) by {
                        assert(before.spec_in_bounds(p, q));
                        if p == a && q == b {
                            assert(before.spec_tile(p, q) == orig.spec_tile(p, q));
                            assert(cur == before.spec_tile(p, q));
                            assert(spec_kernel_covers(center, size as int, p, q));
                            assert(p - x0 == kx && q - y0 == ky);
                        } else {
                            assert(self.spec_tile(p, q) == before.spec_tile(p, q));
                            assert(before.spec_tile(p, q) == (if spec_kernel_covers(
                                center,
                                size as int,
                                p,
                                q,
                            ) && (p - x0 < kx || (p - x0 == kx && q - y0 < ky))
                                && kernel.spec_active(p - x0, q - y0) && spec_carvable(
                                orig.spec_tile(p, q),
                                overwrite,
                            ) {
                                tile
                            } else {
                                orig.spec_tile(p, q)
                            }));
                        }
                    }
                }
                ky = ky + 1;
            }
            proof {
                assert forall|p: int, q: int| self.spec_in_bounds(p, q) implies #[trigger] self.spec_tile(
                    p,
                    q,
                ) == (if spec_kernel_covers(center, size as int, p, q) && p - x0 < kx + 1
                    && kernel.spec_active(p - x0, q - y0) && spec_carvable(
                    orig.spec_tile(p, q),
                    overwrite,
                ) {
                    tile
                } else {
                    orig.spec_tile(p, q)
                }) by {
                }
            }
            kx = kx + 1;
        }
        true
    }
}

/// The number of cells of the column `x`, rows `y0..=y1`, that hold
/// `tile`.
pub open spec fn spec_count_col(g: MapGrid, x: int, y0: int, y1: int, tile: Tile) -> int
    decreases y1 - y0 + 1,
{
    if y0 > y1 {
        0
    } else {
        spec_count_col(g, x, y0, y1 - 1, tile) + (if g.spec_tile(x, y1) == tile {
            1int
        } else {
            0int
        })
    }
}

/// The number of cells of the rectangle `x0..=x1` by `y0..=y1` that hold
/// `tile`.
pub open spec fn spec_count_rect(g: MapGrid, x0: int, x1: int, y0: int, y1: int, tile: Tile) -> int
    decreases x1 - x0 + 1,
{
    if x0 > x1 {
        0
    } else {
        spec_count_rect(g, x0, x1 - 1, y0, y1, tile) + spec_count_col(g, x1, y0, y1, tile)
    }
}

/// A column count is at most the column's cell count, and never negative.
pub proof fn lemma_count_col_bound(g: MapGrid, x: int, y0: int, y1: int, tile: Tile)
    ensures
        0 <= spec_count_col(g, x, y0, y1, tile) <= (if y1 >= y0 {
            y1 - y0 + 1
        } else {
            0
        }),
    decreases y1 - y0 + 1,
{
    if y0 <= y1 {
        lemma_count_col_bound(g, x, y0, y1 - 1, tile);
    }
}

/// A rectangle count is at most the rectangle's cell count, and never
/// negative.
pub proof fn lemma_count_rect_bound(g: MapGrid, x0: int, x1: int, y0: int, y1: int, tile: Tile)
    requires
        y0 <= y1,
    ensures
        0 <= spec_count_rect(g, x0, x1, y0, y1, tile) <= (if x1 >= x0 {
            (x1 - x0 + 1) * (y1 - y0 + 1)
        } else {
            0
        }),
    decreases x1 - x0 + 1,
{
    if x0 <= x1 {
        lemma_count_rect_bound(g, x0, x1 - 1, y0, y1, tile);
        lemma_count_col_bound(g, x1, y0, y1, tile);
        assert((x1 - x0 + 1) * (y1 - y0 + 1) == (x1 - 1 - x0 + 1) * (y1 - y0 + 1) + (y1 - y0 + 1))
            by (nonlinear_arith)
        ;
    }
}

impl MapGrid {
    /// Count the tiles in the inclusive rectangle that equal `tile`.
    pub fn count_occurrence_in_area(
        &self,
        top_left: Position,
        bot_right: Position,
        tile: Tile,
    ) -> (r: Result<usize, GenError>)
        requires
            self.wf(),
        ensures
            match r {
                Ok(count) => {
                    &&& self.spec_rect_ok(top_left, bot_right)
                    &&& count == spec_count_rect(
                        *self,
                        top_left.x as int,
                        bot_right.x as int,
                        top_left.y as int,
                        bot_right.y as int,
                        tile,
                    )
                },
                Err(e) => {
                    &&& e == GenError::OutOfBounds
                    &&& !self.spec_rect_ok(top_left, bot_right)
                },
            },
    {
        if !(top_left.x <= bot_right.x && top_left.y <= bot_right.y && bot_right.x < self.width
            && bot_right.y < self.height) {
            return Err(GenError::OutOfBounds);
        }
        let mut count: u64 = 0;
        let mut x: usize = top_left.x;
        while x <= bot_right.x
            invariant
                top_left.x <= x <= bot_right.x + 1,
                top_left.x <= bot_right.x,
                top_left.y <= bot_right.y,
                bot_right.x < self.width,
                bot_right.y < self.height,
                self.wf(),
                count == spec_count_rect(
                    *self,
                    top_left.x as int,
                    x - 1,
                    top_left.y as int,
                    bot_right.y as int,
                    tile,
                ),
                count <= 100_000_000,
            decreases bot_right.x + 1 - x,
        {
            let mut y: usize = top_left.y;
            proof {
                lemma_count_rect_bound(
                    *self,
                    top_left.x as int,
                    x - 1,
                    top_left.y as int,
                    bot_right.y as int,
                    tile,
                );
            }
            while y <= bot_right.y
                invariant
                    top_left.x <= x <= bot_right.x,
                    top_left.y <= y <= bot_right.y + 1,
                    top_left.y <= bot_right.y,
                    bot_right.x < self.width,
                    bot_right.y < self.height,
                    self.wf(),
                    count == spec_count_rect(
                        *self,
                        top_left.x as int,
                        x - 1,
                        top_left.y as int,
                        bot_right.y as int,
                        tile,
                    ) + spec_count_col(*self, x as int, top_left.y as int, y - 1, tile),
                    count <= 200_000_000,
                decreases bot_right.y + 1 - y,
            {
                proof {
                    lemma_count_rect_bound(
                        *self,
                        top_left.x as int,
                        x - 1,
                        top_left.y as int,
                        bot_right.y as int,
                        tile,
                    );
                    lemma_count_col_bound(*self, x as int, top_left.y as int, y - 1, tile);
                    assert((x - top_left.x) * (bot_right.y - top_left.y + 1) <= 100_000_000)
                        by (nonlinear_arith)
                        requires
                            0 <= x - top_left.x <= 10000,
                            0 <= bot_right.y - top_left.y + 1 <= 10000,
                    ;
                }
                if self.tile_at(x, y) == tile {
                    count = count + 1;
                }
                y = y + 1;
            }
            proof {
                assert(spec_count_rect(
                    *self,
                    top_left.x as int,
                    x as int,
                    top_left.y as int,
                    bot_right.y as int,
                    tile,
                ) == spec_count_rect(
                    *self,
                    top_left.x as int,
                    x - 1,
                    top_left.y as int,
                    bot_right.y as int,
                    tile,
                ) + spec_count_col(*self, x as int, top_left.y as int, bot_right.y as int, tile));
                lemma_count_rect_bound(
                    *self,
                    top_left.x as int,
                    x as int,
                    top_left.y as int,
                    bot_right.y as int,
                    tile,
                );
                assert((x - top_left.x + 1) * (bot_right.y - top_left.y + 1) <= 100_000_000)
                    by (nonlinear_arith)
                    requires
                        0 <= x - top_left.x + 1 <= 10000,
                        0 <= bot_right.y - top_left.y + 1 <= 10000,
                ;
            }
            x = x + 1;
        }
        Ok(count as usize)
    }
}

/// Dirty-chunk consistency: a clean chunk holds nothing but the initial
/// fill tile, in every well-formed grid.
pub proof fn lemma_clean_chunk_uniform(g: MapGrid, x: int, y: int)
    requires
        g.wf(),
        g.spec_in_bounds(x, y),
        !g.dirty@[g.spec_chunk_index(x, y)],
    ensures
        g.spec_tile(x, y) == g.fill_tile,
{
}

/// How one kernel stamp transforms a grid: the exact relation
/// `apply_kernel` establishes between the grid before and after a call
/// with the given centre, kernel, tile and overwrite policy.  Opaque so
/// that step contracts can chain stamps without unfolding the pointwise
/// description; reveal it to read the tiles.
#[verifier::opaque]
pub open spec fn spec_kernel_stamp_rel(
    old_g: MapGrid,
    new_g: MapGrid,
    center: Position,
    k: Kernel,
    tile: Tile,
    ow: Overwrite,
) -> bool {
    &&& new_g.wf()
    &&& MapGrid::spec_same_frame(old_g, new_g)
    &&& if spec_kernel_accepts(center, k.size as int, old_g.width as int, old_g.height as int) {
        forall|a: int, b: int|
            new_g.spec_in_bounds(a, b) ==> #[trigger] new_g.spec_tile(a, b) == (if
            spec_kernel_covers(center, k.size as int, a, b) && k.spec_active(
                a - (center.x - k.size / 2),
                b - (center.y - k.size / 2),
            ) && spec_carvable(old_g.spec_tile(a, b), ow) {
                tile
            } else {
                old_g.spec_tile(a, b)
            })
    } else {
        new_g.tiles@ == old_g.tiles@ && new_g.dirty@ == old_g.dirty@
    }
}

/// A cell's flat index lies inside the tile vector.
pub proof fn lemma_cell_index_bound(x: int, y: int, w: int, h: int)
    requires
        0 <= x < w,
        0 <= y < h,
        w <= MAX_MAP_DIM,
        h <= MAX_MAP_DIM,
    ensures
        0 <= x * h + y < w * h,
        w * h <= 100_000_000,
{
    assert(x * h + y < w * h && w * h <= 100_000_000) by (nonlinear_arith)
        requires
            0 <= x < w,
            0 <= y < h,
            w <= 10000,
            h <= 10000,
    ;
    assert(0 <= x * h) by (nonlinear_arith)
        requires
            0 <= x,
            0 <= h,
    ;
}

/// Distinct cells have distinct flat indices.
pub proof fn lemma_cell_index_injective(a: int, b: int, x: int, y: int, w: int, h: int)
    requires
        0 <= a < w,
        0 <= b < h,
        0 <= x < w,
        0 <= y < h,
        a != x || b != y,
    ensures
        a * h + b != x * h + y,
{
    assert(a * h + b != x * h + y) by (nonlinear_arith)
        requires
            0 <= a < w,
            0 <= b < h,
            0 <= x < w,
            0 <= y < h,
            a != x || b != y,
    ;
}

/// A cell's chunk index lies inside the dirty bitmap.
pub proof fn lemma_chunk_index_bound(x: int, y: int, w: int, h: int, cx: int, cy: int)
    requires
        0 <= x < w,
        0 <= y < h,
        w <= MAX_MAP_DIM,
        h <= MAX_MAP_DIM,
        cx == (w + CHUNK_SIZE - 1) as int / CHUNK_SIZE as int,
        cy == (h + CHUNK_SIZE - 1) as int / CHUNK_SIZE as int,
    ensures
        0 <= x / (CHUNK_SIZE as int) < cx,
        0 <= y / (CHUNK_SIZE as int) < cy,
        0 <= (x / (CHUNK_SIZE as int)) * cy + (y / (CHUNK_SIZE as int)) < cx * cy,
        cx * cy <= 390_625,
{
    let c = CHUNK_SIZE as int;
    assert(0 <= x / c < cx && 0 <= y / c < cy && cx <= 625 && cy <= 625) by (nonlinear_arith)
        requires
            0 <= x < w,
            0 <= y < h,
            w <= 10000,
            h <= 10000,
            cx == (w + c - 1) / c,
            cy == (h + c - 1) / c,
            c == 16,
    ;
    assert(0 <= (x / c) * cy + (y / c) < cx * cy && cx * cy <= 390_625) by (nonlinear_arith)
        requires
            0 <= x / c < cx,
            0 <= y / c < cy,
            cx <= 625,
            cy <= 625,
    ;
}

} // verus!
