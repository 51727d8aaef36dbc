//! The ordered passes that run after the walker finishes: edge-bug
//! fixing, room stamping, freeze-blob removal, open-area filling and
//! skip insertion.

use vstd::prelude::*;
use vstd::pervasive::VecAdditionalExecFns;

use crate::error::GenError;
use crate::map_grid::{
    lemma_cell_index_bound, spec_in_rect, spec_in_reserved, spec_on_border, spec_rect, MapGrid,
    Rect,
};
use crate::position::Position;
use crate::tile::{spec_is_solid, Overwrite, Tile};

verus! {

/// The larger of two integers.
pub open spec fn spec_max(a: int, b: int) -> int {
    if a >= b {
        a
    } else {
        b
    }
}

/// The absolute value of an integer.
pub open spec fn spec_abs_off(t: int) -> int {
    if t >= 0 {
        t
    } else {
        -t
    }
}

/// The tile a cell at offset `(dx, dy)` from the room centre holds after
/// the room is stamped, given the tile `old_t` it held before.  `r` is
/// the room radius, `m` the platform margin; `zone` is the ring tile.
///
/// Layer order, later layers winning: an `Empty` border at radius `r`, a
/// reserved interior inside it, the zone ring at `r + 1` (the zone tile
/// over non-solid ground, a `Freeze` shim over solid ground, so the
/// empty border never touches `Hookable`), and, for a `Start` room, a
/// spawn row and a platform row; a room without a zone gets a small
/// centre platform instead.
pub open spec fn spec_room_tile(
    old_t: Tile,
    dx: int,
    dy: int,
    r: int,
    m: int,
    zone: Option<Tile>,
) -> Tile {
    let c = spec_max(spec_abs_off(dx), spec_abs_off(dy));
    if zone == Some(Tile::Start) && dy == r - 1 && -(r - m) <= dx <= r - m {
        Tile::Spawn
    } else if zone == Some(Tile::Start) && dy == r + 1 && -(r - m) <= dx <= r - m {
        Tile::Platform
    } else if c <= r - 1 {
        if zone is None && r >= 4 && dy == r - 3 && -1 <= dx <= 1 {
            Tile::Platform
        } else {
            Tile::EmptyReserved
        }
    } else if c == r {
        Tile::Empty
    } else if c == r + 1 && zone is Some {
        if !spec_is_solid(old_t) {
            zone.unwrap()
        } else {
            Tile::Freeze
        }
    } else {
        old_t
    }
}

/// Whether a room of radius `r` centred at `pos` fits on the grid with
/// its zone ring.
pub open spec fn spec_room_fits(pos: Position, r: int, w: int, h: int) -> bool {
    &&& pos.x >= r + 1
    &&& pos.y >= r + 1
    &&& pos.x + r + 1 < w
    &&& pos.y + r + 1 < h
}

/// Stamp a room around `pos`: an empty border, a reserved interior and,
/// depending on the zone, spawn and platform furniture.  The interior is
/// recorded as a reserved rectangle.  Fails with `RoomOutOfBounds` when
/// the room does not fit.
pub fn generate_room(
    map: &mut MapGrid,
    pos: Position,
    room_size: usize,
    platform_margin: usize,
    zone: Option<Tile>,
) -> (r: Result<(), GenError>)
    requires
        old(map).wf(),
        1 <= room_size <= 50,
        platform_margin >= 1,
        zone is Some ==> !spec_is_solid(zone.unwrap()),
    ensures
        final(map).wf(),
        final(map).width == old(map).width,
        final(map).height == old(map).height,
        final(map).fill_tile == old(map).fill_tile,
        final(map).chunks_x == old(map).chunks_x,
        final(map).chunks_y == old(map).chunks_y,
        final(map).dirty@.len() == old(map).dirty@.len(),
        forall|i: int|
            0 <= i < old(map).dirty@.len() && old(map).dirty@[i] ==> final(map).dirty@[i],
        match r {
            Ok(()) => {
                &&& spec_room_fits(
                    pos,
                    room_size as int,
                    old(map).width as int,
                    old(map).height as int,
                )
                &&& final(map).reserved@ == old(map).reserved@.push(
                    Rect {
                        x0: (pos.x - (room_size - 1)) as usize,
                        y0: (pos.y - (room_size - 1)) as usize,
                        x1: (pos.x + (room_size - 1)) as usize,
                        y1: (pos.y + (room_size - 1)) as usize,
                    },
                )
                &&& forall|a: int, b: int|
                    final(map).spec_in_bounds(a, b) ==> #[trigger] final(map).spec_tile(a, b)
                        == spec_room_tile(
                        old(map).spec_tile(a, b),
                        a - pos.x,
                        b - pos.y,
                        room_size as int,
                        platform_margin as int,
                        zone,
                    )
            },
            Err(e) => {
                &&& e == GenError::RoomOutOfBounds
                &&& !spec_room_fits(
                    pos,
                    room_size as int,
                    old(map).width as int,
                    old(map).height as int,
                )
                &&& final(map).tiles@ == old(map).tiles@
                &&& final(map).reserved@ == old(map).reserved@
            },
        },
{
    let r = room_size;
    if !(pos.x >= r + 1 && pos.y >= r + 1 && map.width > r + 1 && pos.x < map.width - (r + 1)
        && map.height > r + 1 && pos.y < map.height - (r + 1)) {
        return Err(GenError::RoomOutOfBounds);
    }
    let ghost g0 = *map;
    // Border of the room: empty, unconditionally.
    let _ = map.set_area_border(
        Position::new(pos.x - r, pos.y - r),
        Position::new(pos.x + r, pos.y + r),
        Tile::Empty,
        Overwrite::Force,
    );
    let ghost g1 = *map;
    // Interior: reserved, unconditionally.
    let _ = map.set_area(
        Position::new(pos.x - (r - 1), pos.y - (r - 1)),
        Position::new(pos.x + (r - 1), pos.y + (r - 1)),
        Tile::EmptyReserved,
        Overwrite::Force,
    );
    let ghost g2 = *map;
    match zone {
        Some(z) => {
            let _ = map.set_area_border(
                Position::new(pos.x - (r + 1), pos.y - (r + 1)),
                Position::new(pos.x + (r + 1), pos.y + (r + 1)),
                z,
                Overwrite::ReplaceNonSolidForce,
            );
        },
        None => {},
    }
    let ghost g2b = *map;
    match zone {
        Some(_) => {
            let _ = map.set_area_border(
                Position::new(pos.x - (r + 1), pos.y - (r + 1)),
                Position::new(pos.x + (r + 1), pos.y + (r + 1)),
                Tile::Freeze,
                Overwrite::ReplaceSolidOnly,
            );
        },
        None => {},
    }
    let ghost g3 = *map;
    let is_start = match zone {
        Some(Tile::Start) => true,
        _ => false,
    };
    let span = if platform_margin <= r {
        r - platform_margin
    } else {
        0
    };
    if is_start && platform_margin <= r {
        let _ = map.set_area(
            Position::new(pos.x - span, pos.y + (r - 1)),
            Position::new(pos.x + span, pos.y + (r - 1)),
            Tile::Spawn,
            Overwrite::Force,
        );
        let _ = map.set_area(
            Position::new(pos.x - span, pos.y + r + 1),
            Position::new(pos.x + span, pos.y + r + 1),
            Tile::Platform,
            Overwrite::Force,
        );
    }
    let ghost g4 = *map;
    let no_zone = match zone {
        Some(_) => false,
        None => true,
    };
    if no_zone && r >= 4 {
        let _ = map.set_area(
            Position::new(pos.x - 1, pos.y + (r - 3)),
            Position::new(pos.x + 1, pos.y + (r - 3)),
            Tile::Platform,
            Overwrite::Force,
        );
    }
    let ghost g5 = *map;
    map.reserve(
        Rect {
            x0: pos.x - (r - 1),
            y0: pos.y - (r - 1),
            x1: pos.x + (r - 1),
            y1: pos.y + (r - 1),
        },
    );
    proof {
        assert forall|a: int, b: int| map.spec_in_bounds(a, b) implies #[trigger] map.spec_tile(
            a,
            b,
        ) == spec_room_tile(
            g0.spec_tile(a, b),
            a - pos.x,
            b - pos.y,
            r as int,
            platform_margin as int,
            zone,
        ) by {
            // Mention each intermediate stage's cell so the layered
            // write contracts all instantiate at this cell.
            assert(g1.spec_in_bounds(a, b));
            assert(g2.spec_in_bounds(a, b));
            assert(g2b.spec_in_bounds(a, b));
            assert(g2b.spec_tile(a, b) == g2b.spec_tile(a, b));
            assert(g3.spec_in_bounds(a, b));
            assert(g4.spec_in_bounds(a, b));
            assert(g5.spec_in_bounds(a, b));
            assert(g1.spec_tile(a, b) == g1.spec_tile(a, b));
            assert(g2.spec_tile(a, b) == g2.spec_tile(a, b));
            assert(g3.spec_tile(a, b) == g3.spec_tile(a, b));
            assert(g4.spec_tile(a, b) == g4.spec_tile(a, b));
            assert(g5.spec_tile(a, b) == g5.spec_tile(a, b));
        }
    }
    Ok(())
}

/// The number of `true` entries of a boolean sequence.
pub open spec fn spec_count_true(s: Seq<bool>) -> int
    decreases s.len(),
{
    if s.len() == 0 {
        0
    } else {
        spec_count_true(s.drop_last()) + (if s.last() {
            1int
        } else {
            0int
        })
    }
}

/// Marking one unmarked entry raises the count by one.
proof fn lemma_count_true_update(s: Seq<bool>, i: int)
    requires
        0 <= i < s.len(),
        !s[i],
    ensures
        spec_count_true(s.update(i, true)) == spec_count_true(s) + 1,
    decreases s.len(),
{
    if i == s.len() - 1 {
        assert(s.update(i, true).drop_last() =~= s.drop_last());
        assert(s.update(i, true).last());
    } else {
        assert(s.update(i, true).drop_last() =~= s.drop_last().update(i, true));
        lemma_count_true_update(s.drop_last(), i);
        assert(s.update(i, true).last() == s.last());
    }
}

/// The count never exceeds the length.
proof fn lemma_count_true_le(s: Seq<bool>)
    ensures
        0 <= spec_count_true(s) <= s.len(),
    decreases s.len(),
{
    if s.len() > 0 {
        lemma_count_true_le(s.drop_last());
    }
}

/// Whether a 4-connected neighbour of `(x, y)` holds `Hookable`.
pub open spec fn spec_has_hookable_neighbor(g: MapGrid, x: int, y: int) -> bool {
    ||| (g.spec_in_bounds(x - 1, y) && g.spec_tile(x - 1, y) == Tile::Hookable)
    ||| (g.spec_in_bounds(x + 1, y) && g.spec_tile(x + 1, y) == Tile::Hookable)
    ||| (g.spec_in_bounds(x, y - 1) && g.spec_tile(x, y - 1) == Tile::Hookable)
    ||| (g.spec_in_bounds(x, y + 1) && g.spec_tile(x, y + 1) == Tile::Hookable)
}

/// Promote every `Empty` tile that touches `Hookable` 4-connectedly to
/// `Freeze`.  Afterwards no 4-connected `Empty`-`Hookable` pair remains.
pub fn fix_edge_bugs(map: &mut MapGrid)
    requires
        old(map).wf(),
    ensures
        final(map).wf(),
        MapGrid::spec_same_frame(*old(map), *final(map)),
        forall|a: int, b: int|
            final(map).spec_in_bounds(a, b) ==> #[trigger] final(map).spec_tile(a, b) == (if old(
                map,
            ).spec_tile(a, b) == Tile::Empty && spec_has_hookable_neighbor(*old(map), a, b) {
                Tile::Freeze
            } else {
                old(map).spec_tile(a, b)
            }),
        forall|a: int, b: int|
            final(map).spec_in_bounds(a, b) && #[trigger] final(map).spec_tile(a, b) == Tile::Empty
                ==> !spec_has_hookable_neighbor(*final(map), a, b),
{
    let ghost orig = *map;
    let w = map.width;
    let h = map.height;
    let mut x: usize = 0;
    while x < w
        invariant
            x <= w,
            w == map.width,
            h == map.height,
            map.wf(),
            MapGrid::spec_same_frame(orig, *map),
            forall|a: int, b: int|
                map.spec_in_bounds(a, b) ==> #[trigger] map.spec_tile(a, b) == (if a < x
                    && orig.spec_tile(a, b) == Tile::Empty && spec_has_hookable_neighbor(
                    orig,
                    a,
                    b,
                ) {
                    Tile::Freeze
                } else {
                    orig.spec_tile(a, b)
                }),
        decreases w - x,
    {
        let mut y: usize = 0;
        while y < h
            invariant
                x < w,
                y <= h,
                w == map.width,
                h == map.height,
                map.wf(),
                MapGrid::spec_same_frame(orig, *map),
                forall|a: int, b: int|
                    map.spec_in_bounds(a, b) ==> #[trigger] map.spec_tile(a, b) == (if (a < x || (a
                        == x && b < y)) && orig.spec_tile(a, b) == Tile::Empty
                        && spec_has_hookable_neighbor(orig, a, b) {
                        Tile::Freeze
                    } else {
                        orig.spec_tile(a, b)
                    }),
            decreases h - y,
        {
            let ghost before = *map;
            let cur = map.tile_at(x, y);
            if cur == Tile::Empty {
                let mut hook = false;
                if x >= 1 {
                    if map.tile_at(x - 1, y) == Tile::Hookable {
                        hook = true;
                    }
                }
                if x + 1 < w {
                    if map.tile_at(x + 1, y) == Tile::Hookable {
                        hook = true;
                    }
                }
                if y >= 1 {
                    if map.tile_at(x, y - 1) == Tile::Hookable {
                        hook = true;
                    }
                }
                if y + 1 < h {
                    if map.tile_at(x, y + 1) == Tile::Hookable {
                        hook = true;
                    }
                }
                proof {
                    assert(hook == spec_has_hookable_neighbor(orig, x as int, y as int)) by {
                        assert(before.spec_in_bounds(x as int, y as int));
                        if orig.spec_in_bounds(x - 1, y as int) {
                            assert(before.spec_in_bounds(x - 1, y as int));
                            assert((before.spec_tile(x - 1, y as int) == Tile::Hookable) == (
                            orig.spec_tile(x - 1, y as int) == Tile::Hookable));
                        }
                        if orig.spec_in_bounds(x + 1, y as int) {
                            assert(before.spec_in_bounds(x + 1, y as int));
                            assert((before.spec_tile(x + 1, y as int) == Tile::Hookable) == (
                            orig.spec_tile(x + 1, y as int) == Tile::Hookable));
                        }
                        if orig.spec_in_bounds(x as int, y - 1) {
                            assert(before.spec_in_bounds(x as int, y - 1));
                            assert((before.spec_tile(x as int, y - 1) == Tile::Hookable) == (
                            orig.spec_tile(x as int, y - 1) == Tile::Hookable));
                        }
                        if orig.spec_in_bounds(x as int, y + 1) {
                            assert(before.spec_in_bounds(x as int, y + 1));
                            assert((before.spec_tile(x as int, y + 1) == Tile::Hookable) == (
                            orig.spec_tile(x as int, y + 1) == Tile::Hookable));
                        }
                    }
                }
                if hook {
                    let _ = map.set_tile(
                        Position::new(x, y),
                        Tile::Freeze,
                        Overwrite::Force,
                    );
                }
            }
            proof {
                assert forall|a: int, b: int| map.spec_in_bounds(a, b) implies #[trigger] map.spec_tile(
                    a,
                    b,
                ) == (if (a < x || (a == x && b < y + 1)) && orig.spec_tile(a, b) == Tile::Empty
                    && spec_has_hookable_neighbor(orig, a, b) {
                    Tile::Freeze
                } else {
                    orig.spec_tile(a, b)
                }) by {
                    assert(before.spec_in_bounds(a, b));
                    if a == x && b == y {
                        assert(before.spec_tile(a, b) == orig.spec_tile(a, b));
                    } else {
                        assert(map.spec_tile(a, b) == before.spec_tile(a, b));
                    }
                }
            }
            y = y + 1;
        }
        proof {
            assert forall|a: int, b: int| map.spec_in_bounds(a, b) implies #[trigger] map.spec_tile(
                a,
                b,
            ) == (if a < x + 1 && orig.spec_tile(a, b) == Tile::Empty
                && spec_has_hookable_neighbor(orig, a, b) {
                Tile::Freeze
            } else {
                orig.spec_tile(a, b)
            }) by {
            }
        }
        x = x + 1;
    }
    proof {
        assert forall|a: int, b: int|
            map.spec_in_bounds(a, b) && #[trigger] map.spec_tile(a, b) == Tile::Empty
                implies !spec_has_hookable_neighbor(*map, a, b) by {
            assert(map.spec_tile(a, b) == orig.spec_tile(a, b));
            assert(!spec_has_hookable_neighbor(orig, a, b));
            if map.spec_in_bounds(a - 1, b) {
                assert(map.spec_tile(a - 1, b) == (if orig.spec_tile(a - 1, b) == Tile::Empty
                    && spec_has_hookable_neighbor(orig, a - 1, b) {
                    Tile::Freeze
                } else {
                    orig.spec_tile(a - 1, b)
                }));
            }
            if map.spec_in_bounds(a + 1, b) {
                assert(map.spec_tile(a + 1, b) == (if orig.spec_tile(a + 1, b) == Tile::Empty
                    && spec_has_hookable_neighbor(orig, a + 1, b) {
                    Tile::Freeze
                } else {
                    orig.spec_tile(a + 1, b)
                }));
            }
            if map.spec_in_bounds(a, b - 1) {
                assert(map.spec_tile(a, b - 1) == (if orig.spec_tile(a, b - 1) == Tile::Empty
                    && spec_has_hookable_neighbor(orig, a, b - 1) {
                    Tile::Freeze
                } else {
                    orig.spec_tile(a, b - 1)
                }));
            }
            if map.spec_in_bounds(a, b + 1) {
                assert(map.spec_tile(a, b + 1) == (if orig.spec_tile(a, b + 1) == Tile::Empty
                    && spec_has_hookable_neighbor(orig, a, b + 1) {
                    Tile::Freeze
                } else {
                    orig.spec_tile(a, b + 1)
                }));
            }
        }
    }
}

/// How the edge-bug pass transforms a grid: every `Empty` cell with a
/// `Hookable` neighbour becomes `Freeze`, every other cell is kept.
pub open spec fn spec_fix_rel(g0: MapGrid, g1: MapGrid) -> bool {
    &&& g1.wf()
    &&& MapGrid::spec_same_frame(g0, g1)
    &&& forall|a: int, b: int|
        g1.spec_in_bounds(a, b) ==> #[trigger] g1.spec_tile(a, b) == (if g0.spec_tile(a, b)
            == Tile::Empty && spec_has_hookable_neighbor(g0, a, b) {
            Tile::Freeze
        } else {
            g0.spec_tile(a, b)
        })
}

/// How a room stamp transforms a grid: the pointwise room layering plus
/// the recorded reserved interior.
pub open spec fn spec_room_rel(
    g0: MapGrid,
    g1: MapGrid,
    pos: Position,
    r: int,
    m: int,
    zone: Option<Tile>,
) -> bool {
    &&& g1.wf()
    &&& g1.width == g0.width && g1.height == g0.height && g1.fill_tile == g0.fill_tile
    &&& g1.reserved@ == g0.reserved@.push(
        Rect {
            x0: (pos.x - (r - 1)) as usize,
            y0: (pos.y - (r - 1)) as usize,
            x1: (pos.x + (r - 1)) as usize,
            y1: (pos.y + (r - 1)) as usize,
        },
    )
    &&& forall|a: int, b: int|
        g1.spec_in_bounds(a, b) ==> #[trigger] g1.spec_tile(a, b) == spec_room_tile(
            g0.spec_tile(a, b),
            a - pos.x,
            b - pos.y,
            r,
            m,
            zone,
        )
}

/// How the open-area fill transforms a grid: the pointwise fill rule.
pub open spec fn spec_fill_rel(g0: MapGrid, g1: MapGrid, maxsqr: int) -> bool {
    &&& g1.wf()
    &&& MapGrid::spec_same_frame(g0, g1)
    &&& forall|a: int, b: int|
        g1.spec_in_bounds(a, b) ==> #[trigger] g1.spec_tile(a, b) == spec_fill_tile(g0, maxsqr, a, b)
}

/// A `Freeze` cell forming its own component: no 4-connected neighbour
/// is `Freeze` or `Hookable`.
pub open spec fn spec_isolated_freeze(g: MapGrid, x: int, y: int) -> bool {
    &&& g.spec_tile(x, y) == Tile::Freeze
    &&& !(g.spec_in_bounds(x - 1, y) && (g.spec_tile(x - 1, y) == Tile::Freeze || g.spec_tile(
        x - 1,
        y,
    ) == Tile::Hookable))
    &&& !(g.spec_in_bounds(x + 1, y) && (g.spec_tile(x + 1, y) == Tile::Freeze || g.spec_tile(
        x + 1,
        y,
    ) == Tile::Hookable))
    &&& !(g.spec_in_bounds(x, y - 1) && (g.spec_tile(x, y - 1) == Tile::Freeze || g.spec_tile(
        x,
        y - 1,
    ) == Tile::Hookable))
    &&& !(g.spec_in_bounds(x, y + 1) && (g.spec_tile(x, y + 1) == Tile::Freeze || g.spec_tile(
        x,
        y + 1,
    ) == Tile::Hookable))
}

/// Every cell either kept its tile, or was a `Freeze` cell with no
/// `Hookable` neighbour and became `Empty`.
pub open spec fn spec_blob_diff(orig: MapGrid, g: MapGrid) -> bool {
    forall|a: int, b: int|
        g.spec_in_bounds(a, b) ==> #[trigger] g.spec_tile(a, b) == orig.spec_tile(a, b) || (
        orig.spec_tile(a, b) == Tile::Freeze && g.spec_tile(a, b) == Tile::Empty
            && !spec_has_hookable_neighbor(orig, a, b))
}

/// Flood-fill connected `Freeze` components; a component smaller than
/// `min_freeze_size` that touches no `Hookable` tile is rewritten to
/// `Empty`.  A zero size disables the pass.
pub fn remove_freeze_blobs(map: &mut MapGrid, min_freeze_size: usize)
    requires
        old(map).wf(),
    ensures
        final(map).wf(),
        MapGrid::spec_same_frame(*old(map), *final(map)),
        spec_blob_diff(*old(map), *final(map)),
        min_freeze_size <= 1 ==> final(map).tiles@ == old(map).tiles@,
        min_freeze_size > 1 ==> forall|a: int, b: int|
            final(map).spec_in_bounds(a, b) && spec_isolated_freeze(*old(map), a, b)
                ==> #[trigger] final(map).spec_tile(a, b) == Tile::Empty,
{
    let ghost orig = *map;
    let w = map.width;
    let h = map.height;
    proof {
        assert(w * h <= 100_000_000) by (nonlinear_arith)
            requires
                w <= 10000,
                h <= 10000,
        ;
    }
    // First pass: a freeze cell whose neighbours hold neither freeze
    // nor hookable forms its own component of size one, so any positive
    // threshold above one removes it outright.
    if min_freeze_size > 1 {
        let mut px: usize = 0;
        while px < w
            invariant
                px <= w,
                1 <= w <= 10000,
                1 <= h <= 10000,
                w == map.width,
                h == map.height,
                orig.width == w,
                orig.height == h,
                map.wf(),
                MapGrid::spec_same_frame(orig, *map),
                spec_blob_diff(orig, *map),
                forall|a: int, b: int|
                    map.spec_in_bounds(a, b) && a < px && spec_isolated_freeze(orig, a, b)
                        ==> #[trigger] map.spec_tile(a, b) == Tile::Empty,
            decreases w - px,
        {
            let mut py: usize = 0;
            while py < h
                invariant
                    px < w,
                    py <= h,
                    1 <= w <= 10000,
                    1 <= h <= 10000,
                    w == map.width,
                    h == map.height,
                    orig.width == w,
                    orig.height == h,
                    map.wf(),
                    MapGrid::spec_same_frame(orig, *map),
                    spec_blob_diff(orig, *map),
                    forall|a: int, b: int|
                        map.spec_in_bounds(a, b) && (a < px || (a == px && b < py))
                            && spec_isolated_freeze(orig, a, b) ==> #[trigger] map.spec_tile(
                            a,
                            b,
                        ) == Tile::Empty,
                decreases h - py,
            {
                let ghost before = *map;
                if map.tile_at(px, py) == Tile::Freeze {
                    let mut lone = true;
                    if px >= 1 {
                        let t = map.tile_at(px - 1, py);
                        if t == Tile::Freeze || t == Tile::Hookable {
                            lone = false;
                        }
                    }
                    if px + 1 < w {
                        let t = map.tile_at(px + 1, py);
                        if t == Tile::Freeze || t == Tile::Hookable {
                            lone = false;
                        }
                    }
                    if py >= 1 {
                        let t = map.tile_at(px, py - 1);
                        if t == Tile::Freeze || t == Tile::Hookable {
                            lone = false;
                        }
                    }
                    if py + 1 < h {
                        let t = map.tile_at(px, py + 1);
                        if t == Tile::Freeze || t == Tile::Hookable {
                            lone = false;
                        }
                    }
                    if lone {
                        let _ = map.set_tile(
                            Position::new(px, py),
                            Tile::Empty,
                            Overwrite::Force,
                        );
                    }
                }
                proof {
                    assert forall|a: int, b: int|
                        map.spec_in_bounds(a, b) && (a < px || (a == px && b < py + 1))
                            && spec_isolated_freeze(orig, a, b) implies #[trigger] map.spec_tile(
                        a,
                        b,
                    ) == Tile::Empty by {
                        assert(before.spec_in_bounds(a, b));
                        if a == px && b == py {
                        } else {
                            assert(map.spec_tile(a, b) == before.spec_tile(a, b));
                        }
                    }
                    assert forall|a: int, b: int| map.spec_in_bounds(a, b) implies #[trigger] map.spec_tile(
                        a,
                        b,
                    ) == orig.spec_tile(a, b) || (orig.spec_tile(a, b) == Tile::Freeze
                        && map.spec_tile(a, b) == Tile::Empty && !spec_has_hookable_neighbor(
                        orig,
                        a,
                        b,
                    )) by {
                        assert(before.spec_in_bounds(a, b));
                        if a == px && b == py {
                        } else {
                            assert(map.spec_tile(a, b) == before.spec_tile(a, b));
                        }
                    }
                }
                py = py + 1;
            }
            px = px + 1;
        }
    }
    let mut visited: Vec<bool> = vec![false; w * h];
    let mut x: usize = 0;
    while x < w
        invariant
            x <= w,
            1 <= w <= 10000,
            1 <= h <= 10000,
            w == map.width,
            h == map.height,
            orig.width == w,
            orig.height == h,
            map.wf(),
            MapGrid::spec_same_frame(orig, *map),
            visited@.len() == w * h,
            spec_blob_diff(orig, *map),
            min_freeze_size <= 1 ==> map.tiles@ == orig.tiles@,
            min_freeze_size > 1 ==> forall|a: int, b: int|
                map.spec_in_bounds(a, b) && spec_isolated_freeze(orig, a, b)
                    ==> #[trigger] map.spec_tile(a, b) == Tile::Empty,
        decreases w - x,
    {
        let mut y: usize = 0;
        while y < h
            invariant
                x < w,
                y <= h,
                1 <= w <= 10000,
                1 <= h <= 10000,
                w == map.width,
                h == map.height,
                orig.width == w,
                orig.height == h,
                map.wf(),
                MapGrid::spec_same_frame(orig, *map),
                visited@.len() == w * h,
                spec_blob_diff(orig, *map),
                min_freeze_size <= 1 ==> map.tiles@ == orig.tiles@,
                min_freeze_size > 1 ==> forall|a: int, b: int|
                    map.spec_in_bounds(a, b) && spec_isolated_freeze(orig, a, b)
                        ==> #[trigger] map.spec_tile(a, b) == Tile::Empty,
            decreases h - y,
        {
            proof {
                lemma_cell_index_bound(x as int, y as int, w as int, h as int);
            }
            if map.tile_at(x, y) == Tile::Freeze && !visited[x * h + y] {
                let mut stack: Vec<Position> = Vec::new();
                stack.push(Position::new(x, y));
                let mut comp: Vec<Position> = Vec::new();
                let mut adj = false;
                while stack.len() > 0
                    invariant
                        1 <= w <= 10000,
                        1 <= h <= 10000,
                        w == map.width,
                        h == map.height,
                        orig.width == w,
                        orig.height == h,
                        map.wf(),
                        MapGrid::spec_same_frame(orig, *map),
                        visited@.len() == w * h,
                        spec_blob_diff(orig, *map),
                        min_freeze_size <= 1 ==> map.tiles@ == orig.tiles@,
                        min_freeze_size > 1 ==> forall|a: int, b: int|
                            map.spec_in_bounds(a, b) && spec_isolated_freeze(orig, a, b)
                                ==> #[trigger] map.spec_tile(a, b) == Tile::Empty,
                        forall|k: int|
                            0 <= k < stack@.len() ==> (#[trigger] stack@[k]).x < w
                                && stack@[k].y < h,
                        forall|k: int|
                            0 <= k < comp@.len() ==> (#[trigger] comp@[k]).x < w && comp@[k].y
                                < h,
                        forall|k: int|
                            0 <= k < comp@.len() ==> map.spec_tile(
                                (#[trigger] comp@[k]).x as int,
                                comp@[k].y as int,
                            ) == Tile::Freeze,
                        !adj ==> forall|k: int|
                            0 <= k < comp@.len() ==> !spec_has_hookable_neighbor(
                                *map,
                                (#[trigger] comp@[k]).x as int,
                                comp@[k].y as int,
                            ),
                    decreases w * h - spec_count_true(visited@), stack@.len(),
                {
                    let c = stack.pop().unwrap();
                    proof {
                        lemma_cell_index_bound(c.x as int, c.y as int, w as int, h as int);
                        lemma_count_true_le(visited@);
                    }
                    if !visited[c.x * h + c.y] && map.tile_at(c.x, c.y) == Tile::Freeze {
                        let ghost vpre = visited@;
                        visited.set(c.x * h + c.y, true);
                        proof {
                            lemma_count_true_update(vpre, c.x as int * h + c.y);
                            lemma_count_true_le(visited@);
                        }
                        comp.push(c);
                        if c.x >= 1 {
                            let t = map.tile_at(c.x - 1, c.y);
                            if t == Tile::Hookable {
                                adj = true;
                            } else if t == Tile::Freeze {
                                stack.push(Position::new(c.x - 1, c.y));
                            }
                        }
                        if c.x + 1 < w {
                            let t = map.tile_at(c.x + 1, c.y);
                            if t == Tile::Hookable {
                                adj = true;
                            } else if t == Tile::Freeze {
                                stack.push(Position::new(c.x + 1, c.y));
                            }
                        }
                        if c.y >= 1 {
                            let t = map.tile_at(c.x, c.y - 1);
                            if t == Tile::Hookable {
                                adj = true;
                            } else if t == Tile::Freeze {
                                stack.push(Position::new(c.x, c.y - 1));
                            }
                        }
                        if c.y + 1 < h {
                            let t = map.tile_at(c.x, c.y + 1);
                            if t == Tile::Hookable {
                                adj = true;
                            } else if t == Tile::Freeze {
                                stack.push(Position::new(c.x, c.y + 1));
                            }
                        }
                        proof {
                            assert(!spec_has_hookable_neighbor(*map, c.x as int, c.y as int)
                                || adj);
                        }
                    }
                }
                if !adj && comp.len() < min_freeze_size {
                    proof {
                        assert forall|k: int| 0 <= k < comp@.len() implies orig.spec_tile(
                            (#[trigger] comp@[k]).x as int,
                            comp@[k].y as int,
                        ) == Tile::Freeze && !spec_has_hookable_neighbor(
                            orig,
                            comp@[k].x as int,
                            comp@[k].y as int,
                        ) by {
                            let p = comp@[k];
                            let a = p.x as int;
                            let b = p.y as int;
                            assert(map.spec_tile(a, b) == Tile::Freeze);
                            assert(map.spec_in_bounds(a, b));
                            assert(!spec_has_hookable_neighbor(*map, a, b));
                            if orig.spec_in_bounds(a - 1, b) {
                                assert(map.spec_in_bounds(a - 1, b));
                                assert((map.spec_tile(a - 1, b) == Tile::Hookable) == (
                                orig.spec_tile(a - 1, b) == Tile::Hookable));
                            }
                            if orig.spec_in_bounds(a + 1, b) {
                                assert(map.spec_in_bounds(a + 1, b));
                                assert((map.spec_tile(a + 1, b) == Tile::Hookable) == (
                                orig.spec_tile(a + 1, b) == Tile::Hookable));
                            }
                            if orig.spec_in_bounds(a, b - 1) {
                                assert(map.spec_in_bounds(a, b - 1));
                                assert((map.spec_tile(a, b - 1) == Tile::Hookable) == (
                                orig.spec_tile(a, b - 1) == Tile::Hookable));
                            }
                            if orig.spec_in_bounds(a, b + 1) {
                                assert(map.spec_in_bounds(a, b + 1));
                                assert((map.spec_tile(a, b + 1) == Tile::Hookable) == (
                                orig.spec_tile(a, b + 1) == Tile::Hookable));
                            }
                        }
                    }
                    let ghost comp_snap = comp@;
                    let mut k: usize = 0;
                    while k < comp.len()
                        invariant
                            k <= comp@.len(),
                            1 <= w <= 10000,
                            1 <= h <= 10000,
                            w == map.width,
                            h == map.height,
                            orig.width == w,
                            orig.height == h,
                            map.wf(),
                            MapGrid::spec_same_frame(orig, *map),
                            visited@.len() == w * h,
                            spec_blob_diff(orig, *map),
                            min_freeze_size > 0,
                            comp@.len() < min_freeze_size,
                            min_freeze_size <= 1 ==> map.tiles@ == orig.tiles@,
                            min_freeze_size > 1 ==> forall|a: int, b: int|
                                map.spec_in_bounds(a, b) && spec_isolated_freeze(orig, a, b)
                                    ==> #[trigger] map.spec_tile(a, b) == Tile::Empty,
                            comp@ == comp_snap,
                            forall|k2: int|
                                0 <= k2 < comp@.len() ==> (#[trigger] comp@[k2]).x < w
                                    && comp@[k2].y < h,
                            forall|k2: int|
                                0 <= k2 < comp@.len() ==> orig.spec_tile(
                                    (#[trigger] comp@[k2]).x as int,
                                    comp@[k2].y as int,
                                ) == Tile::Freeze && !spec_has_hookable_neighbor(
                                    orig,
                                    comp@[k2].x as int,
                                    comp@[k2].y as int,
                                ),
                        decreases comp@.len() - k,
                    {
                        let p = comp[k];
                        let ghost before = *map;
                        let _ = map.set_tile(p, Tile::Empty, Overwrite::Force);
                        proof {
                            assert forall|a: int, b: int| map.spec_in_bounds(a, b) implies #[trigger] map.spec_tile(
                                a,
                                b,
                            ) == orig.spec_tile(a, b) || (orig.spec_tile(a, b) == Tile::Freeze
                                && map.spec_tile(a, b) == Tile::Empty
                                && !spec_has_hookable_neighbor(orig, a, b)) by {
                                assert(before.spec_in_bounds(a, b));
                                if a == p.x && b == p.y {
                                    assert(map.spec_tile(a, b) == Tile::Empty);
                                } else {
                                    assert(map.spec_tile(a, b) == before.spec_tile(a, b));
                                }
                            }
                        }
                        k = k + 1;
                    }
                }
            }
            y = y + 1;
        }
        x = x + 1;
    }
}

/// The tile a cell holds after reserved-area downgrading: an
/// `EmptyReserved` outside every reserved rectangle becomes `Empty`.
pub open spec fn spec_downgraded_tile(g: MapGrid, a: int, b: int) -> Tile {
    if g.spec_tile(a, b) == Tile::EmptyReserved && !spec_in_reserved(g.reserved@, a, b) {
        Tile::Empty
    } else {
        g.spec_tile(a, b)
    }
}

/// Whether every solid tile of the grid is strictly farther than the
/// squared threshold from `(x, y)`.
pub open spec fn spec_far_from_solid(g: MapGrid, maxsqr: int, x: int, y: int) -> bool {
    forall|a: int, b: int|
        g.spec_in_bounds(a, b) && spec_is_solid(#[trigger] g.spec_tile(a, b)) ==> crate::dt::spec_sqd(
            x,
            y,
            a,
            b,
        ) > maxsqr
}

/// The tile a cell holds after the open-area fill: downgraded first,
/// then turned `Hookable` when it is `Empty` and farther than the
/// threshold from every solid tile of the grid as it stood before
/// the pass.
pub open spec fn spec_fill_tile(g: MapGrid, maxsqr: int, a: int, b: int) -> Tile {
    let t0 = spec_downgraded_tile(g, a, b);
    if t0 == Tile::Empty && spec_far_from_solid(g, maxsqr, a, b) {
        Tile::Hookable
    } else {
        t0
    }
}

/// Downgrade stray `EmptyReserved` tiles to `Empty`, then rewrite every
/// `Empty` cell farther than the squared threshold from all solid tiles
/// to `Hookable`, using the distance transform of the solidity mask.
pub fn fill_open_areas(map: &mut MapGrid, max_distance_sqr: u64)
    requires
        old(map).wf(),
        max_distance_sqr < crate::dt::DT_FAR,
    ensures
        final(map).wf(),
        MapGrid::spec_same_frame(*old(map), *final(map)),
        forall|a: int, b: int|
            final(map).spec_in_bounds(a, b) ==> #[trigger] final(map).spec_tile(a, b)
                == spec_fill_tile(*old(map), max_distance_sqr as int, a, b),
{
    let ghost orig = *map;
    let w = map.width;
    let h = map.height;
    // Downgrade reserved leftovers.
    let mut x: usize = 0;
    while x < w
        invariant
            x <= w,
            1 <= w <= 10000,
            1 <= h <= 10000,
            w == map.width,
            h == map.height,
            orig.width == w,
            orig.height == h,
            map.wf(),
            MapGrid::spec_same_frame(orig, *map),
            forall|a: int, b: int|
                map.spec_in_bounds(a, b) ==> #[trigger] map.spec_tile(a, b) == (if a < x {
                    spec_downgraded_tile(orig, a, b)
                } else {
                    orig.spec_tile(a, b)
                }),
        decreases w - x,
    {
        let mut y: usize = 0;
        while y < h
            invariant
                x < w,
                y <= h,
                1 <= w <= 10000,
                1 <= h <= 10000,
                w == map.width,
                h == map.height,
                orig.width == w,
                orig.height == h,
                map.wf(),
                MapGrid::spec_same_frame(orig, *map),
                forall|a: int, b: int|
                    map.spec_in_bounds(a, b) ==> #[trigger] map.spec_tile(a, b) == (if a < x || (a
                        == x && b < y) {
                        spec_downgraded_tile(orig, a, b)
                    } else {
                        orig.spec_tile(a, b)
                    }),
            decreases h - y,
        {
            let ghost before = *map;
            let cur = map.tile_at(x, y);
            if cur == Tile::EmptyReserved && !map.pos_reserved(x, y) {
                let _ = map.set_tile(Position::new(x, y), Tile::Empty, Overwrite::Force);
            }
            proof {
                assert forall|a: int, b: int| map.spec_in_bounds(a, b) implies #[trigger] map.spec_tile(
                    a,
                    b,
                ) == (if a < x || (a == x && b < y + 1) {
                    spec_downgraded_tile(orig, a, b)
                } else {
                    orig.spec_tile(a, b)
                }) by {
                    assert(before.spec_in_bounds(a, b));
                    if a == x && b == y {
                        assert(before.spec_tile(a, b) == orig.spec_tile(a, b));
                        assert(before.reserved@ == orig.reserved@);
                    } else {
                        assert(map.spec_tile(a, b) == before.spec_tile(a, b));
                    }
                }
            }
            y = y + 1;
        }
        proof {
            assert forall|a: int, b: int| map.spec_in_bounds(a, b) implies #[trigger] map.spec_tile(
                a,
                b,
            ) == (if a < x + 1 {
                spec_downgraded_tile(orig, a, b)
            } else {
                orig.spec_tile(a, b)
            }) by {
            }
        }
        x = x + 1;
    }
    let ghost ga = *map;
    // Solidity mask of the downgraded grid; downgrading never changes
    // solidity, so it is also the solidity mask of the incoming grid.
    let mut mask: Vec<bool> = Vec::new();
    let mut mx: usize = 0;
    while mx < w
        invariant
            mx <= w,
            1 <= w <= 10000,
            1 <= h <= 10000,
            w == map.width,
            h == map.height,
            *map == ga,
            map.wf(),
            mask@.len() == mx * h,
            forall|a: int, b: int|
                0 <= a < mx && 0 <= b < h ==> #[trigger] crate::dt::spec_mask_at(
                    mask@,
                    h as int,
                    a,
                    b,
                ) == spec_is_solid(ga.spec_tile(a, b)),
        decreases w - mx,
    {
        let mut my: usize = 0;
        while my < h
            invariant
                mx < w,
                my <= h,
                1 <= w <= 10000,
                1 <= h <= 10000,
                w == map.width,
                h == map.height,
                *map == ga,
                map.wf(),
                mask@.len() == mx * h + my,
                forall|a: int, b: int|
                    0 <= a < mx && 0 <= b < h ==> #[trigger] crate::dt::spec_mask_at(
                        mask@,
                        h as int,
                        a,
                        b,
                    ) == spec_is_solid(ga.spec_tile(a, b)),
                forall|b: int|
                    0 <= b < my ==> #[trigger] crate::dt::spec_mask_at(mask@, h as int, mx as int, b)
                        == spec_is_solid(ga.spec_tile(mx as int, b)),
            decreases h - my,
        {
            let t = map.tile_at(mx, my);
            let ghost mpre = mask@;
            mask.push(t.is_solid());
            proof {
                assert(mx * h + my + 1 <= (mx + 1) * h <= w * h) by (nonlinear_arith)
                    requires
                        mx < w,
                        my < h,
                        0 < h,
                ;
                assert(crate::dt::spec_mask_at(mask@, h as int, mx as int, my as int)
                    == spec_is_solid(ga.spec_tile(mx as int, my as int)));
                assert forall|a: int, b: int| 0 <= a < mx && 0 <= b < h implies #[trigger] crate::dt::spec_mask_at(
                    mask@,
                    h as int,
                    a,
                    b,
                ) == spec_is_solid(ga.spec_tile(a, b)) by {
                    assert(a * h + b < mx * h + my && 0 <= a * h + b) by (nonlinear_arith)
                        requires
                            0 <= a < mx,
                            0 <= b < h,
                            0 <= my,
                    ;
                    assert(crate::dt::spec_mask_at(mpre, h as int, a, b) == spec_is_solid(
                        ga.spec_tile(a, b),
                    ));
                    assert(crate::dt::spec_mask_at(mask@, h as int, a, b) == crate::dt::spec_mask_at(
                        mpre,
                        h as int,
                        a,
                        b,
                    ));
                }
                assert forall|b: int| 0 <= b < my + 1 implies #[trigger] crate::dt::spec_mask_at(
                    mask@,
                    h as int,
                    mx as int,
                    b,
                ) == spec_is_solid(ga.spec_tile(mx as int, b)) by {
                    if b < my {
                        assert(crate::dt::spec_mask_at(mpre, h as int, mx as int, b)
                            == spec_is_solid(ga.spec_tile(mx as int, b)));
                        assert(crate::dt::spec_mask_at(mask@, h as int, mx as int, b)
                            == crate::dt::spec_mask_at(mpre, h as int, mx as int, b));
                    }
                }
            }
            my = my + 1;
        }
        proof {
            assert(mx * h + h == (mx + 1) * h) by (nonlinear_arith);
        }
        mx = mx + 1;
    }
    let dtv = crate::dt::dt_sqr(&mask, w, h);
    // Fill far-out open cells back in.
    let mut fx: usize = 0;
    while fx < w
        invariant
            fx <= w,
            1 <= w <= 10000,
            1 <= h <= 10000,
            w == map.width,
            h == map.height,
            orig.width == w,
            orig.height == h,
            ga.width == w,
            ga.height == h,
            map.wf(),
            MapGrid::spec_same_frame(orig, *map),
            MapGrid::spec_same_frame(ga, *map),
            max_distance_sqr < crate::dt::DT_FAR,
            mask@.len() == w * h,
            dtv@.len() == w * h,
            forall|a: int, b: int|
                0 <= a < w && 0 <= b < h ==> #[trigger] crate::dt::spec_mask_at(
                    mask@,
                    h as int,
                    a,
                    b,
                ) == spec_is_solid(ga.spec_tile(a, b)),
            forall|a: int, b: int|
                0 <= a < w && 0 <= b < h ==> crate::dt::spec_is_min_dist(
                    mask@,
                    w as int,
                    h as int,
                    a,
                    b,
                    #[trigger] crate::dt::spec_at_u64(dtv@, h as int, a, b) as int,
                ),
            forall|a: int, b: int|
                ga.spec_in_bounds(a, b) ==> #[trigger] ga.spec_tile(a, b) == spec_downgraded_tile(
                    orig,
                    a,
                    b,
                ),
            forall|a: int, b: int|
                map.spec_in_bounds(a, b) ==> #[trigger] map.spec_tile(a, b) == (if a < fx {
                    spec_fill_tile(orig, max_distance_sqr as int, a, b)
                } else {
                    ga.spec_tile(a, b)
                }),
        decreases w - fx,
    {
        let mut fy: usize = 0;
        while fy < h
            invariant
                fx < w,
                fy <= h,
                1 <= w <= 10000,
                1 <= h <= 10000,
                w == map.width,
                h == map.height,
                orig.width == w,
                orig.height == h,
                ga.width == w,
                ga.height == h,
                map.wf(),
                MapGrid::spec_same_frame(orig, *map),
                MapGrid::spec_same_frame(ga, *map),
                max_distance_sqr < crate::dt::DT_FAR,
                mask@.len() == w * h,
                dtv@.len() == w * h,
                forall|a: int, b: int|
                    0 <= a < w && 0 <= b < h ==> #[trigger] crate::dt::spec_mask_at(
                        mask@,
                        h as int,
                        a,
                        b,
                    ) == spec_is_solid(ga.spec_tile(a, b)),
                forall|a: int, b: int|
                    0 <= a < w && 0 <= b < h ==> crate::dt::spec_is_min_dist(
                        mask@,
                        w as int,
                        h as int,
                        a,
                        b,
                        #[trigger] crate::dt::spec_at_u64(dtv@, h as int, a, b) as int,
                    ),
                forall|a: int, b: int|
                    ga.spec_in_bounds(a, b) ==> #[trigger] ga.spec_tile(a, b)
                        == spec_downgraded_tile(orig, a, b),
                forall|a: int, b: int|
                    map.spec_in_bounds(a, b) ==> #[trigger] map.spec_tile(a, b) == (if a < fx || (a
                        == fx && b < fy) {
                        spec_fill_tile(orig, max_distance_sqr as int, a, b)
                    } else {
                        ga.spec_tile(a, b)
                    }),
            decreases h - fy,
        {
            proof {
                lemma_cell_index_bound(fx as int, fy as int, w as int, h as int);
            }
            let ghost before = *map;
            let cur = map.tile_at(fx, fy);
            let v = dtv[fx * h + fy];
            proof {
                assert(v == crate::dt::spec_at_u64(dtv@, h as int, fx as int, fy as int));
                // The transform's verdict matches the quantified
                // farness predicate over the incoming grid's solids.
                let vi = v as int;
                let ms = max_distance_sqr as int;
                if vi > ms {
                    assert forall|a: int, b: int|
                        orig.spec_in_bounds(a, b) && spec_is_solid(
                            #[trigger] orig.spec_tile(a, b),
                        ) implies crate::dt::spec_sqd(fx as int, fy as int, a, b) > ms by {
                        assert(spec_is_solid(ga.spec_tile(a, b)));
                        assert(crate::dt::spec_mask_at(mask@, h as int, a, b));
                        assert(vi <= crate::dt::spec_sqd(fx as int, fy as int, a, b));
                    }
                } else {
                    assert(!spec_far_from_solid(orig, ms, fx as int, fy as int)) by {
                        assert(vi != crate::dt::DT_FAR as int);
                        let (aw, bw) = choose|a: int, b: int|
                            0 <= a < w && 0 <= b < h && #[trigger] crate::dt::spec_mask_at(
                                mask@,
                                h as int,
                                a,
                                b,
                            ) && vi == crate::dt::spec_sqd(fx as int, fy as int, a, b);
                        assert(spec_is_solid(ga.spec_tile(aw, bw)));
                        assert(spec_is_solid(orig.spec_tile(aw, bw)));
                        assert(crate::dt::spec_sqd(fx as int, fy as int, aw, bw) <= ms);
                    }
                }
            }
            if cur == Tile::Empty && v > max_distance_sqr {
                let _ = map.set_tile(Position::new(fx, fy), Tile::Hookable, Overwrite::Force);
            }
            proof {
                assert forall|a: int, b: int| map.spec_in_bounds(a, b) implies #[trigger] map.spec_tile(
                    a,
                    b,
                ) == (if a < fx || (a == fx && b < fy + 1) {
                    spec_fill_tile(orig, max_distance_sqr as int, a, b)
                } else {
                    ga.spec_tile(a, b)
                }) by {
                    assert(before.spec_in_bounds(a, b));
                    if a == fx && b == fy {
                        assert(before.spec_tile(a, b) == ga.spec_tile(a, b));
                        assert(ga.spec_tile(a, b) == spec_downgraded_tile(orig, a, b));
                    } else {
                        assert(map.spec_tile(a, b) == before.spec_tile(a, b));
                    }
                }
            }
            fy = fy + 1;
        }
        proof {
            assert forall|a: int, b: int| map.spec_in_bounds(a, b) implies #[trigger] map.spec_tile(
                a,
                b,
            ) == (if a < fx + 1 {
                spec_fill_tile(orig, max_distance_sqr as int, a, b)
            } else {
                ga.spec_tile(a, b)
            }) by {
            }
        }
        fx = fx + 1;
    }
}

/// Every cell either kept its tile, or was a solid tile that was carved
/// to `Empty` or turned into a `Freeze` frame.
pub open spec fn spec_skip_diff(orig: MapGrid, g: MapGrid) -> bool {
    forall|a: int, b: int|
        g.spec_in_bounds(a, b) ==> #[trigger] g.spec_tile(a, b) == orig.spec_tile(a, b) || (
        spec_is_solid(orig.spec_tile(a, b)) && (g.spec_tile(a, b) == Tile::Empty || g.spec_tile(
            a,
            b,
        ) == Tile::Freeze))
}

/// One single-cell write in the allowed transition set keeps the skip
/// diff intact.
proof fn lemma_skip_diff_write(orig: MapGrid, before: MapGrid, after: MapGrid, px: int, py: int)
    requires
        spec_skip_diff(orig, before),
        orig.width == before.width,
        orig.height == before.height,
        after.width == before.width,
        after.height == before.height,
        forall|a: int, b: int|
            after.spec_in_bounds(a, b) && !(a == px && b == py) ==> #[trigger] after.spec_tile(a, b)
                == before.spec_tile(a, b),
        after.spec_in_bounds(px, py) ==> (after.spec_tile(px, py) == before.spec_tile(px, py) || (
        spec_is_solid(before.spec_tile(px, py)) && (after.spec_tile(px, py) == Tile::Empty
            || after.spec_tile(px, py) == Tile::Freeze))),
    ensures
        spec_skip_diff(orig, after),
{
    assert forall|a: int, b: int| after.spec_in_bounds(a, b) implies #[trigger] after.spec_tile(
        a,
        b,
    ) == orig.spec_tile(a, b) || (spec_is_solid(orig.spec_tile(a, b)) && (after.spec_tile(a, b)
        == Tile::Empty || after.spec_tile(a, b) == Tile::Freeze)) by {
        assert(before.spec_in_bounds(a, b));
        assert(before.spec_tile(a, b) == orig.spec_tile(a, b) || (spec_is_solid(
            orig.spec_tile(a, b),
        ) && (before.spec_tile(a, b) == Tile::Empty || before.spec_tile(a, b) == Tile::Freeze)));
    }
}

/// A tile a skip corridor may drill through: the wall itself or its
/// freeze shoulder.
pub open spec fn spec_wall_tile(t: Tile) -> bool {
    t == Tile::Hookable || t == Tile::Freeze
}

/// A horizontal skip candidate: a run of `len` wall tiles starting at
/// `(x, y)` whose left and right ends touch `Empty`, with both frame
/// rows on the grid.
pub open spec fn spec_h_candidate(g: MapGrid, x: int, y: int, len: int) -> bool {
    &&& 1 <= x
    &&& 1 <= y
    &&& y + 1 < g.height
    &&& 1 <= len
    &&& x + len < g.width
    &&& g.spec_tile(x - 1, y) == Tile::Empty
    &&& g.spec_tile(x + len, y) == Tile::Empty
    &&& forall|a: int| x <= a < x + len ==> spec_wall_tile(#[trigger] g.spec_tile(a, y))
}

/// A vertical skip candidate, the transpose of the horizontal one.
pub open spec fn spec_v_candidate(g: MapGrid, x: int, y: int, len: int) -> bool {
    &&& 1 <= y
    &&& 1 <= x
    &&& x + 1 < g.width
    &&& 1 <= len
    &&& y + len < g.height
    &&& g.spec_tile(x, y - 1) == Tile::Empty
    &&& g.spec_tile(x, y + len) == Tile::Empty
    &&& forall|b: int| y <= b < y + len ==> spec_wall_tile(#[trigger] g.spec_tile(x, b))
}

/// The skip diff composes: drilling further only turns solid cells of
/// the first grid into `Empty` or `Freeze`.
pub proof fn lemma_skip_diff_trans(g0: MapGrid, g1: MapGrid, g2: MapGrid)
    requires
        spec_skip_diff(g0, g1),
        spec_skip_diff(g1, g2),
        g1.width == g0.width,
        g1.height == g0.height,
        g2.width == g0.width,
        g2.height == g0.height,
    ensures
        spec_skip_diff(g0, g2),
{
    assert forall|a: int, b: int| g2.spec_in_bounds(a, b) implies #[trigger] g2.spec_tile(a, b)
        == g0.spec_tile(a, b) || (spec_is_solid(g0.spec_tile(a, b)) && (g2.spec_tile(a, b)
        == Tile::Empty || g2.spec_tile(a, b) == Tile::Freeze)) by {
        assert(g1.spec_in_bounds(a, b));
        assert(g1.spec_tile(a, b) == g0.spec_tile(a, b) || (spec_is_solid(g0.spec_tile(a, b)) && (
        g1.spec_tile(a, b) == Tile::Empty || g1.spec_tile(a, b) == Tile::Freeze)));
    }
}

/// Try the horizontal skip candidate starting at `(x, y)`: measure the
/// wall run, check its ends and the spacing, and carve and frame it
/// when accepted.  When nothing was accepted before or after the call,
/// no horizontal candidate of an allowed length starts at this cell.
#[verifier::rlimit(100)]
fn try_skip_horizontal(
    map: &mut MapGrid,
    accepted: &mut Vec<(u64, u64)>,
    x: usize,
    y: usize,
    min_len: usize,
    max_len: usize,
    min_spacing_sqr: u64,
) -> (pushed: bool)
    requires
        old(map).wf(),
        x < old(map).width,
        y < old(map).height,
        1 <= min_len,
        max_len <= 10000,
        min_spacing_sqr <= 0x3FFF_FFFF_FFFF_FFFF,
        forall|k: int|
            0 <= k < old(accepted)@.len() ==> (#[trigger] old(accepted)@[k]).0 <= 60000 && old(
                accepted,
            )@[k].1 <= 60000,
    ensures
        final(map).wf(),
        MapGrid::spec_same_frame(*old(map), *final(map)),
        spec_skip_diff(*old(map), *final(map)),
        final(accepted)@.len() == old(accepted)@.len() + (if pushed {
            1int
        } else {
            0int
        }),
        forall|k: int|
            0 <= k < final(accepted)@.len() ==> (#[trigger] final(accepted)@[k]).0 <= 60000
                && final(accepted)@[k].1 <= 60000,
        !pushed ==> final(map).tiles@ == old(map).tiles@,
        min_len > max_len ==> !pushed,
        (!pushed && old(accepted)@.len() == 0) ==> forall|l: int|
            min_len <= l <= max_len ==> !spec_h_candidate(*old(map), x as int, y as int, l),
{
    let w = map.width;
    let h = map.height;
    if max_len < 1 {
        return false;
    }
    if !(x >= 1 && y >= 1 && y + 1 < h) {
        return false;
    }
    let t0 = map.tile_at(x, y);
    if !(map.tile_at(x - 1, y) == Tile::Empty && (t0 == Tile::Hookable || t0 == Tile::Freeze)) {
        proof {
            assert forall|l: int| min_len <= l <= max_len implies !spec_h_candidate(
                *map,
                x as int,
                y as int,
                l,
            ) by {
                if spec_h_candidate(*map, x as int, y as int, l) {
                    assert(spec_wall_tile(map.spec_tile(x as int, y as int)));
                    assert(map.spec_tile(x - 1, y as int) == Tile::Empty);
                }
            }
        }
        return false;
    }
    let mut len: usize = 1;
    while x + len < w && len < max_len && (map.tile_at(x + len, y) == Tile::Hookable || map.tile_at(
        x + len,
        y,
    ) == Tile::Freeze)
        invariant
            1 <= len <= max_len,
            max_len <= 10000,
            x < w,
            y < h,
            x + len <= w,
            1 <= w <= 10000,
            1 <= h <= 10000,
            w == map.width,
            h == map.height,
            map.wf(),
            forall|a: int|
                x <= a < x + len ==> spec_wall_tile(#[trigger] map.spec_tile(a, y as int)),
        decreases max_len - len,
    {
        len = len + 1;
    }
    proof {
        // A candidate of some allowed length would have this exact run
        // length: shorter contradicts the loop guard, longer puts an
        // empty end inside the wall prefix.
        assert forall|l: int|
            min_len <= l <= max_len && spec_h_candidate(*map, x as int, y as int, l) implies l
            == len by {
            if l < len {
                assert(spec_wall_tile(map.spec_tile(x + l, y as int)));
                assert(map.spec_tile(x + l, y as int) == Tile::Empty);
            } else if l > len {
                assert(x + len < w && len < max_len ==> !spec_wall_tile(
                    map.spec_tile(x + len, y as int),
                ));
                assert(spec_wall_tile(map.spec_tile(x + len, y as int)));
            }
        }
    }
    if !(len >= min_len && x + len < w && map.tile_at(x + len, y) == Tile::Empty) {
        return false;
    }
    let midx: u64 = (2 * x + len - 1) as u64;
    let midy: u64 = (2 * y) as u64;
    let ok = spacing_ok(&accepted, midx, midy, min_spacing_sqr);
    if !ok {
        return false;
    }
    accepted.push((midx, midy));
    let ghost orig = *map;
    let mut k: usize = 0;
    while k < len
        invariant
            k <= len,
            1 <= len,
            x < w,
            1 <= y,
            y + 1 < h,
            x + len < w,
            1 <= w <= 10000,
            1 <= h <= 10000,
            w == map.width,
            h == map.height,
            orig.width == w,
            orig.height == h,
            map.wf(),
            MapGrid::spec_same_frame(orig, *map),
            spec_skip_diff(orig, *map),
            forall|a: int|
                x + k <= a < x + len ==> spec_wall_tile(#[trigger] map.spec_tile(a, y as int)),
        decreases len - k,
    {
        let ghost b0 = *map;
        let _ = map.set_tile(Position::new(x + k, y), Tile::Empty, Overwrite::Force);
        proof {
            lemma_skip_diff_write(orig, b0, *map, x + k, y as int);
        }
        let ghost b1 = *map;
        let _ = map.set_tile(Position::new(x + k, y - 1), Tile::Freeze, Overwrite::ReplaceSolidOnly);
        proof {
            lemma_skip_diff_write(orig, b1, *map, x + k, y - 1);
        }
        let ghost b2 = *map;
        let _ = map.set_tile(Position::new(x + k, y + 1), Tile::Freeze, Overwrite::ReplaceSolidOnly);
        proof {
            lemma_skip_diff_write(orig, b2, *map, x + k, y + 1);
            assert forall|a: int|
                x + k + 1 <= a < x + len implies spec_wall_tile(#[trigger] map.spec_tile(
                a,
                y as int,
            )) by {
                assert(spec_wall_tile(b0.spec_tile(a, y as int)));
                assert(b1.spec_tile(a, y as int) == b0.spec_tile(a, y as int));
                assert(b2.spec_tile(a, y as int) == b1.spec_tile(a, y as int));
            }
        }
        k = k + 1;
    }
    true
}

/// Try the vertical skip candidate starting at `(x, y)`; the transpose
/// of the horizontal case.
#[verifier::rlimit(100)]
fn try_skip_vertical(
    map: &mut MapGrid,
    accepted: &mut Vec<(u64, u64)>,
    x: usize,
    y: usize,
    min_len: usize,
    max_len: usize,
    min_spacing_sqr: u64,
) -> (pushed: bool)
    requires
        old(map).wf(),
        x < old(map).width,
        y < old(map).height,
        1 <= min_len,
        max_len <= 10000,
        min_spacing_sqr <= 0x3FFF_FFFF_FFFF_FFFF,
        forall|k: int|
            0 <= k < old(accepted)@.len() ==> (#[trigger] old(accepted)@[k]).0 <= 60000 && old(
                accepted,
            )@[k].1 <= 60000,
    ensures
        final(map).wf(),
        MapGrid::spec_same_frame(*old(map), *final(map)),
        spec_skip_diff(*old(map), *final(map)),
        final(accepted)@.len() == old(accepted)@.len() + (if pushed {
            1int
        } else {
            0int
        }),
        forall|k: int|
            0 <= k < final(accepted)@.len() ==> (#[trigger] final(accepted)@[k]).0 <= 60000
                && final(accepted)@[k].1 <= 60000,
        !pushed ==> final(map).tiles@ == old(map).tiles@,
        min_len > max_len ==> !pushed,
        (!pushed && old(accepted)@.len() == 0) ==> forall|l: int|
            min_len <= l <= max_len ==> !spec_v_candidate(*old(map), x as int, y as int, l),
{
    let w = map.width;
    let h = map.height;
    if max_len < 1 {
        return false;
    }
    if !(y >= 1 && x >= 1 && x + 1 < w) {
        return false;
    }
    let t0 = map.tile_at(x, y);
    if !(map.tile_at(x, y - 1) == Tile::Empty && (t0 == Tile::Hookable || t0 == Tile::Freeze)) {
        proof {
            assert forall|l: int| min_len <= l <= max_len implies !spec_v_candidate(
                *map,
                x as int,
                y as int,
                l,
            ) by {
                if spec_v_candidate(*map, x as int, y as int, l) {
                    assert(spec_wall_tile(map.spec_tile(x as int, y as int)));
                    assert(map.spec_tile(x as int, y - 1) == Tile::Empty);
                }
            }
        }
        return false;
    }
    let mut len: usize = 1;
    while y + len < h && len < max_len && (map.tile_at(x, y + len) == Tile::Hookable || map.tile_at(
        x,
        y + len,
    ) == Tile::Freeze)
        invariant
            1 <= len <= max_len,
            max_len <= 10000,
            x < w,
            y < h,
            y + len <= h,
            1 <= w <= 10000,
            1 <= h <= 10000,
            w == map.width,
            h == map.height,
            map.wf(),
            forall|b: int|
                y <= b < y + len ==> spec_wall_tile(#[trigger] map.spec_tile(x as int, b)),
        decreases max_len - len,
    {
        len = len + 1;
    }
    proof {
        assert forall|l: int|
            min_len <= l <= max_len && spec_v_candidate(*map, x as int, y as int, l) implies l
            == len by {
            if l < len {
                assert(spec_wall_tile(map.spec_tile(x as int, y + l)));
                assert(map.spec_tile(x as int, y + l) == Tile::Empty);
            } else if l > len {
                assert(y + len < h && len < max_len ==> !spec_wall_tile(
                    map.spec_tile(x as int, y + len),
                ));
                assert(spec_wall_tile(map.spec_tile(x as int, y + len)));
            }
        }
    }
    if !(len >= min_len && y + len < h && map.tile_at(x, y + len) == Tile::Empty) {
        return false;
    }
    let midx: u64 = (2 * x) as u64;
    let midy: u64 = (2 * y + len - 1) as u64;
    let ok = spacing_ok(&accepted, midx, midy, min_spacing_sqr);
    if !ok {
        return false;
    }
    accepted.push((midx, midy));
    let ghost orig = *map;
    let mut k: usize = 0;
    while k < len
        invariant
            k <= len,
            1 <= len,
            y < h,
            1 <= x,
            x + 1 < w,
            y + len < h,
            1 <= w <= 10000,
            1 <= h <= 10000,
            w == map.width,
            h == map.height,
            orig.width == w,
            orig.height == h,
            map.wf(),
            MapGrid::spec_same_frame(orig, *map),
            spec_skip_diff(orig, *map),
            forall|b: int|
                y + k <= b < y + len ==> spec_wall_tile(#[trigger] map.spec_tile(x as int, b)),
        decreases len - k,
    {
        let ghost b0 = *map;
        let _ = map.set_tile(Position::new(x, y + k), Tile::Empty, Overwrite::Force);
        proof {
            lemma_skip_diff_write(orig, b0, *map, x as int, y + k);
        }
        let ghost b1 = *map;
        let _ = map.set_tile(Position::new(x - 1, y + k), Tile::Freeze, Overwrite::ReplaceSolidOnly);
        proof {
            lemma_skip_diff_write(orig, b1, *map, x - 1, y + k);
        }
        let ghost b2 = *map;
        let _ = map.set_tile(Position::new(x + 1, y + k), Tile::Freeze, Overwrite::ReplaceSolidOnly);
        proof {
            lemma_skip_diff_write(orig, b2, *map, x + 1, y + k);
            assert forall|b: int|
                y + k + 1 <= b < y + len implies spec_wall_tile(#[trigger] map.spec_tile(
                x as int,
                b,
            )) by {
                assert(spec_wall_tile(b0.spec_tile(x as int, b)));
                assert(b1.spec_tile(x as int, b) == b0.spec_tile(x as int, b));
                assert(b2.spec_tile(x as int, b) == b1.spec_tile(x as int, b));
            }
        }
        k = k + 1;
    }
    true
}

/// Detect and carve shortcut passages: short straight solid walls
/// (`Hookable`, with their `Freeze` shoulders) whose two ends touch
/// `Empty`.  Candidates are accepted greedily in scan order; one whose
/// midpoint lies within the squared spacing of an already accepted skip
/// is rejected.  An accepted skip is carved to `Empty` and framed with
/// `Freeze` on both sides.  Returns the number of accepted skips: zero
/// leaves the grid untouched, and zero is returned only when the
/// incoming grid held no candidate of an allowed length.
pub fn generate_all_skips(
    map: &mut MapGrid,
    min_len: usize,
    max_len: usize,
    min_spacing_sqr: u64,
) -> (count: usize)
    requires
        old(map).wf(),
        1 <= min_len,
        max_len <= 10000,
        min_spacing_sqr <= 0x3FFF_FFFF_FFFF_FFFF,
    ensures
        final(map).wf(),
        MapGrid::spec_same_frame(*old(map), *final(map)),
        spec_skip_diff(*old(map), *final(map)),
        count == 0 ==> final(map).tiles@ == old(map).tiles@,
        min_len > max_len ==> count == 0,
        (exists|xx: int, yy: int, l: int|
            #![trigger spec_h_candidate(*old(map), xx, yy, l)]
            #![trigger spec_v_candidate(*old(map), xx, yy, l)]
            min_len <= l <= max_len && (spec_h_candidate(*old(map), xx, yy, l)
                || spec_v_candidate(*old(map), xx, yy, l))) ==> count >= 1,
{
    let ghost orig = *map;
    let w = map.width;
    let h = map.height;
    let mut accepted: Vec<(u64, u64)> = Vec::new();
    let mut x: usize = 0;
    while x < w
        invariant
            x <= w,
            1 <= w <= 10000,
            1 <= h <= 10000,
            w == map.width,
            h == map.height,
            orig.width == w,
            orig.height == h,
            map.wf(),
            MapGrid::spec_same_frame(orig, *map),
            spec_skip_diff(orig, *map),
            1 <= min_len,
            max_len <= 10000,
            min_spacing_sqr <= 0x3FFF_FFFF_FFFF_FFFF,
            forall|k: int|
                0 <= k < accepted@.len() ==> (#[trigger] accepted@[k]).0 <= 60000
                    && accepted@[k].1 <= 60000,
            accepted@.len() == 0 ==> map.tiles@ == orig.tiles@,
            min_len > max_len ==> accepted@.len() == 0,
            accepted@.len() == 0 ==> forall|a: int, b: int, l: int|
                #![trigger spec_h_candidate(orig, a, b, l)]
                #![trigger spec_v_candidate(orig, a, b, l)]
                0 <= a < x && 0 <= b < h && min_len <= l <= max_len ==> !spec_h_candidate(
                    orig,
                    a,
                    b,
                    l,
                ) && !spec_v_candidate(orig, a, b, l),
        decreases w - x,
    {
        let mut y: usize = 0;
        while y < h
            invariant
                x < w,
                y <= h,
                1 <= w <= 10000,
                1 <= h <= 10000,
                w == map.width,
                h == map.height,
                orig.width == w,
                orig.height == h,
                map.wf(),
                MapGrid::spec_same_frame(orig, *map),
                spec_skip_diff(orig, *map),
                1 <= min_len,
                max_len <= 10000,
                min_spacing_sqr <= 0x3FFF_FFFF_FFFF_FFFF,
                forall|k: int|
                    0 <= k < accepted@.len() ==> (#[trigger] accepted@[k]).0 <= 60000
                        && accepted@[k].1 <= 60000,
                accepted@.len() == 0 ==> map.tiles@ == orig.tiles@,
                min_len > max_len ==> accepted@.len() == 0,
                accepted@.len() == 0 ==> forall|a: int, b: int, l: int|
                    #![trigger spec_h_candidate(orig, a, b, l)]
                    #![trigger spec_v_candidate(orig, a, b, l)]
                    (a < x || (a == x && b < y)) && 0 <= a && 0 <= b < h && min_len <= l <= max_len
                        ==> !spec_h_candidate(orig, a, b, l) && !spec_v_candidate(orig, a, b, l),
            decreases h - y,
        {
            let ghost m_before = *map;
            let ghost acc_len_before = accepted@.len();
            let ph = try_skip_horizontal(map, &mut accepted, x, y, min_len, max_len, min_spacing_sqr);
            let ghost m_mid = *map;
            let pv = try_skip_vertical(map, &mut accepted, x, y, min_len, max_len, min_spacing_sqr);
            proof {
                lemma_skip_diff_trans(m_before, m_mid, *map);
                lemma_skip_diff_trans(orig, m_before, *map);
                if accepted@.len() == 0 {
                    // Neither call accepted anything: the helpers refute
                    // every candidate of an allowed length at this cell,
                    // over the untouched grid.
                    assert(acc_len_before == 0);
                    assert(!ph && !pv);
                    assert(m_before.tiles@ == orig.tiles@);
                    assert forall|l: int|
                        min_len <= l <= max_len implies !spec_h_candidate(orig, x as int, y as int, l)
                            && !spec_v_candidate(orig, x as int, y as int, l) by {
                        assert(!spec_h_candidate(m_before, x as int, y as int, l));
                        assert(!spec_v_candidate(m_mid, x as int, y as int, l));
                        assert(m_mid.tiles@ == orig.tiles@);
                        if spec_h_candidate(orig, x as int, y as int, l) {
                            assert(spec_h_candidate(m_before, x as int, y as int, l));
                        }
                        if spec_v_candidate(orig, x as int, y as int, l) {
                            assert(spec_v_candidate(m_mid, x as int, y as int, l));
                        }
                    }
                }
            }
            y = y + 1;
        }
        x = x + 1;
    }
    proof {
        if accepted@.len() == 0 {
            assert forall|xx: int, yy: int, l: int|
                min_len <= l <= max_len implies !spec_h_candidate(orig, xx, yy, l)
                    && !spec_v_candidate(orig, xx, yy, l) by {
                if 0 <= xx < w && 0 <= yy < h {
                } else {
                }
            }
        }
    }
    accepted.len()
}

/// Whether a midpoint (in doubled coordinates) keeps the required
/// squared spacing to every already accepted midpoint.
fn spacing_ok(accepted: &Vec<(u64, u64)>, midx: u64, midy: u64, min_spacing_sqr: u64) -> (r: bool)
    requires
        midx <= 60000,
        midy <= 60000,
        min_spacing_sqr <= 0x3FFF_FFFF_FFFF_FFFF,
        forall|k: int|
            0 <= k < accepted@.len() ==> (#[trigger] accepted@[k]).0 <= 60000 && accepted@[k].1
                <= 60000,
    ensures
        accepted@.len() == 0 ==> r,
{
    let n = accepted.len();
    let mut i: usize = 0;
    let mut ok = true;
    while i < n
        invariant
            i <= n,
            n == accepted@.len(),
            midx <= 60000,
            midy <= 60000,
            min_spacing_sqr <= 0x3FFF_FFFF_FFFF_FFFF,
            forall|k: int|
                0 <= k < accepted@.len() ==> (#[trigger] accepted@[k]).0 <= 60000 && accepted@[k].1
                    <= 60000,
            accepted@.len() == 0 ==> ok,
        decreases n - i,
    {
        let (ax, ay) = accepted[i];
        let dx: u64 = if midx >= ax {
            midx - ax
        } else {
            ax - midx
        };
        let dy: u64 = if midy >= ay {
            midy - ay
        } else {
            ay - midy
        };
        proof {
            assert(dx * dx <= 3_600_000_000u64 && dy * dy <= 3_600_000_000u64) by (nonlinear_arith)
                requires
                    dx <= 60000,
                    dy <= 60000,
            ;
        }
        let d2: u64 = dx * dx + dy * dy;
        if d2 < 4 * min_spacing_sqr {
            ok = false;
        }
        i = i + 1;
    }
    ok
}

} // verus!
