//! The viewport tile spawner: once per tick it derives the tile size from
//! the window, sweeps the camera-relative window of candidate coordinates,
//! and spawns a tile for every visible, in-bounds board coordinate that is
//! not yet cached.

use vstd::prelude::*;

use crate::BOARD_SIZE;
use crate::VISIBLE_TILES;
use crate::tiles::ImageHandle;
use crate::tiles::TileArena;
use crate::tiles::TileGrid;
use crate::tiles::TileId;
use crate::tiles::TileSprite;
use crate::tiles::lemma_pack_coord_injective;
use crate::tiles::pack_coord;

verus! {

/// Half-width of the sweep: how far the swept window of candidate
/// coordinates extends from its centre along each axis.
pub open spec fn half_sweep() -> int {
    VISIBLE_TILES as int / 2
}

/// Offset from camera-relative to board coordinates: camera-relative
/// `(0, 0)` names the board's centre cell.
pub open spec fn board_off() -> int {
    BOARD_SIZE as int / 2
}

/// Camera-relative coordinates examined by one tick of the sweep.
pub open spec fn in_sweep(x: int, y: int) -> bool {
    &&& -half_sweep() <= x <= half_sweep()
    &&& -half_sweep() <= y <= half_sweep()
}

/// Board coordinates that actually index the board.
pub open spec fn in_board(gx: int, gy: int) -> bool {
    &&& 0 <= gx < BOARD_SIZE
    &&& 0 <= gy < BOARD_SIZE
}

/// The tile size, in subpixels (`VISIBLE_TILES` subpixels to the pixel):
/// the shorter window dimension. In pixels this is
/// `min(width, height) / VISIBLE_TILES`, an exact rational; keeping it
/// scaled by the denominator keeps it an integer.
pub open spec fn spec_tile_size(window_width: int, window_height: int) -> int {
    if window_width <= window_height {
        window_width
    } else {
        window_height
    }
}

/// Derive the tile size from the window, afresh on every tick.
pub fn tile_size(window_width: u32, window_height: u32) -> (size: u32)
    ensures
        size == spec_tile_size(window_width as int, window_height as int),
{
    if window_width <= window_height {
        window_width
    } else {
        window_height
    }
}

/// The cache keys of every in-board coordinate. The sweep reaches all of
/// them: a board coordinate `g` corresponds to camera-relative
/// `g - board_off()`, which lies well inside the swept window.
pub open spec fn board_keys() -> Set<u64> {
    Set::new(
        |k: u64|
            exists|gx: i32, gy: i32|
                in_board(gx as int, gy as int) && k == #[trigger] pack_coord(gx, gy),
    )
}

/// The sprite spawned for camera-relative coordinate `(x, y)` under tile
/// size `size`: a square of that size at world position `(x, y)` scaled by
/// the tile size, textured with the empty-tile image.
pub open spec fn sprite_at(x: int, y: int, size: int, texture: ImageHandle) -> TileSprite {
    TileSprite {
        world_x: (x * size) as i64,
        world_y: (y * size) as i64,
        size: size as u32,
        texture,
    }
}

/// Every cached handle points into the arena, and no two coordinates share
/// a handle: one cache entry, one spawned tile.
pub open spec fn grid_backed_by(g: Map<u64, TileId>, a: Seq<TileSprite>) -> bool {
    &&& forall|k: u64| #[trigger] g.contains_key(k) ==> g[k].index < a.len()
    &&& forall|k1: u64, k2: u64| #![trigger g[k1], g[k2]]
        g.contains_key(k1) && g.contains_key(k2) && k1 != k2 ==> g[k1] != g[k2]
}

/// Everything one spawner tick does, relating the cache and the arena
/// before (`g0`, `a0`) and after (`g1`, `a1`):
/// afterwards every in-board coordinate is cached; no key outside the board
/// ever appears; entries present before keep their handles; sprites present
/// before are untouched; exactly one sprite is appended per new entry; and
/// each new entry's sprite sits at the coordinate's world position with the
/// tick's tile size and texture.
pub open spec fn tick_rel(
    g0: Map<u64, TileId>,
    a0: Seq<TileSprite>,
    g1: Map<u64, TileId>,
    a1: Seq<TileSprite>,
    window_width: u32,
    window_height: u32,
    texture: ImageHandle,
) -> bool {
    let size = spec_tile_size(window_width as int, window_height as int);
    &&& forall|gx: i32, gy: i32|
        in_board(gx as int, gy as int) ==> g1.contains_key(#[trigger] pack_coord(gx, gy))
    &&& forall|k: u64| #[trigger] g1.contains_key(k) ==> g0.contains_key(k) || board_keys().contains(k)
    &&& forall|k: u64| #[trigger] g0.contains_key(k) ==> g1.contains_key(k) && g1[k] == g0[k]
    &&& a0.is_prefix_of(a1)
    &&& a1.len() == a0.len() + g1.len() - g0.len()
    &&& forall|gx: i32, gy: i32|
        in_board(gx as int, gy as int) && !g0.contains_key(#[trigger] pack_coord(gx, gy)) ==> ({
            let id = g1[pack_coord(gx, gy)];
            &&& a0.len() <= id.index < a1.len()
            &&& a1[id.index as int] == sprite_at(
                gx - board_off(),
                gy - board_off(),
                size,
                texture,
            )
        })
}

/// One tick of the viewport tile spawner.
///
/// Sweeps the fixed window of camera-relative coordinates, maps each onto
/// the board, and spawns a tile for every in-bounds coordinate the cache
/// does not hold yet. The camera position is accepted because the design
/// reads it at every tick, but it does not offset the sweep: the swept
/// window stays centred over the board's centre wherever the camera is, a
/// deliberate property that the contract pins down.
#[verifier::loop_isolation(false)]
pub fn spawn_visible_tiles(
    grid: &mut TileGrid,
    arena: &mut TileArena,
    _camera_x: i64,
    _camera_y: i64,
    window_width: u32,
    window_height: u32,
    texture: ImageHandle,
)
    requires
        grid_backed_by(old(grid)@, old(arena).tiles@),
    ensures
        tick_rel(
            old(grid)@,
            old(arena).tiles@,
            final(grid)@,
            final(arena).tiles@,
            window_width,
            window_height,
            texture,
        ),
        grid_backed_by(final(grid)@, final(arena).tiles@),
{
    let ghost g0 = grid@;
    let ghost a0 = arena.tiles@;
    proof {
        vstd::std_specs::hash::axiom_hashmap_view_finite_dom(grid.tiles);
    }

    let size = tile_size(window_width, window_height);
    let half: i32 = VISIBLE_TILES / 2;
    let off: i32 = (BOARD_SIZE as i32) / 2;
    assert(half as int == half_sweep());
    assert(off as int == board_off());

    let mut y: i32 = -half;
    while y <= half
        invariant
            -half_sweep() <= y as int <= half_sweep() + 1,
            grid@.dom().finite(),
            grid_backed_by(grid@, arena.tiles@),
            a0.is_prefix_of(arena.tiles@),
            arena.tiles@.len() == a0.len() + grid@.len() - g0.len(),
            forall|k: u64| #[trigger] g0.contains_key(k) ==> grid@.contains_key(k) && grid@[k] == g0[k],
            forall|k: u64| #[trigger] grid@.contains_key(k) ==> g0.contains_key(k)
                || board_keys().contains(k),
            forall|gx: i32, gy: i32|
                in_board(gx as int, gy as int) && (gy as int) < y as int + board_off()
                    ==> grid@.contains_key(#[trigger] pack_coord(gx, gy)),
            forall|gx: i32, gy: i32|
                in_board(gx as int, gy as int) && grid@.contains_key(
                    #[trigger] pack_coord(gx, gy),
                ) && !g0.contains_key(pack_coord(gx, gy)) ==> ({
                    let id = grid@[pack_coord(gx, gy)];
                    &&& a0.len() <= id.index < arena.tiles@.len()
                    &&& arena.tiles@[id.index as int] == sprite_at(
                        gx - board_off(),
                        gy - board_off(),
                        size as int,
                        texture,
                    )
                }),
        decreases half_sweep() + 1 - y,
    {
        let mut x: i32 = -half;
        while x <= half
            invariant
                -half_sweep() <= x as int <= half_sweep() + 1,
                -half_sweep() <= y as int <= half_sweep(),
                grid@.dom().finite(),
                grid_backed_by(grid@, arena.tiles@),
                a0.is_prefix_of(arena.tiles@),
                arena.tiles@.len() == a0.len() + grid@.len() - g0.len(),
                forall|k: u64| #[trigger] g0.contains_key(k) ==> grid@.contains_key(k) && grid@[k]
                    == g0[k],
                forall|k: u64| #[trigger] grid@.contains_key(k) ==> g0.contains_key(k)
                    || board_keys().contains(k),
                forall|gx: i32, gy: i32|
                    in_board(gx as int, gy as int) && ((gy as int) < y as int + board_off() || (
                    (gy as int) == y as int + board_off() && (gx as int) < x as int
                        + board_off())) ==> grid@.contains_key(#[trigger] pack_coord(gx, gy)),
                forall|gx: i32, gy: i32|
                    in_board(gx as int, gy as int) && grid@.contains_key(
                        #[trigger] pack_coord(gx, gy),
                    ) && !g0.contains_key(pack_coord(gx, gy)) ==> ({
                        let id = grid@[pack_coord(gx, gy)];
                        &&& a0.len() <= id.index < arena.tiles@.len()
                        &&& arena.tiles@[id.index as int] == sprite_at(
                            gx - board_off(),
                            gy - board_off(),
                            size as int,
                            texture,
                        )
                    }),
            decreases half_sweep() + 1 - x,
        {
            let gx: i32 = x + off;
            let gy: i32 = y + off;

            if 0 <= gx && gx < BOARD_SIZE as i32 && 0 <= gy && gy < BOARD_SIZE as i32 {
                if !grid.contains(gx, gy) {
                    proof {
                        assert(-0x7_FFFF_FFF8 <= (x as int) * (size as int)
                            <= 0x7_FFFF_FFF8) by (nonlinear_arith)
                            requires
                                -8 <= x as int <= 8,
                                0 <= size as int,
                                (size as int) < 0x1_0000_0000;
                        assert(-0x7_FFFF_FFF8 <= (y as int) * (size as int)
                            <= 0x7_FFFF_FFF8) by (nonlinear_arith)
                            requires
                                -8 <= y as int <= 8,
                                0 <= size as int,
                                (size as int) < 0x1_0000_0000;
                    }
                    let world_x: i64 = (x as i64) * (size as i64);
                    let world_y: i64 = (y as i64) * (size as i64);
                    let sprite = TileSprite { world_x, world_y, size, texture };
                    assert(sprite == sprite_at(x as int, y as int, size as int, texture));

                    let ghost gpre = grid@;
                    let id = arena.spawn(sprite);
                    grid.insert(gx, gy, id);

                    proof {
                        let key = pack_coord(gx, gy);
                        assert(grid@.dom() =~= gpre.dom().insert(key));
                        assert(grid@.len() == gpre.len() + 1);
                        assert(board_keys().contains(key)) by {
                            assert(in_board(gx as int, gy as int) && key == pack_coord(gx, gy));
                        }
                        assert forall|a: i32, b: i32|
                            in_board(a as int, b as int) && grid@.contains_key(
                                #[trigger] pack_coord(a, b),
                            ) && !g0.contains_key(pack_coord(a, b)) implies ({
                            let tid = grid@[pack_coord(a, b)];
                            &&& a0.len() <= tid.index < arena.tiles@.len()
                            &&& arena.tiles@[tid.index as int] == sprite_at(
                                a - board_off(),
                                b - board_off(),
                                size as int,
                                texture,
                            )
                        }) by {
                            if pack_coord(a, b) == key {
                                lemma_pack_coord_injective(a, b, gx, gy);
                            }
                        }
                    }
                }
            }
            x = x + 1;
        }
        y = y + 1;
    }
}

/// Idempotence: once a tick has run, a further tick — under any window size
/// and any texture — changes nothing: every coordinate keeps the tile
/// handle it already has, and no sprite is spawned.
pub proof fn lemma_tick_idempotent(
    g0: Map<u64, TileId>,
    a0: Seq<TileSprite>,
    g1: Map<u64, TileId>,
    a1: Seq<TileSprite>,
    g2: Map<u64, TileId>,
    a2: Seq<TileSprite>,
    width1: u32,
    height1: u32,
    texture1: ImageHandle,
    width2: u32,
    height2: u32,
    texture2: ImageHandle,
)
    requires
        tick_rel(g0, a0, g1, a1, width1, height1, texture1),
        tick_rel(g1, a1, g2, a2, width2, height2, texture2),
    ensures
        g2 == g1,
        a2 == a1,
{
    assert forall|k: u64| #[trigger] g2.contains_key(k) implies g1.contains_key(k) by {
        if !g1.contains_key(k) {
            assert(board_keys().contains(k));
            let (gx, gy) = choose|gx: i32, gy: i32|
                in_board(gx as int, gy as int) && k == #[trigger] pack_coord(gx, gy);
            assert(g1.contains_key(pack_coord(gx, gy)));
        }
    }
    assert(g2 =~= g1);
    assert(a2.len() == a1.len());
    assert(a1 =~= a2.subrange(0, a1.len() as int));
    assert(a2.subrange(0, a2.len() as int) =~= a2);
    assert(a2 =~= a1);
}

/// Bounds law: a coordinate off the board never gains a cache entry from a
/// tick, and if it somehow had one it keeps it untouched — the sweep skips
/// every candidate whose translated board coordinate is out of bounds.
pub proof fn lemma_bounds_law(
    g0: Map<u64, TileId>,
    a0: Seq<TileSprite>,
    g1: Map<u64, TileId>,
    a1: Seq<TileSprite>,
    window_width: u32,
    window_height: u32,
    texture: ImageHandle,
    gx: i32,
    gy: i32,
)
    requires
        tick_rel(g0, a0, g1, a1, window_width, window_height, texture),
        !in_board(gx as int, gy as int),
    ensures
        g1.contains_key(pack_coord(gx, gy)) == g0.contains_key(pack_coord(gx, gy)),
        g0.contains_key(pack_coord(gx, gy)) ==> g1[pack_coord(gx, gy)] == g0[pack_coord(gx, gy)],
{
    let k = pack_coord(gx, gy);
    if g1.contains_key(k) && !g0.contains_key(k) {
        assert(board_keys().contains(k));
        let (a, b) = choose|a: i32, b: i32|
            in_board(a as int, b as int) && k == #[trigger] pack_coord(a, b);
        lemma_pack_coord_injective(a, b, gx, gy);
    }
}

/// Range law: a camera-relative coordinate outside the swept window
/// translates off the board, so no tick ever spawns a tile for it.
pub proof fn lemma_range_law(
    g0: Map<u64, TileId>,
    a0: Seq<TileSprite>,
    g1: Map<u64, TileId>,
    a1: Seq<TileSprite>,
    window_width: u32,
    window_height: u32,
    texture: ImageHandle,
    x: i32,
    y: i32,
    gx: i32,
    gy: i32,
)
    requires
        tick_rel(g0, a0, g1, a1, window_width, window_height, texture),
        !in_sweep(x as int, y as int),
        gx as int == x as int + board_off(),
        gy as int == y as int + board_off(),
    ensures
        !in_board(gx as int, gy as int),
        g1.contains_key(pack_coord(gx, gy)) == g0.contains_key(pack_coord(gx, gy)),
{
    lemma_bounds_law(
        g0,
        a0,
        g1,
        a1,
        window_width,
        window_height,
        texture,
        gx,
        gy,
    );
}

/// The swept window overshoots the board on every side: each board
/// coordinate sits at a camera-relative position well inside the sweep,
/// which is why a single tick reaches the whole board.
pub proof fn lemma_sweep_covers_board(gx: int, gy: int)
    requires
        in_board(gx, gy),
    ensures
        in_sweep(gx - board_off(), gy - board_off()),
{
}

/// Scaling law: the tile size is proportional to the shorter window
/// dimension — scaling both dimensions by a factor scales the tile size by
/// the same factor. Since the size in pixels is this value divided by the
/// fixed `VISIBLE_TILES`, it also varies inversely with that constant.
pub proof fn lemma_tile_size_scales(window_width: int, window_height: int, factor: int)
    requires
        0 <= factor,
        0 <= window_width,
        0 <= window_height,
    ensures
        spec_tile_size(factor * window_width, factor * window_height) == factor * spec_tile_size(
            window_width,
            window_height,
        ),
{
    if window_width <= window_height {
        assert(factor * window_width <= factor * window_height) by (nonlinear_arith)
            requires
                0 <= factor,
                window_width <= window_height;
    } else {
        assert(factor * window_height <= factor * window_width) by (nonlinear_arith)
            requires
                0 <= factor,
                window_height <= window_width;
    }
}

} // verus!
