//! Terrain generation: strata assembly from quantized noise fields, tree
//! placement and flower patches.
//!
//! The generator consumes three pre-quantized fields — a column height in
//! 1/256ths of a voxel per `(x, z)`, a carve flag per cell (the 3D cave noise
//! thresholded at its fixed cutoff), and a flower-patch flag per column (the
//! 2D noise thresholded at its cutoff) — plus a seed for the explicit
//! generator that decides bedrock veins, tree placement and flower kinds.
//! The whole grid is a function of those arguments and nothing else.

use vstd::prelude::*;
use crate::grid::WORLD_CELLS;
use crate::grid::WORLD_COLS;
use crate::grid::cell_index;
use crate::grid::cell_x;
use crate::grid::cell_y;
use crate::grid::cell_z;
use crate::grid::col_index;
use crate::grid::in_bounds;
use crate::grid::cell_at;
use crate::grid::col_at;
use crate::grid::lemma_cell_index_coords;
use crate::grid::lemma_coords_cell_index;
use crate::grid::lemma_col_index_coords;
use crate::template::is_tree_template;
use crate::template::place_structure;
use crate::template::spec_tree_cell;
use crate::template::stamp_writes;
use crate::voxel::Block;
use crate::voxel::BlockType;

verus! {

/// The types held by a sequence of cells.
pub open spec fn types_of(s: Seq<Block>) -> Seq<BlockType> {
    s.map_values(|b: Block| b.block_type)
}

/// The surface cell index of a column whose height is `q` 1/256ths of a
/// voxel: the height in whole voxels, clamped to the vertical world bounds.
pub open spec fn spec_surface_index(q: int) -> int {
    if q < 0 {
        0
    } else if q / 256 > 63 {
        63
    } else {
        q / 256
    }
}

/// The cell index one above the surface, clamped the same way.
pub open spec fn spec_above_index(q: int) -> int {
    if q < 0 {
        0
    } else if q / 256 + 1 > 63 {
        63
    } else {
        q / 256 + 1
    }
}

/// The voxel produced by column assembly at height `y` of a column of height
/// `q` 1/256ths of a voxel, before structures and flowers. The floor is
/// Bedrock; carved cells become Water below the water line at height 4 and
/// Air above it; an uncarved cell at height 1 can hold a Bedrock vein; the
/// remaining cells follow the strata bands Stone, Dirt, Grass up to the
/// surface, and Water or Air above it.
pub open spec fn spec_base_cell(q: int, carved: bool, vein: bool, y: int) -> BlockType {
    if y == 0 {
        BlockType::Bedrock
    } else if carved {
        if y < 4 {
            BlockType::Water
        } else {
            BlockType::Air
        }
    } else if y == 1 && vein {
        BlockType::Bedrock
    } else if 256 * y < q {
        if 256 * y < q - 768 {
            BlockType::Stone
        } else if 256 * y < q - 256 {
            BlockType::Dirt
        } else {
            BlockType::Grass
        }
    } else {
        if y < 4 {
            BlockType::Water
        } else {
            BlockType::Air
        }
    }
}

/// The base voxel at linear cell index `i`.
pub open spec fn spec_base_at(
    heights: Seq<i32>,
    carved: Seq<bool>,
    veins: Seq<bool>,
    i: int,
) -> BlockType {
    spec_base_cell(
        heights[col_index(cell_x(i), cell_z(i))] as int,
        carved[i],
        veins[col_index(cell_x(i), cell_z(i))],
        cell_y(i),
    )
}

/// The whole base grid, before structures and flowers.
pub open spec fn spec_base_grid(
    heights: Seq<i32>,
    carved: Seq<bool>,
    veins: Seq<bool>,
) -> Seq<BlockType> {
    Seq::new(WORLD_CELLS as nat, |i: int| spec_base_at(heights, carved, veins, i))
}

/// Executable form of `spec_surface_index`.
pub fn surface_index(q: i32) -> (r: usize)
    ensures
        r == spec_surface_index(q as int),
        r < 64,
{
    if q < 0 {
        0
    } else {
        let d = (q as u32) / 256;
        if d > 63 {
            63
        } else {
            d as usize
        }
    }
}

/// Executable form of `spec_above_index`.
pub fn above_index(q: i32) -> (r: usize)
    ensures
        r == spec_above_index(q as int),
        r < 64,
{
    if q < 0 {
        0
    } else {
        let d = (q as u32) / 256;
        if d >= 63 {
            63
        } else {
            (d + 1) as usize
        }
    }
}

/// Builds the base grid, cell by cell in linear index order.
pub fn build_base_grid(heights: &Vec<i32>, carved: &Vec<bool>, veins: &Vec<bool>) -> (r: Vec<
    Block,
>)
    requires
        heights@.len() == WORLD_COLS,
        carved@.len() == WORLD_CELLS,
        veins@.len() == WORLD_COLS,
    ensures
        r@.len() == WORLD_CELLS,
        types_of(r@) == spec_base_grid(heights@, carved@, veins@),
{
    let mut blocks: Vec<Block> = Vec::new();
    for x in 0..128usize
        invariant
            heights@.len() == WORLD_COLS,
            carved@.len() == WORLD_CELLS,
            veins@.len() == WORLD_COLS,
            blocks@.len() == x * 8192,
            forall|j: int|
                0 <= j < blocks@.len() ==> (#[trigger] blocks@[j]).block_type == spec_base_at(
                    heights@,
                    carved@,
                    veins@,
                    j,
                ),
    {
        for y in 0..64usize
            invariant
                x < 128,
                heights@.len() == WORLD_COLS,
                carved@.len() == WORLD_CELLS,
                veins@.len() == WORLD_COLS,
                blocks@.len() == x * 8192 + y * 128,
                forall|j: int|
                    0 <= j < blocks@.len() ==> (#[trigger] blocks@[j]).block_type == spec_base_at(
                        heights@,
                        carved@,
                        veins@,
                        j,
                    ),
        {
            for z in 0..128usize
                invariant
                    x < 128,
                    y < 64,
                    heights@.len() == WORLD_COLS,
                    carved@.len() == WORLD_CELLS,
                    veins@.len() == WORLD_COLS,
                    blocks@.len() == x * 8192 + y * 128 + z,
                    forall|j: int|
                        0 <= j < blocks@.len() ==> (#[trigger] blocks@[j]).block_type
                            == spec_base_at(heights@, carved@, veins@, j),
            {
                proof {
                    lemma_cell_index_coords(x as int, y as int, z as int);
                    lemma_col_index_coords(x as int, z as int);
                }
                let ci = cell_at(x, y, z);
                let col = col_at(x, z);
                let cell = if y == 0 {
                    BlockType::Bedrock
                } else if carved[ci] {
                    if y < 4 {
                        BlockType::Water
                    } else {
                        BlockType::Air
                    }
                } else if y == 1 && veins[col] {
                    BlockType::Bedrock
                } else {
                    let q = heights[col] as i64;
                    let yy = 256 * (y as i64);
                    if yy < q {
                        if yy < q - 768 {
                            BlockType::Stone
                        } else if yy < q - 256 {
                            BlockType::Dirt
                        } else {
                            BlockType::Grass
                        }
                    } else {
                        if y < 4 {
                            BlockType::Water
                        } else {
                            BlockType::Air
                        }
                    }
                };
                blocks.push(Block { block_type: cell });
            }
        }
    }
    proof {
        assert(types_of(blocks@) =~= spec_base_grid(heights@, carved@, veins@));
    }
    blocks
}

/// The cells the tree template writes when stamped at `(x, y, z)`: cells
/// under its footprint whose template cell is not Air.
pub open spec fn tree_writes(x: int, y: int, z: int, gx: int, gy: int, gz: int) -> bool {
    &&& x <= gx < x + 5
    &&& y <= gy < y + 7
    &&& z <= gz < z + 5
    &&& spec_tree_cell(gx - x, gy - y, gz - z) != BlockType::Air
}

/// The grid after stamping the tree template at `(x, y, z)`.
pub open spec fn spec_stamp_tree(g: Seq<BlockType>, x: int, y: int, z: int) -> Seq<BlockType> {
    Seq::new(
        g.len(),
        |i: int|
            if tree_writes(x, y, z, cell_x(i), cell_y(i), cell_z(i)) {
                spec_tree_cell(cell_x(i) - x, cell_y(i) - y, cell_z(i) - z)
            } else {
                g[i]
            },
    )
}

/// Tree eligibility at column `(x, z)` of height `q`: the surface cell holds
/// Grass, and the probe cell one above the surface holds Air. The probe sits
/// in the column at the last z index, not the local column — a deliberate
/// asymmetry of the placement rule.
pub open spec fn spec_tree_elig(g: Seq<BlockType>, q: int, x: int, z: int) -> bool {
    &&& g[cell_index(x, spec_surface_index(q), z)] == BlockType::Grass
    &&& g[cell_index(x, spec_above_index(q), 63)] == BlockType::Air
}

/// One column of the tree-placement scan: if the column is eligible and its
/// one-in-a-hundred draw came up, the tree is stamped at its surface.
pub open spec fn spec_tree_step(
    g: Seq<BlockType>,
    heights: Seq<i32>,
    rolls: Seq<bool>,
    c: int,
) -> Seq<BlockType> {
    let x = c / 128;
    let z = c % 128;
    let q = heights[c] as int;
    if spec_tree_elig(g, q, x, z) && rolls[c] {
        spec_stamp_tree(g, x, spec_surface_index(q), z)
    } else {
        g
    }
}

/// The grid after the first `c` columns of the tree-placement scan.
pub open spec fn spec_tree_fold(
    g0: Seq<BlockType>,
    heights: Seq<i32>,
    rolls: Seq<bool>,
    c: nat,
) -> Seq<BlockType>
    decreases c,
{
    if c == 0 {
        g0
    } else {
        spec_tree_step(spec_tree_fold(g0, heights, rolls, (c - 1) as nat), heights, rolls, c - 1)
    }
}

/// Stamps the tree template and relates the result to `spec_stamp_tree`.
fn stamp_tree(blocks: &mut Vec<Block>, x: usize, y: usize, z: usize, tree: &Vec<Vec<Vec<BlockType>>>)
    requires
        old(blocks)@.len() == WORLD_CELLS,
        is_tree_template(tree@),
        x < 128,
        y < 64,
        z < 128,
    ensures
        final(blocks)@.len() == WORLD_CELLS,
        types_of(final(blocks)@) == spec_stamp_tree(
            types_of(old(blocks)@),
            x as int,
            y as int,
            z as int,
        ),
{
    place_structure(blocks, x, y, z, tree);
    proof {
        let pre = types_of(old(blocks)@);
        let post = types_of(blocks@);
        let sp = spec_stamp_tree(pre, x as int, y as int, z as int);
        assert forall|i: int| 0 <= i < WORLD_CELLS implies post[i] == sp[i] by {
            lemma_coords_cell_index(i);
            let gx = cell_x(i);
            let gy = cell_y(i);
            let gz = cell_z(i);
            assert(in_bounds(gx, gy, gz));
            assert(blocks@[cell_index(gx, gy, gz)].block_type == (
            if stamp_writes(tree@, x as int, y as int, z as int, gx, gy, gz) {
                crate::template::structure_cell(tree@, gx - x, gy - y, gz - z)
            } else {
                old(blocks)@[cell_index(gx, gy, gz)].block_type
            }));
        }
        assert(post =~= sp);
    }
}

/// Runs the tree-placement scan over every column, in scan order.
pub fn apply_trees(
    blocks: &mut Vec<Block>,
    heights: &Vec<i32>,
    rolls: &Vec<bool>,
    tree: &Vec<Vec<Vec<BlockType>>>,
)
    requires
        old(blocks)@.len() == WORLD_CELLS,
        heights@.len() == WORLD_COLS,
        rolls@.len() == WORLD_COLS,
        is_tree_template(tree@),
    ensures
        final(blocks)@.len() == WORLD_CELLS,
        types_of(final(blocks)@) == spec_tree_fold(
            types_of(old(blocks)@),
            heights@,
            rolls@,
            WORLD_COLS as nat,
        ),
{
    let ghost g0 = types_of(old(blocks)@);
    for x in 0..128usize
        invariant
            blocks@.len() == WORLD_CELLS,
            heights@.len() == WORLD_COLS,
            rolls@.len() == WORLD_COLS,
            is_tree_template(tree@),
            types_of(blocks@) == spec_tree_fold(g0, heights@, rolls@, (x * 128) as nat),
    {
        for z in 0..128usize
            invariant
                x < 128,
                blocks@.len() == WORLD_CELLS,
                heights@.len() == WORLD_COLS,
                rolls@.len() == WORLD_COLS,
                is_tree_template(tree@),
                types_of(blocks@) == spec_tree_fold(g0, heights@, rolls@, (x * 128 + z) as nat),
        {
            let c = col_at(x, z);
            proof {
                lemma_col_index_coords(x as int, z as int);
            }
            let q = heights[c];
            let u = surface_index(q);
            let a = above_index(q);
            let iu = cell_at(x, u, z);
            let ia = cell_at(x, a, 63);
            let elig = blocks[iu].block_type == BlockType::Grass && blocks[ia].block_type
                == BlockType::Air;
            let ghost before = types_of(blocks@);
            if elig && rolls[c] {
                stamp_tree(blocks, x, u, z, tree);
            }
            proof {
                assert(spec_tree_fold(g0, heights@, rolls@, (x * 128 + z + 1) as nat)
                    == spec_tree_step(
                    spec_tree_fold(g0, heights@, rolls@, (x * 128 + z) as nat),
                    heights@,
                    rolls@,
                    (x * 128 + z) as int,
                ));
                assert(elig == spec_tree_elig(before, q as int, x as int, z as int));
            }
        }
    }
}

/// Number of columns of the flower-patch region: flowers are restricted to
/// the first 64 by 64 columns of the world, a deliberate area cap.
pub const FLOWER_COLS: usize = 64 * 64;

/// One column of the flower scan, at flower-region index `c2`: if the surface
/// cell holds Grass, the column's patch flag is set and the cell above the
/// surface holds Air, that cell becomes a Rose or a Dandelion as the
/// column's coin-flip decides.
pub open spec fn spec_flower_step(
    g: Seq<BlockType>,
    heights: Seq<i32>,
    patches: Seq<bool>,
    kinds: Seq<bool>,
    c2: int,
) -> Seq<BlockType> {
    let x = c2 / 64;
    let z = c2 % 64;
    let q = heights[col_index(x, z)] as int;
    let u = spec_surface_index(q);
    let a = spec_above_index(q);
    if g[cell_index(x, u, z)] == BlockType::Grass && patches[col_index(x, z)] && g[cell_index(
        x,
        a,
        z,
    )] == BlockType::Air {
        g.update(
            cell_index(x, a, z),
            if kinds[c2] {
                BlockType::Rose
            } else {
                BlockType::Dandelion
            },
        )
    } else {
        g
    }
}

/// The grid after the first `c2` columns of the flower scan.
pub open spec fn spec_flower_fold(
    g0: Seq<BlockType>,
    heights: Seq<i32>,
    patches: Seq<bool>,
    kinds: Seq<bool>,
    c2: nat,
) -> Seq<BlockType>
    decreases c2,
{
    if c2 == 0 {
        g0
    } else {
        spec_flower_step(
            spec_flower_fold(g0, heights, patches, kinds, (c2 - 1) as nat),
            heights,
            patches,
            kinds,
            c2 - 1,
        )
    }
}

/// Runs the flower scan over the flower region, in scan order.
pub fn apply_flowers(
    blocks: &mut Vec<Block>,
    heights: &Vec<i32>,
    patches: &Vec<bool>,
    kinds: &Vec<bool>,
)
    requires
        old(blocks)@.len() == WORLD_CELLS,
        heights@.len() == WORLD_COLS,
        patches@.len() == WORLD_COLS,
        kinds@.len() == FLOWER_COLS,
    ensures
        final(blocks)@.len() == WORLD_CELLS,
        types_of(final(blocks)@) == spec_flower_fold(
            types_of(old(blocks)@),
            heights@,
            patches@,
            kinds@,
            FLOWER_COLS as nat,
        ),
{
    let ghost g0 = types_of(old(blocks)@);
    for x in 0..64usize
        invariant
            blocks@.len() == WORLD_CELLS,
            heights@.len() == WORLD_COLS,
            patches@.len() == WORLD_COLS,
            kinds@.len() == FLOWER_COLS,
            types_of(blocks@) == spec_flower_fold(g0, heights@, patches@, kinds@, (x * 64) as nat),
    {
        for z in 0..64usize
            invariant
                x < 64,
                blocks@.len() == WORLD_CELLS,
                heights@.len() == WORLD_COLS,
                patches@.len() == WORLD_COLS,
                kinds@.len() == FLOWER_COLS,
                types_of(blocks@) == spec_flower_fold(
                    g0,
                    heights@,
                    patches@,
                    kinds@,
                    (x * 64 + z) as nat,
                ),
        {
            let c2 = x * 64 + z;
            let col = col_at(x, z);
            proof {
                lemma_col_index_coords(x as int, z as int);
                vstd::arithmetic::div_mod::lemma_fundamental_div_mod_converse_div(
                    c2 as int,
                    64,
                    x as int,
                    z as int,
                );
                vstd::arithmetic::div_mod::lemma_fundamental_div_mod_converse_mod(
                    c2 as int,
                    64,
                    x as int,
                    z as int,
                );
            }
            let q = heights[col];
            let u = surface_index(q);
            let a = above_index(q);
            let iu = cell_at(x, u, z);
            let ia = cell_at(x, a, z);
            let ghost before = types_of(blocks@);
            if blocks[iu].block_type == BlockType::Grass && patches[col] && blocks[ia].block_type
                == BlockType::Air {
                let kind = if kinds[c2] {
                    BlockType::Rose
                } else {
                    BlockType::Dandelion
                };
                blocks.set(ia, Block { block_type: kind });
                proof {
                    assert(types_of(blocks@) =~= before.update(ia as int, kind));
                }
            }
            proof {
                assert(spec_flower_fold(g0, heights@, patches@, kinds@, (x * 64 + z + 1) as nat)
                    == spec_flower_step(
                    spec_flower_fold(g0, heights@, patches@, kinds@, (x * 64 + z) as nat),
                    heights@,
                    patches@,
                    kinds@,
                    (x * 64 + z) as int,
                ));
            }
        }
    }
}


/// Stamping the tree template never changes a cell it does not write: in
/// particular every cell under an Air template cell, and every cell outside
/// the footprint, keeps its previous voxel.
pub proof fn lemma_stamp_tree_preserves(
    g: Seq<BlockType>,
    x: int,
    y: int,
    z: int,
    gx: int,
    gy: int,
    gz: int,
)
    requires
        g.len() == WORLD_CELLS,
        in_bounds(gx, gy, gz),
        !tree_writes(x, y, z, gx, gy, gz),
    ensures
        spec_stamp_tree(g, x, y, z)[cell_index(gx, gy, gz)] == g[cell_index(gx, gy, gz)],
{
    lemma_cell_index_coords(gx, gy, gz);
}

/// Every tree template cell is Air, Log or Leaves.
pub proof fn lemma_tree_cell_kind(dx: int, dy: int, dz: int)
    ensures
        spec_tree_cell(dx, dy, dz) == BlockType::Air || spec_tree_cell(dx, dy, dz)
            == BlockType::Log || spec_tree_cell(dx, dy, dz) == BlockType::Leaves,
{
}

/// The tree scan changes a cell only to Log or Leaves, and keeps the grid's
/// length.
pub proof fn lemma_tree_fold_cell(g0: Seq<BlockType>, h: Seq<i32>, r: Seq<bool>, c: nat, i: int)
    requires
        0 <= i < g0.len(),
    ensures
        spec_tree_fold(g0, h, r, c).len() == g0.len(),
        spec_tree_fold(g0, h, r, c)[i] == g0[i] || spec_tree_fold(g0, h, r, c)[i] == BlockType::Log
            || spec_tree_fold(g0, h, r, c)[i] == BlockType::Leaves,
    decreases c,
{
    if c > 0 {
        lemma_tree_fold_cell(g0, h, r, (c - 1) as nat, i);
        let prev = spec_tree_fold(g0, h, r, (c - 1) as nat);
        let cc = c - 1;
        let x = cc / 128;
        let z = cc % 128;
        let q = h[cc] as int;
        if spec_tree_elig(prev, q, x, z) && r[cc] {
            let u = spec_surface_index(q);
            if tree_writes(x, u, z, cell_x(i), cell_y(i), cell_z(i)) {
                lemma_tree_cell_kind(cell_x(i) - x, cell_y(i) - u, cell_z(i) - z);
            }
        }
    }
}

/// The floor of the world: every cell at height zero holds Bedrock.
pub open spec fn floor_bedrock(g: Seq<BlockType>) -> bool {
    forall|x: int, z: int|
        0 <= x < 128 && 0 <= z < 128 ==> (#[trigger] g[cell_index(x, 0, z)]) == BlockType::Bedrock
}

/// The base grid satisfies the floor invariant.
pub proof fn lemma_base_floor(heights: Seq<i32>, carved: Seq<bool>, veins: Seq<bool>)
    ensures
        floor_bedrock(spec_base_grid(heights, carved, veins)),
{
    assert forall|x: int, z: int| 0 <= x < 128 && 0 <= z < 128 implies (#[trigger] spec_base_grid(
        heights,
        carved,
        veins,
    )[cell_index(x, 0, z)]) == BlockType::Bedrock by {
        lemma_cell_index_coords(x, 0, z);
    }
}

/// The tree scan preserves the floor invariant: a tree only grows from a
/// Grass surface, which is never at height zero, and its template reaches
/// only upward.
pub proof fn lemma_tree_fold_floor(g0: Seq<BlockType>, h: Seq<i32>, r: Seq<bool>, c: nat)
    requires
        g0.len() == WORLD_CELLS,
        floor_bedrock(g0),
        c <= WORLD_COLS,
    ensures
        spec_tree_fold(g0, h, r, c).len() == WORLD_CELLS,
        floor_bedrock(spec_tree_fold(g0, h, r, c)),
    decreases c,
{
    if c > 0 {
        lemma_tree_fold_floor(g0, h, r, (c - 1) as nat);
        let prev = spec_tree_fold(g0, h, r, (c - 1) as nat);
        let cur = spec_tree_fold(g0, h, r, c);
        let cc = c - 1;
        let x = cc / 128;
        let z = cc % 128;
        let q = h[cc] as int;
        vstd::arithmetic::div_mod::lemma_fundamental_div_mod(cc as int, 128);
        vstd::arithmetic::div_mod::lemma_mod_division_less_than_divisor(cc as int, 128);
        if spec_tree_elig(prev, q, x, z) && r[cc] {
            let u = spec_surface_index(q);
            if q >= 0 {
                vstd::arithmetic::div_mod::lemma_div_pos_is_pos(q, 256);
            }
            assert(u >= 0);
            if u == 0 {
                assert(prev[cell_index(x, 0, z)] == BlockType::Grass);
                assert(false);
            }
            assert forall|px: int, pz: int| 0 <= px < 128 && 0 <= pz < 128 implies (
            #[trigger] cur[cell_index(px, 0, pz)]) == BlockType::Bedrock by {
                lemma_cell_index_coords(px, 0, pz);
                lemma_stamp_tree_preserves(prev, x, u, z, px, 0, pz);
            }
        }
    }
}

/// The flower scan changes a cell only to Rose or Dandelion, and keeps the
/// grid's length.
pub proof fn lemma_flower_fold_cell(
    g0: Seq<BlockType>,
    h: Seq<i32>,
    p: Seq<bool>,
    k: Seq<bool>,
    c2: nat,
    i: int,
)
    requires
        0 <= i < g0.len(),
        g0.len() == WORLD_CELLS,
        c2 <= FLOWER_COLS,
    ensures
        spec_flower_fold(g0, h, p, k, c2).len() == g0.len(),
        spec_flower_fold(g0, h, p, k, c2)[i] == g0[i] || spec_flower_fold(g0, h, p, k, c2)[i]
            == BlockType::Rose || spec_flower_fold(g0, h, p, k, c2)[i] == BlockType::Dandelion,
    decreases c2,
{
    if c2 > 0 {
        lemma_flower_fold_cell(g0, h, p, k, (c2 - 1) as nat, i);
        let prev = spec_flower_fold(g0, h, p, k, (c2 - 1) as nat);
        let cc = c2 - 1;
        let x = cc / 64;
        let z = cc % 64;
        vstd::arithmetic::div_mod::lemma_fundamental_div_mod(cc as int, 64);
        vstd::arithmetic::div_mod::lemma_mod_division_less_than_divisor(cc as int, 64);
        let q = h[col_index(x, z)] as int;
        let a = spec_above_index(q);
        if q >= 0 {
            vstd::arithmetic::div_mod::lemma_div_pos_is_pos(q, 256);
        }
        lemma_cell_index_coords(x, a, z);
    }
}

/// The flower scan preserves the floor invariant: it only replaces an Air
/// cell, and the floor is never Air.
pub proof fn lemma_flower_fold_floor(
    g0: Seq<BlockType>,
    h: Seq<i32>,
    p: Seq<bool>,
    k: Seq<bool>,
    c2: nat,
)
    requires
        g0.len() == WORLD_CELLS,
        floor_bedrock(g0),
        c2 <= FLOWER_COLS,
    ensures
        spec_flower_fold(g0, h, p, k, c2).len() == WORLD_CELLS,
        floor_bedrock(spec_flower_fold(g0, h, p, k, c2)),
    decreases c2,
{
    if c2 > 0 {
        lemma_flower_fold_floor(g0, h, p, k, (c2 - 1) as nat);
        let prev = spec_flower_fold(g0, h, p, k, (c2 - 1) as nat);
        let cur = spec_flower_fold(g0, h, p, k, c2);
        let cc = c2 - 1;
        let x = cc / 64;
        let z = cc % 64;
        vstd::arithmetic::div_mod::lemma_fundamental_div_mod(cc as int, 64);
        vstd::arithmetic::div_mod::lemma_mod_division_less_than_divisor(cc as int, 64);
        let q = h[col_index(x, z)] as int;
        let u = spec_surface_index(q);
        let a = spec_above_index(q);
        if q >= 0 {
            vstd::arithmetic::div_mod::lemma_div_pos_is_pos(q, 256);
        }
        assert(0 <= a < 64);
        if prev[cell_index(x, u, z)] == BlockType::Grass && p[col_index(x, z)] && prev[cell_index(
            x,
            a,
            z,
        )] == BlockType::Air {
            assert forall|px: int, pz: int| 0 <= px < 128 && 0 <= pz < 128 implies (
            #[trigger] cur[cell_index(px, 0, pz)]) == BlockType::Bedrock by {
                lemma_cell_index_coords(px, 0, pz);
                if cell_index(px, 0, pz) == cell_index(x, a, z) {
                    lemma_cell_index_coords(x, a, z);
                    assert(a == 0);
                    assert(prev[cell_index(x, 0, z)] == BlockType::Air);
                }
            }
        }
    }
}

} // verus!
