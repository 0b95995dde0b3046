//! Structure templates and stamping.
//!
//! A template is an immutable 3D array of voxel types used as a sparse
//! overlay: Air cells mean "leave the world cell untouched", non-Air cells
//! overwrite. Stamping bounds-checks every cell and silently skips any whose
//! absolute coordinate falls outside the grid.

use vstd::prelude::*;
use crate::grid::WORLD_CELLS;
use crate::grid::cell_index;
use crate::grid::in_bounds;
use crate::grid::lemma_cell_index_coords;
use crate::grid::cell_at;
use crate::voxel::Block;
use crate::voxel::BlockType;

verus! {

/// A template is well-formed when it is non-empty along its first axis and
/// its rows all share the dimensions of the first.
pub open spec fn structure_dims_ok(s: Seq<Vec<Vec<BlockType>>>) -> bool {
    &&& s.len() >= 1
    &&& s[0]@.len() >= 1
    &&& forall|i: int| 0 <= i < s.len() ==> (#[trigger] s[i]@.len()) == s[0]@.len()
    &&& forall|i: int, j: int|
        0 <= i < s.len() && 0 <= j < s[i]@.len() ==> (#[trigger] s[i]@[j]@.len())
            == s[0]@[0]@.len()
}

/// The template cell at `(dx, dy, dz)`.
pub open spec fn structure_cell(s: Seq<Vec<Vec<BlockType>>>, dx: int, dy: int, dz: int) -> BlockType {
    s[dx]@[dy]@[dz]
}

/// Whether stamping the template at `(x, y, z)` writes the world cell
/// `(gx, gy, gz)`: the cell lies under the template footprint and the
/// template cell over it is not Air.
pub open spec fn stamp_writes(
    s: Seq<Vec<Vec<BlockType>>>,
    x: int,
    y: int,
    z: int,
    gx: int,
    gy: int,
    gz: int,
) -> bool {
    &&& x <= gx < x + s.len()
    &&& y <= gy < y + s[0]@.len()
    &&& z <= gz < z + s[0]@[0]@.len()
    &&& structure_cell(s, gx - x, gy - y, gz - z) != BlockType::Air
}

/// Strict lexicographic order on template coordinates, the order in which
/// stamping scans them.
pub open spec fn lex_before(a1: int, a2: int, a3: int, b1: int, b2: int, b3: int) -> bool {
    a1 < b1 || (a1 == b1 && (a2 < b2 || (a2 == b2 && a3 < b3)))
}

/// Whether the cell `(gx, gy, gz)` has already been written when the stamping
/// scan stands at template position `(dx, dy, dz)`.
pub open spec fn stamp_writes_before(
    s: Seq<Vec<Vec<BlockType>>>,
    x: int,
    y: int,
    z: int,
    gx: int,
    gy: int,
    gz: int,
    dx: int,
    dy: int,
    dz: int,
) -> bool {
    stamp_writes(s, x, y, z, gx, gy, gz) && lex_before(gx - x, gy - y, gz - z, dx, dy, dz)
}

/// Distinct in-bounds cells have distinct linear indices.
pub proof fn lemma_cell_index_injective(
    x1: int,
    y1: int,
    z1: int,
    x2: int,
    y2: int,
    z2: int,
)
    requires
        in_bounds(x1, y1, z1),
        in_bounds(x2, y2, z2),
        cell_index(x1, y1, z1) == cell_index(x2, y2, z2),
    ensures
        x1 == x2 && y1 == y2 && z1 == z2,
{
    lemma_cell_index_coords(x1, y1, z1);
    lemma_cell_index_coords(x2, y2, z2);
}

/// Stamps a structure template onto the grid with its origin at `(x, y, z)`.
///
/// Every world cell under a non-Air template cell and inside the world bounds
/// takes the template's type; every other cell — in particular every cell
/// under an Air template cell — keeps its previous voxel.
pub fn place_structure(
    blocks: &mut Vec<Block>,
    x: usize,
    y: usize,
    z: usize,
    structure: &Vec<Vec<Vec<BlockType>>>,
)
    requires
        old(blocks)@.len() == WORLD_CELLS,
        structure_dims_ok(structure@),
        x < 128,
        y < 64,
        z < 128,
    ensures
        final(blocks)@.len() == WORLD_CELLS,
        forall|gx: int, gy: int, gz: int|
            in_bounds(gx, gy, gz) ==> final(blocks)@[cell_index(gx, gy, gz)].block_type == (
            if stamp_writes(structure@, x as int, y as int, z as int, gx, gy, gz) {
                structure_cell(structure@, gx - x, gy - y, gz - z)
            } else {
                old(blocks)@[cell_index(gx, gy, gz)].block_type
            }),
        forall|gx: int, gy: int, gz: int|
            in_bounds(gx, gy, gz) && !stamp_writes(
                structure@,
                x as int,
                y as int,
                z as int,
                gx,
                gy,
                gz,
            ) ==> final(blocks)@[cell_index(gx, gy, gz)] == old(blocks)@[cell_index(gx, gy, gz)],
{
    let ghost g0 = blocks@;
    let ghost s = structure@;
    let sx = structure.len();
    let sy = structure[0].len();
    let sz = structure[0][0].len();
    for dx in 0..sx
        invariant
            blocks@.len() == WORLD_CELLS,
            structure_dims_ok(s),
            s == structure@,
            sx == s.len(),
            sy == s[0]@.len(),
            sz == s[0]@[0]@.len(),
            x < 128,
            y < 64,
            z < 128,
            forall|gx: int, gy: int, gz: int|
                in_bounds(gx, gy, gz) ==> blocks@[cell_index(gx, gy, gz)] == (
                if stamp_writes_before(
                    s,
                    x as int,
                    y as int,
                    z as int,
                    gx,
                    gy,
                    gz,
                    dx as int,
                    0,
                    0,
                ) {
                    Block { block_type: structure_cell(s, gx - x, gy - y, gz - z) }
                } else {
                    g0[cell_index(gx, gy, gz)]
                }),
    {
        for dy in 0..sy
            invariant
                blocks@.len() == WORLD_CELLS,
                structure_dims_ok(s),
                s == structure@,
                sx == s.len(),
                sy == s[0]@.len(),
                sz == s[0]@[0]@.len(),
                dx < sx,
                x < 128,
                y < 64,
                z < 128,
                forall|gx: int, gy: int, gz: int|
                    in_bounds(gx, gy, gz) ==> blocks@[cell_index(gx, gy, gz)] == (
                    if stamp_writes_before(
                        s,
                        x as int,
                        y as int,
                        z as int,
                        gx,
                        gy,
                        gz,
                        dx as int,
                        dy as int,
                        0,
                    ) {
                        Block { block_type: structure_cell(s, gx - x, gy - y, gz - z) }
                    } else {
                        g0[cell_index(gx, gy, gz)]
                    }),
        {
            for dz in 0..sz
                invariant
                    blocks@.len() == WORLD_CELLS,
                    structure_dims_ok(s),
                    s == structure@,
                    sx == s.len(),
                    sy == s[0]@.len(),
                    sz == s[0]@[0]@.len(),
                    dx < sx,
                    dy < sy,
                    x < 128,
                    y < 64,
                    z < 128,
                    forall|gx: int, gy: int, gz: int|
                        in_bounds(gx, gy, gz) ==> blocks@[cell_index(gx, gy, gz)] == (
                        if stamp_writes_before(
                            s,
                            x as int,
                            y as int,
                            z as int,
                            gx,
                            gy,
                            gz,
                            dx as int,
                            dy as int,
                            dz as int,
                        ) {
                            Block { block_type: structure_cell(s, gx - x, gy - y, gz - z) }
                        } else {
                            g0[cell_index(gx, gy, gz)]
                        }),
            {
                let t = structure[dx][dy][dz];
                if dx < 128 - x && dy < 64 - y && dz < 128 - z && !matches!(t, BlockType::Air) {
                    let gx = x + dx;
                    let gy = y + dy;
                    let gz = z + dz;
                    let i = cell_at(gx, gy, gz);
                    blocks.set(i, Block { block_type: t });
                    proof {
                        assert forall|px: int, py: int, pz: int|
                            in_bounds(px, py, pz) && (px != gx as int || py != gy as int || pz
                                != gz as int) implies cell_index(px, py, pz) != i as int by {
                            if cell_index(px, py, pz) == i as int {
                                lemma_cell_index_injective(
                                    px,
                                    py,
                                    pz,
                                    gx as int,
                                    gy as int,
                                    gz as int,
                                );
                            }
                        }
                    }
                }
            }
        }
    }
}

/// The fixed tree template cell at `(dx, dy, dz)`: a five-voxel trunk with a
/// layered canopy, on a 5 by 7 by 5 footprint, already mirrored on both
/// horizontal axes as it is stamped.
pub open spec fn spec_tree_cell(dx: int, dy: int, dz: int) -> BlockType {
    if dx == 2 {
        if dy <= 2 {
            if dz == 2 {
                BlockType::Log
            } else {
                BlockType::Air
            }
        } else if dy <= 4 {
            if dz == 2 {
                BlockType::Log
            } else {
                BlockType::Leaves
            }
        } else {
            if 1 <= dz <= 3 {
                BlockType::Leaves
            } else {
                BlockType::Air
            }
        }
    } else if dx == 1 || dx == 3 {
        if dy <= 2 {
            BlockType::Air
        } else if dy <= 4 {
            BlockType::Leaves
        } else {
            if dz == 2 {
                BlockType::Leaves
            } else {
                BlockType::Air
            }
        }
    } else if dx == 0 {
        if dy == 3 {
            BlockType::Leaves
        } else if dy == 4 {
            if dz <= 3 {
                BlockType::Leaves
            } else {
                BlockType::Air
            }
        } else {
            BlockType::Air
        }
    } else {
        if dy == 3 || dy == 4 {
            if dz <= 3 {
                BlockType::Leaves
            } else {
                BlockType::Air
            }
        } else {
            BlockType::Air
        }
    }
}

/// The tree template cell, executable form.
pub fn tree_cell(dx: usize, dy: usize, dz: usize) -> (r: BlockType)
    requires
        dx < 5,
        dy < 7,
        dz < 5,
    ensures
        r == spec_tree_cell(dx as int, dy as int, dz as int),
{
    if dx == 2 {
        if dy <= 2 {
            if dz == 2 {
                BlockType::Log
            } else {
                BlockType::Air
            }
        } else if dy <= 4 {
            if dz == 2 {
                BlockType::Log
            } else {
                BlockType::Leaves
            }
        } else {
            if 1 <= dz && dz <= 3 {
                BlockType::Leaves
            } else {
                BlockType::Air
            }
        }
    } else if dx == 1 || dx == 3 {
        if dy <= 2 {
            BlockType::Air
        } else if dy <= 4 {
            BlockType::Leaves
        } else {
            if dz == 2 {
                BlockType::Leaves
            } else {
                BlockType::Air
            }
        }
    } else if dx == 0 {
        if dy == 3 {
            BlockType::Leaves
        } else if dy == 4 {
            if dz <= 3 {
                BlockType::Leaves
            } else {
                BlockType::Air
            }
        } else {
            BlockType::Air
        }
    } else {
        if dy == 3 || dy == 4 {
            if dz <= 3 {
                BlockType::Leaves
            } else {
                BlockType::Air
            }
        } else {
            BlockType::Air
        }
    }
}

/// Whether a template has the tree's dimensions and cells.
pub open spec fn is_tree_template(s: Seq<Vec<Vec<BlockType>>>) -> bool {
    &&& structure_dims_ok(s)
    &&& s.len() == 5
    &&& s[0]@.len() == 7
    &&& s[0]@[0]@.len() == 5
    &&& forall|dx: int, dy: int, dz: int|
        0 <= dx < 5 && 0 <= dy < 7 && 0 <= dz < 5 ==> (#[trigger] s[dx]@[dy]@[dz])
            == spec_tree_cell(dx, dy, dz)
}

/// Builds the fixed tree template.
pub fn tree_template() -> (r: Vec<Vec<Vec<BlockType>>>)
    ensures
        is_tree_template(r@),
{
    let mut layers: Vec<Vec<Vec<BlockType>>> = Vec::new();
    for dx in 0..5usize
        invariant
            layers@.len() == dx,
            forall|i: int| 0 <= i < dx ==> (#[trigger] layers@[i]@.len()) == 7,
            forall|i: int, j: int|
                0 <= i < dx && 0 <= j < 7 ==> (#[trigger] layers@[i]@[j]@.len()) == 5,
            forall|i: int, j: int, k: int|
                0 <= i < dx && 0 <= j < 7 && 0 <= k < 5 ==> (#[trigger] layers@[i]@[j]@[k])
                    == spec_tree_cell(i, j, k),
    {
        let mut rows: Vec<Vec<BlockType>> = Vec::new();
        for dy in 0..7usize
            invariant
                dx < 5,
                rows@.len() == dy,
                forall|j: int| 0 <= j < dy ==> (#[trigger] rows@[j]@.len()) == 5,
                forall|j: int, k: int|
                    0 <= j < dy && 0 <= k < 5 ==> (#[trigger] rows@[j]@[k]) == spec_tree_cell(
                        dx as int,
                        j,
                        k,
                    ),
        {
            let mut row: Vec<BlockType> = Vec::new();
            for dz in 0..5usize
                invariant
                    dx < 5,
                    dy < 7,
                    row@.len() == dz,
                    forall|k: int| 0 <= k < dz ==> (#[trigger] row@[k]) == spec_tree_cell(
                        dx as int,
                        dy as int,
                        k,
                    ),
            {
                row.push(tree_cell(dx, dy, dz));
            }
            rows.push(row);
        }
        layers.push(rows);
    }
    layers
}

} // verus!
