//! Visibility determination for the isometric viewpoint.
//!
//! Given a viewpoint offset in tenths of a world unit and the viewport size
//! in pixels, the scan walks a camera-relative window of columns, projects
//! each voxel with the fixed isometric transform to tenths of a pixel,
//! discards voxels outside the viewport (expanded by a two-tile margin) and
//! voxels occluded along the fixed camera diagonal, and collects the rest.

use vstd::prelude::*;
use crate::grid::WORLD_CELLS;
use crate::grid::cell_index;
use crate::grid::in_bounds;
use crate::grid::cell_at;
use crate::terrain::types_of;
use crate::voxel::Block;
use crate::voxel::BlockType;
use crate::voxel::spec_is_non_transparent;

verus! {

/// A viewpoint offset, each axis in tenths of a world unit. This is the
/// quantization the engine's change detection rounds to, so equal offsets
/// mean "no meaningful movement".
#[derive(Copy, Clone, PartialEq, Eq, Structural, Debug)]
pub struct ViewOffset {
    pub x: i32,
    pub y: i32,
    pub z: i32,
}

/// One voxel of the visible set: its projected screen position in tenths of
/// a pixel, and its type.
#[derive(Copy, Clone, PartialEq, Eq, Structural, Debug)]
pub struct VisibleBlock {
    pub screen_x: i64,
    pub screen_y: i64,
    pub block_type: BlockType,
}

/// The isometric screen x of voxel `(x, z)` under offset `o`, in tenths of a
/// pixel: `((x - ox) - (z - oz)) * 84 / 2` scaled to tenths.
pub open spec fn spec_screen_x(o: ViewOffset, x: int, z: int) -> int {
    (10 * (x - z) - o.x + o.z) * 42
}

/// The isometric screen y of voxel `(x, y, z)` under offset `o`, in tenths
/// of a pixel: `((x - ox) + (z - oz)) * 84 / 4 - (y - oy) * 84 / 2` scaled
/// to tenths.
pub open spec fn spec_screen_y(o: ViewOffset, x: int, y: int, z: int) -> int {
    (10 * (x + z) - o.x - o.z) * 21 - (10 * y - o.y) * 42
}

/// The scan window half-extent driver: the viewport extent in pixels divided
/// by seven tile footprints, clamped to the world extent.
pub open spec fn spec_chunk(px: int) -> int {
    if px / 588 > 128 {
        128
    } else {
        px / 588
    }
}

/// Lower bound of the scan window on one axis, from the offset (in tenths)
/// and the chunk extent, clamped at the world edge.
pub open spec fn spec_win_lo(t: int, chunk: int) -> int {
    let v = t - 420 * chunk;
    if v < 0 {
        0
    } else {
        v / 10
    }
}

/// Upper bound of the scan window on one axis.
pub open spec fn spec_win_hi(t: int, chunk: int) -> int {
    let v = t + 420 * chunk;
    if v < 0 {
        0
    } else if v / 10 > 128 {
        128
    } else {
        v / 10
    }
}

/// Whether the projection of `(x, y, z)` lies inside the viewport expanded
/// by a two-tile margin on every side.
pub open spec fn spec_in_margin(o: ViewOffset, w: int, h: int, x: int, y: int, z: int) -> bool {
    let sx = spec_screen_x(o, x, z);
    let sy = spec_screen_y(o, x, y, z);
    !(sx < -1680 || sx > 10 * w + 1680 || sy < -1680 || sy > 10 * h + 1680)
}

/// Whether `(x, y, z)` is occluded: some step along the fixed camera
/// diagonal, up to four cells, lands in bounds on an opaque voxel.
pub open spec fn spec_occluded(g: Seq<BlockType>, x: int, y: int, z: int) -> bool {
    exists|i: int|
        1 <= i < 5 && x + i < 128 && y + i < 64 && z + i < 128 && spec_is_non_transparent(
            #[trigger] g[cell_index(x + i, y + i, z + i)],
        )
}

/// Whether the voxel `(x, y, z)` belongs in the visible set: inside the
/// expanded viewport, not occluded, and not Air.
pub open spec fn spec_qual(
    g: Seq<BlockType>,
    o: ViewOffset,
    w: int,
    h: int,
    x: int,
    y: int,
    z: int,
) -> bool {
    &&& spec_in_margin(o, w, h, x, y, z)
    &&& !spec_occluded(g, x, y, z)
    &&& g[cell_index(x, y, z)] != BlockType::Air
}

/// The visible-set entry for voxel `(x, y, z)`.
pub open spec fn spec_entry(g: Seq<BlockType>, o: ViewOffset, x: int, y: int, z: int) -> VisibleBlock {
    VisibleBlock {
        screen_x: spec_screen_x(o, x, z) as i64,
        screen_y: spec_screen_y(o, x, y, z) as i64,
        block_type: g[cell_index(x, y, z)],
    }
}

/// The visible entries of row `(x, y)` for z in `[z, z_hi)`, in scan order.
pub open spec fn vis_row(
    g: Seq<BlockType>,
    o: ViewOffset,
    w: int,
    h: int,
    x: int,
    y: int,
    z: int,
    z_hi: int,
) -> Seq<VisibleBlock>
    decreases z_hi - z,
{
    if z >= z_hi {
        Seq::empty()
    } else {
        let rest = vis_row(g, o, w, h, x, y, z + 1, z_hi);
        if spec_qual(g, o, w, h, x, y, z) {
            seq![spec_entry(g, o, x, y, z)] + rest
        } else {
            rest
        }
    }
}

/// The visible entries of column plane `x` for heights in `[y, 64)`, in scan
/// order.
pub open spec fn vis_col(
    g: Seq<BlockType>,
    o: ViewOffset,
    w: int,
    h: int,
    x: int,
    y: int,
    z_lo: int,
    z_hi: int,
) -> Seq<VisibleBlock>
    decreases 64 - y,
{
    if y < 0 || y >= 64 {
        Seq::empty()
    } else {
        vis_row(g, o, w, h, x, y, z_lo, z_hi) + vis_col(g, o, w, h, x, y + 1, z_lo, z_hi)
    }
}

/// The visible entries of the window for x in `[x, x_hi)`, in scan order.
pub open spec fn vis_cols(
    g: Seq<BlockType>,
    o: ViewOffset,
    w: int,
    h: int,
    x: int,
    x_hi: int,
    z_lo: int,
    z_hi: int,
) -> Seq<VisibleBlock>
    decreases x_hi - x,
{
    if x >= x_hi {
        Seq::empty()
    } else {
        vis_col(g, o, w, h, x, 0, z_lo, z_hi) + vis_cols(g, o, w, h, x + 1, x_hi, z_lo, z_hi)
    }
}

/// The whole visible set for grid `g`, offset `o` and viewport `w` by `h`
/// pixels, in scan order.
pub open spec fn spec_visible(g: Seq<BlockType>, o: ViewOffset, w: int, h: int) -> Seq<
    VisibleBlock,
> {
    let cx = spec_chunk(w);
    let cz = spec_chunk(h);
    vis_cols(
        g,
        o,
        w,
        h,
        spec_win_lo(o.x as int, cx),
        spec_win_hi(o.x as int, cx),
        spec_win_lo(o.z as int, cz),
        spec_win_hi(o.z as int, cz),
    )
}

proof fn seq_add_assoc<T>(a: Seq<T>, b: Seq<T>, c: Seq<T>)
    ensures
        (a + b) + c == a + (b + c),
{
    assert((a + b) + c =~= a + (b + c));
}

proof fn seq_add_empty<T>(a: Seq<T>)
    ensures
        a + Seq::<T>::empty() == a,
        Seq::<T>::empty() + a == a,
{
    assert(a + Seq::<T>::empty() =~= a);
    assert(Seq::<T>::empty() + a =~= a);
}

proof fn seq_push_is_add<T>(a: Seq<T>, e: T)
    ensures
        a.push(e) == a + seq![e],
{
    assert(a.push(e) =~= a + seq![e]);
}

/// Executable form of `spec_chunk`.
fn chunk_of(px: u32) -> (r: usize)
    ensures
        r == spec_chunk(px as int),
        r <= 128,
{
    let d = px / 588;
    if d > 128 {
        128
    } else {
        d as usize
    }
}

/// Executable form of `spec_win_lo`.
fn win_lo(t: i32, chunk: usize) -> (r: usize)
    requires
        chunk <= 128,
    ensures
        r == spec_win_lo(t as int, chunk as int),
{
    let v: i64 = t as i64 - 420 * (chunk as i64);
    if v < 0 {
        0
    } else {
        ((v as u64) / 10) as usize
    }
}

/// Executable form of `spec_win_hi`.
fn win_hi(t: i32, chunk: usize) -> (r: usize)
    requires
        chunk <= 128,
    ensures
        r == spec_win_hi(t as int, chunk as int),
        r <= 128,
{
    let v: i64 = t as i64 + 420 * (chunk as i64);
    if v < 0 {
        0
    } else {
        let d = (v as u64) / 10;
        if d > 128 {
            128
        } else {
            d as usize
        }
    }
}

/// The occlusion test: walks the fixed diagonal up to four steps and reports
/// whether an in-bounds opaque voxel was met.
fn occluded_at(blocks: &Vec<Block>, x: usize, y: usize, z: usize) -> (r: bool)
    requires
        blocks@.len() == WORLD_CELLS,
        in_bounds(x as int, y as int, z as int),
    ensures
        r == spec_occluded(types_of(blocks@), x as int, y as int, z as int),
{
    let ghost g = types_of(blocks@);
    let mut i: usize = 1;
    while i < 5
        invariant
            1 <= i <= 5,
            blocks@.len() == WORLD_CELLS,
            in_bounds(x as int, y as int, z as int),
            g == types_of(blocks@),
            forall|j: int|
                1 <= j < i && x + j < 128 && y + j < 64 && z + j < 128
                    ==> !spec_is_non_transparent(
                    #[trigger] g[cell_index(x as int + j, y as int + j, z as int + j)],
                ),
        decreases 5 - i,
    {
        let nx = x + i;
        let ny = y + i;
        let nz = z + i;
        if nx >= 128 || ny >= 64 || nz >= 128 {
            proof {
                assert forall|j: int| 1 <= j < 5 implies !(x + j < 128 && y + j < 64 && z + j
                    < 128 && spec_is_non_transparent(
                    #[trigger] g[cell_index(x as int + j, y as int + j, z as int + j)],
                )) by {
                    if j >= i {
                        assert(!(x + j < 128 && y + j < 64 && z + j < 128));
                    }
                }
            }
            return false;
        }
        let ci = cell_at(nx, ny, nz);
        if BlockType::is_non_transparent(blocks[ci].block_type) {
            proof {
                assert(spec_is_non_transparent(
                    g[cell_index(x as int + i, y as int + i, z as int + i)],
                ));
            }
            return true;
        }
        i += 1;
    }
    false
}

/// Recomputes the visible set: scans the camera-relative window, projects,
/// applies the margin and occlusion tests, and collects every qualifying
/// voxel in scan order.
pub fn compute_visible(blocks: &Vec<Block>, o: ViewOffset, w: u32, h: u32) -> (r: Vec<VisibleBlock>)
    requires
        blocks@.len() == WORLD_CELLS,
    ensures
        r@ == spec_visible(types_of(blocks@), o, w as int, h as int),
{
    let ghost g = types_of(blocks@);
    let cx = chunk_of(w);
    let cz = chunk_of(h);
    let x_lo = win_lo(o.x, cx);
    let x_hi = win_hi(o.x, cx);
    let z_lo = win_lo(o.z, cz);
    let z_hi = win_hi(o.z, cz);
    let ghost total = spec_visible(g, o, w as int, h as int);
    let mut acc: Vec<VisibleBlock> = Vec::new();
    let x_start = if x_lo > x_hi {
        x_hi
    } else {
        x_lo
    };
    let z_start = if z_lo > z_hi {
        z_hi
    } else {
        z_lo
    };
    proof {
        seq_add_empty(vis_cols(g, o, w as int, h as int, x_lo as int, x_hi as int, z_lo as int, z_hi as int));
        assert(vis_cols(g, o, w as int, h as int, x_lo as int, x_hi as int, z_lo as int, z_hi as int)
            == vis_cols(g, o, w as int, h as int, x_start as int, x_hi as int, z_lo as int, z_hi as int));
    }
    for x in x_start..x_hi
        invariant
            blocks@.len() == WORLD_CELLS,
            g == types_of(blocks@),
            x_hi <= 128,
            z_hi <= 128,
            z_start <= z_hi,
            z_lo <= z_hi ==> z_start == z_lo,
            z_lo > z_hi ==> z_start == z_hi,
            total == spec_visible(g, o, w as int, h as int),
            total == acc@ + vis_cols(g, o, w as int, h as int, x as int, x_hi as int, z_lo as int, z_hi as int),
    {
        proof {
            seq_add_assoc(
                acc@,
                vis_col(g, o, w as int, h as int, x as int, 0, z_lo as int, z_hi as int),
                vis_cols(g, o, w as int, h as int, x as int + 1, x_hi as int, z_lo as int, z_hi as int),
            );
        }
        for y in 0..64usize
            invariant
                blocks@.len() == WORLD_CELLS,
                g == types_of(blocks@),
                x < x_hi <= 128,
                z_hi <= 128,
                z_start <= z_hi,
            z_lo <= z_hi ==> z_start == z_lo,
            z_lo > z_hi ==> z_start == z_hi,
                total == spec_visible(g, o, w as int, h as int),
                total == (acc@ + vis_col(g, o, w as int, h as int, x as int, y as int, z_lo as int, z_hi as int)) + vis_cols(g, o, w as int, h as int, x as int + 1, x_hi as int, z_lo as int, z_hi as int),
        {
            proof {
                seq_add_assoc(
                    acc@,
                    vis_row(g, o, w as int, h as int, x as int, y as int, z_lo as int, z_hi as int),
                    vis_col(g, o, w as int, h as int, x as int, y as int + 1, z_lo as int, z_hi as int),
                );
                assert(vis_row(g, o, w as int, h as int, x as int, y as int, z_lo as int, z_hi as int)
                    == vis_row(g, o, w as int, h as int, x as int, y as int, z_start as int, z_hi as int));
            }
            for z in z_start..z_hi
                invariant
                    blocks@.len() == WORLD_CELLS,
                    g == types_of(blocks@),
                    x < x_hi <= 128,
                    y < 64,
                    z_hi <= 128,
                    total == spec_visible(g, o, w as int, h as int),
                    total == ((acc@ + vis_row(g, o, w as int, h as int, x as int, y as int, z as int, z_hi as int)) + vis_col(g, o, w as int, h as int, x as int, y as int + 1, z_lo as int, z_hi as int)) + vis_cols(g, o, w as int, h as int, x as int + 1, x_hi as int, z_lo as int, z_hi as int),
            {
                let sx: i64 = (10 * (x as i64 - z as i64) - o.x as i64 + o.z as i64) * 42;
                let sy: i64 = (10 * (x as i64 + z as i64) - o.x as i64 - o.z as i64) * 21 - (10
                    * (y as i64) - o.y as i64) * 42;
                let ghost qrest = vis_row(
                    g,
                    o,
                    w as int,
                    h as int,
                    x as int,
                    y as int,
                    z as int + 1,
                    z_hi as int,
                );
                let in_margin = !(sx < -1680 || sx > 10 * (w as i64) + 1680 || sy < -1680 || sy > 10
                    * (h as i64) + 1680);
                proof {
                    assert(in_margin == spec_in_margin(
                        o,
                        w as int,
                        h as int,
                        x as int,
                        y as int,
                        z as int,
                    ));
                }
                if in_margin {
                    let occl = occluded_at(blocks, x, y, z);
                    if !occl {
                        let ci = cell_at(x, y, z);
                        let t = blocks[ci].block_type;
                        if !(t == BlockType::Air) {
                            let e = VisibleBlock { screen_x: sx, screen_y: sy, block_type: t };
                            proof {
                                assert(spec_qual(g, o, w as int, h as int, x as int, y as int, z as int));
                                assert(e == spec_entry(g, o, x as int, y as int, z as int));
                                seq_push_is_add(acc@, e);
                                seq_add_assoc(acc@, seq![e], qrest);
                            }
                            acc.push(e);
                        } else {
                            proof {
                                assert(!spec_qual(g, o, w as int, h as int, x as int, y as int, z as int));
                            }
                        }
                    } else {
                        proof {
                            assert(!spec_qual(g, o, w as int, h as int, x as int, y as int, z as int));
                        }
                    }
                } else {
                    proof {
                        assert(!spec_qual(g, o, w as int, h as int, x as int, y as int, z as int));
                    }
                }
            }
            proof {
                seq_add_empty(acc@);
            }
        }
        proof {
            seq_add_empty(acc@);
        }
    }
    proof {
        seq_add_empty(acc@);
    }
    acc
}


/// Every cached screen coordinate is small enough that shifting it by a draw
/// offset stays within machine bounds.
pub open spec fn entries_bounded(s: Seq<VisibleBlock>) -> bool {
    forall|k: int|
        0 <= k < s.len() ==> (-0x80_0000_0000 <= (#[trigger] s[k]).screen_x <= 0x80_0000_0000
            && -0x80_0000_0000 <= s[k].screen_y <= 0x80_0000_0000)
}

proof fn lemma_vis_row_bounded(
    g: Seq<BlockType>,
    o: ViewOffset,
    w: int,
    h: int,
    x: int,
    y: int,
    z: int,
    z_hi: int,
)
    requires
        0 <= x < 128,
        0 <= y < 64,
        0 <= z,
        z_hi <= 128,
    ensures
        entries_bounded(vis_row(g, o, w, h, x, y, z, z_hi)),
    decreases z_hi - z,
{
    if z < z_hi {
        lemma_vis_row_bounded(g, o, w, h, x, y, z + 1, z_hi);
        assert(-0x80_0000_0000 <= spec_screen_x(o, x, z) <= 0x80_0000_0000);
        assert(-0x80_0000_0000 <= spec_screen_y(o, x, y, z) <= 0x80_0000_0000);
    }
}

proof fn lemma_vis_col_bounded(
    g: Seq<BlockType>,
    o: ViewOffset,
    w: int,
    h: int,
    x: int,
    y: int,
    z_lo: int,
    z_hi: int,
)
    requires
        0 <= x < 128,
        0 <= z_lo,
        z_hi <= 128,
    ensures
        entries_bounded(vis_col(g, o, w, h, x, y, z_lo, z_hi)),
    decreases 64 - y,
{
    if 0 <= y < 64 {
        lemma_vis_row_bounded(g, o, w, h, x, y, z_lo, z_hi);
        lemma_vis_col_bounded(g, o, w, h, x, y + 1, z_lo, z_hi);
    }
}

proof fn lemma_vis_cols_bounded(
    g: Seq<BlockType>,
    o: ViewOffset,
    w: int,
    h: int,
    x: int,
    x_hi: int,
    z_lo: int,
    z_hi: int,
)
    requires
        0 <= x,
        x_hi <= 128,
        0 <= z_lo,
        z_hi <= 128,
    ensures
        entries_bounded(vis_cols(g, o, w, h, x, x_hi, z_lo, z_hi)),
    decreases x_hi - x,
{
    if x < x_hi {
        lemma_vis_col_bounded(g, o, w, h, x, 0, z_lo, z_hi);
        lemma_vis_cols_bounded(g, o, w, h, x + 1, x_hi, z_lo, z_hi);
    }
}

/// The screen coordinates of every entry of a visible set are bounded, so a
/// draw offset can be added to them without overflow.
pub proof fn lemma_visible_bounded(g: Seq<BlockType>, o: ViewOffset, w: int, h: int)
    ensures
        entries_bounded(spec_visible(g, o, w, h)),
{
    let cx = spec_chunk(w);
    let cz = spec_chunk(h);
    assert(spec_win_lo(o.x as int, cx) >= 0) by (nonlinear_arith);
    assert(spec_win_lo(o.z as int, cz) >= 0) by (nonlinear_arith);
    lemma_vis_cols_bounded(
        g,
        o,
        w,
        h,
        spec_win_lo(o.x as int, cx),
        spec_win_hi(o.x as int, cx),
        spec_win_lo(o.z as int, cz),
        spec_win_hi(o.z as int, cz),
    );
}


/// Whether `(x, y, z)` lies in the scan window used for offset `o` and
/// viewport `w` by `h`.
pub open spec fn in_window(o: ViewOffset, w: int, h: int, x: int, y: int, z: int) -> bool {
    let cx = spec_chunk(w);
    let cz = spec_chunk(h);
    &&& spec_win_lo(o.x as int, cx) <= x < spec_win_hi(o.x as int, cx)
    &&& 0 <= y < 64
    &&& spec_win_lo(o.z as int, cz) <= z < spec_win_hi(o.z as int, cz)
}

/// Whether `e` is the visible-set entry of the qualifying in-window voxel
/// `(x, y, z)`.
pub open spec fn is_entry_for(
    g: Seq<BlockType>,
    o: ViewOffset,
    w: int,
    h: int,
    e: VisibleBlock,
    x: int,
    y: int,
    z: int,
) -> bool {
    &&& in_window(o, w, h, x, y, z)
    &&& spec_qual(g, o, w, h, x, y, z)
    &&& e == spec_entry(g, o, x, y, z)
}

proof fn lemma_vis_row_sound(
    g: Seq<BlockType>,
    o: ViewOffset,
    w: int,
    h: int,
    x: int,
    y: int,
    z: int,
    z_hi: int,
    k: int,
)
    requires
        0 <= k < vis_row(g, o, w, h, x, y, z, z_hi).len(),
    ensures
        exists|zz: int|
            z <= zz < z_hi && #[trigger] spec_qual(g, o, w, h, x, y, zz) && vis_row(
                g,
                o,
                w,
                h,
                x,
                y,
                z,
                z_hi,
            )[k] == spec_entry(g, o, x, y, zz),
    decreases z_hi - z,
{
    let s = vis_row(g, o, w, h, x, y, z, z_hi);
    let rest = vis_row(g, o, w, h, x, y, z + 1, z_hi);
    if spec_qual(g, o, w, h, x, y, z) && k == 0 {
        assert(z <= z < z_hi && spec_qual(g, o, w, h, x, y, z) && s[0] == spec_entry(
            g,
            o,
            x,
            y,
            z,
        ));
    } else if spec_qual(g, o, w, h, x, y, z) {
        lemma_vis_row_sound(g, o, w, h, x, y, z + 1, z_hi, k - 1);
        let zz = choose|zz: int|
            z + 1 <= zz < z_hi && #[trigger] spec_qual(g, o, w, h, x, y, zz) && rest[k - 1]
                == spec_entry(g, o, x, y, zz);
        assert(s[k] == rest[k - 1]);
        assert(z <= zz < z_hi && spec_qual(g, o, w, h, x, y, zz) && s[k] == spec_entry(
            g,
            o,
            x,
            y,
            zz,
        ));
    } else {
        lemma_vis_row_sound(g, o, w, h, x, y, z + 1, z_hi, k);
    }
}

proof fn lemma_vis_col_sound(
    g: Seq<BlockType>,
    o: ViewOffset,
    w: int,
    h: int,
    x: int,
    y: int,
    z_lo: int,
    z_hi: int,
    k: int,
)
    requires
        0 <= k < vis_col(g, o, w, h, x, y, z_lo, z_hi).len(),
        0 <= y,
    ensures
        exists|yy: int, zz: int|
            y <= yy < 64 && z_lo <= zz < z_hi && #[trigger] spec_qual(g, o, w, h, x, yy, zz)
                && vis_col(g, o, w, h, x, y, z_lo, z_hi)[k] == spec_entry(g, o, x, yy, zz),
    decreases 64 - y,
{
    let s = vis_col(g, o, w, h, x, y, z_lo, z_hi);
    let row = vis_row(g, o, w, h, x, y, z_lo, z_hi);
    let rest = vis_col(g, o, w, h, x, y + 1, z_lo, z_hi);
    if k < row.len() {
        lemma_vis_row_sound(g, o, w, h, x, y, z_lo, z_hi, k);
        let zz = choose|zz: int|
            z_lo <= zz < z_hi && #[trigger] spec_qual(g, o, w, h, x, y, zz) && row[k]
                == spec_entry(g, o, x, y, zz);
        assert(s[k] == row[k]);
        assert(y <= y < 64 && z_lo <= zz < z_hi && spec_qual(g, o, w, h, x, y, zz) && s[k]
            == spec_entry(g, o, x, y, zz));
    } else {
        lemma_vis_col_sound(g, o, w, h, x, y + 1, z_lo, z_hi, k - row.len());
        let (yy, zz) = choose|yy: int, zz: int|
            y + 1 <= yy < 64 && z_lo <= zz < z_hi && #[trigger] spec_qual(g, o, w, h, x, yy, zz)
                && rest[k - row.len()] == spec_entry(g, o, x, yy, zz);
        assert(s[k] == rest[k - row.len()]);
        assert(y <= yy < 64 && z_lo <= zz < z_hi && spec_qual(g, o, w, h, x, yy, zz) && s[k]
            == spec_entry(g, o, x, yy, zz));
    }
}

proof fn lemma_vis_cols_sound(
    g: Seq<BlockType>,
    o: ViewOffset,
    w: int,
    h: int,
    x: int,
    x_hi: int,
    z_lo: int,
    z_hi: int,
    k: int,
)
    requires
        0 <= k < vis_cols(g, o, w, h, x, x_hi, z_lo, z_hi).len(),
    ensures
        exists|xx: int, yy: int, zz: int|
            x <= xx < x_hi && 0 <= yy < 64 && z_lo <= zz < z_hi && #[trigger] spec_qual(
                g,
                o,
                w,
                h,
                xx,
                yy,
                zz,
            ) && vis_cols(g, o, w, h, x, x_hi, z_lo, z_hi)[k] == spec_entry(g, o, xx, yy, zz),
    decreases x_hi - x,
{
    let s = vis_cols(g, o, w, h, x, x_hi, z_lo, z_hi);
    let col = vis_col(g, o, w, h, x, 0, z_lo, z_hi);
    let rest = vis_cols(g, o, w, h, x + 1, x_hi, z_lo, z_hi);
    if k < col.len() {
        lemma_vis_col_sound(g, o, w, h, x, 0, z_lo, z_hi, k);
        let (yy, zz) = choose|yy: int, zz: int|
            0 <= yy < 64 && z_lo <= zz < z_hi && #[trigger] spec_qual(g, o, w, h, x, yy, zz)
                && col[k] == spec_entry(g, o, x, yy, zz);
        assert(s[k] == col[k]);
        assert(x <= x < x_hi && 0 <= yy < 64 && z_lo <= zz < z_hi && spec_qual(
            g,
            o,
            w,
            h,
            x,
            yy,
            zz,
        ) && s[k] == spec_entry(g, o, x, yy, zz));
    } else {
        lemma_vis_cols_sound(g, o, w, h, x + 1, x_hi, z_lo, z_hi, k - col.len());
        let (xx, yy, zz) = choose|xx: int, yy: int, zz: int|
            x + 1 <= xx < x_hi && 0 <= yy < 64 && z_lo <= zz < z_hi && #[trigger] spec_qual(
                g,
                o,
                w,
                h,
                xx,
                yy,
                zz,
            ) && rest[k - col.len()] == spec_entry(g, o, xx, yy, zz);
        assert(s[k] == rest[k - col.len()]);
        assert(x <= xx < x_hi && 0 <= yy < 64 && z_lo <= zz < z_hi && spec_qual(
            g,
            o,
            w,
            h,
            xx,
            yy,
            zz,
        ) && s[k] == spec_entry(g, o, xx, yy, zz));
    }
}

/// Visibility soundness: every entry of the visible set is the projection of
/// some qualifying in-window voxel — re-running the margin and occlusion
/// tests on that voxel confirms it.
pub proof fn lemma_visible_sound(g: Seq<BlockType>, o: ViewOffset, w: int, h: int, k: int)
    requires
        0 <= k < spec_visible(g, o, w, h).len(),
    ensures
        exists|xx: int, yy: int, zz: int|
            #[trigger] is_entry_for(g, o, w, h, spec_visible(g, o, w, h)[k], xx, yy, zz),
{
    let cx = spec_chunk(w);
    let cz = spec_chunk(h);
    lemma_vis_cols_sound(
        g,
        o,
        w,
        h,
        spec_win_lo(o.x as int, cx),
        spec_win_hi(o.x as int, cx),
        spec_win_lo(o.z as int, cz),
        spec_win_hi(o.z as int, cz),
        k,
    );
    let (xx, yy, zz) = choose|xx: int, yy: int, zz: int|
        spec_win_lo(o.x as int, cx) <= xx < spec_win_hi(o.x as int, cx) && 0 <= yy < 64
            && spec_win_lo(o.z as int, cz) <= zz < spec_win_hi(o.z as int, cz)
            && #[trigger] spec_qual(g, o, w, h, xx, yy, zz) && spec_visible(g, o, w, h)[k]
            == spec_entry(g, o, xx, yy, zz);
    assert(is_entry_for(g, o, w, h, spec_visible(g, o, w, h)[k], xx, yy, zz));
}

proof fn lemma_vis_row_complete(
    g: Seq<BlockType>,
    o: ViewOffset,
    w: int,
    h: int,
    x: int,
    y: int,
    z: int,
    z_hi: int,
    zz: int,
)
    requires
        z <= zz < z_hi,
        spec_qual(g, o, w, h, x, y, zz),
    ensures
        vis_row(g, o, w, h, x, y, z, z_hi).contains(spec_entry(g, o, x, y, zz)),
    decreases z_hi - z,
{
    let s = vis_row(g, o, w, h, x, y, z, z_hi);
    let rest = vis_row(g, o, w, h, x, y, z + 1, z_hi);
    let e = spec_entry(g, o, x, y, zz);
    if zz == z {
        assert(s[0] == e);
    } else {
        lemma_vis_row_complete(g, o, w, h, x, y, z + 1, z_hi, zz);
        let i = choose|i: int| 0 <= i < rest.len() && rest[i] == e;
        if spec_qual(g, o, w, h, x, y, z) {
            assert(s[i + 1] == e);
        } else {
            assert(s[i] == e);
        }
    }
}

proof fn lemma_vis_col_complete(
    g: Seq<BlockType>,
    o: ViewOffset,
    w: int,
    h: int,
    x: int,
    y: int,
    z_lo: int,
    z_hi: int,
    yy: int,
    zz: int,
)
    requires
        0 <= y <= yy < 64,
        z_lo <= zz < z_hi,
        spec_qual(g, o, w, h, x, yy, zz),
    ensures
        vis_col(g, o, w, h, x, y, z_lo, z_hi).contains(spec_entry(g, o, x, yy, zz)),
    decreases 64 - y,
{
    let s = vis_col(g, o, w, h, x, y, z_lo, z_hi);
    let row = vis_row(g, o, w, h, x, y, z_lo, z_hi);
    let rest = vis_col(g, o, w, h, x, y + 1, z_lo, z_hi);
    let e = spec_entry(g, o, x, yy, zz);
    if yy == y {
        lemma_vis_row_complete(g, o, w, h, x, y, z_lo, z_hi, zz);
        let i = choose|i: int| 0 <= i < row.len() && row[i] == e;
        assert(s[i] == e);
    } else {
        lemma_vis_col_complete(g, o, w, h, x, y + 1, z_lo, z_hi, yy, zz);
        let i = choose|i: int| 0 <= i < rest.len() && rest[i] == e;
        assert(s[row.len() + i] == e);
    }
}

proof fn lemma_vis_cols_complete(
    g: Seq<BlockType>,
    o: ViewOffset,
    w: int,
    h: int,
    x: int,
    x_hi: int,
    z_lo: int,
    z_hi: int,
    xx: int,
    yy: int,
    zz: int,
)
    requires
        x <= xx < x_hi,
        0 <= yy < 64,
        z_lo <= zz < z_hi,
        spec_qual(g, o, w, h, xx, yy, zz),
    ensures
        vis_cols(g, o, w, h, x, x_hi, z_lo, z_hi).contains(spec_entry(g, o, xx, yy, zz)),
    decreases x_hi - x,
{
    let s = vis_cols(g, o, w, h, x, x_hi, z_lo, z_hi);
    let col = vis_col(g, o, w, h, x, 0, z_lo, z_hi);
    let rest = vis_cols(g, o, w, h, x + 1, x_hi, z_lo, z_hi);
    let e = spec_entry(g, o, xx, yy, zz);
    if xx == x {
        lemma_vis_col_complete(g, o, w, h, x, 0, z_lo, z_hi, yy, zz);
        let i = choose|i: int| 0 <= i < col.len() && col[i] == e;
        assert(s[i] == e);
    } else {
        lemma_vis_cols_complete(g, o, w, h, x + 1, x_hi, z_lo, z_hi, xx, yy, zz);
        let i = choose|i: int| 0 <= i < rest.len() && rest[i] == e;
        assert(s[col.len() + i] == e);
    }
}

/// Visibility completeness: every qualifying in-window voxel contributes its
/// entry to the visible set.
pub proof fn lemma_visible_complete(
    g: Seq<BlockType>,
    o: ViewOffset,
    w: int,
    h: int,
    x: int,
    y: int,
    z: int,
)
    requires
        in_window(o, w, h, x, y, z),
        spec_qual(g, o, w, h, x, y, z),
    ensures
        spec_visible(g, o, w, h).contains(spec_entry(g, o, x, y, z)),
{
    let cx = spec_chunk(w);
    let cz = spec_chunk(h);
    lemma_vis_cols_complete(
        g,
        o,
        w,
        h,
        spec_win_lo(o.x as int, cx),
        spec_win_hi(o.x as int, cx),
        spec_win_lo(o.z as int, cz),
        spec_win_hi(o.z as int, cz),
        x,
        y,
        z,
    );
}

/// Number of qualifying voxels of row `(x, y)` for z in `[z, z_hi)`.
pub open spec fn count_row(
    g: Seq<BlockType>,
    o: ViewOffset,
    w: int,
    h: int,
    x: int,
    y: int,
    z: int,
    z_hi: int,
) -> nat
    decreases z_hi - z,
{
    if z >= z_hi {
        0
    } else {
        (if spec_qual(g, o, w, h, x, y, z) {
            1nat
        } else {
            0nat
        }) + count_row(g, o, w, h, x, y, z + 1, z_hi)
    }
}

/// Number of qualifying voxels of column plane `x` for heights in `[y, 64)`.
pub open spec fn count_col(
    g: Seq<BlockType>,
    o: ViewOffset,
    w: int,
    h: int,
    x: int,
    y: int,
    z_lo: int,
    z_hi: int,
) -> nat
    decreases 64 - y,
{
    if y < 0 || y >= 64 {
        0
    } else {
        count_row(g, o, w, h, x, y, z_lo, z_hi) + count_col(g, o, w, h, x, y + 1, z_lo, z_hi)
    }
}

/// Number of qualifying voxels of the window for x in `[x, x_hi)`.
pub open spec fn count_cols(
    g: Seq<BlockType>,
    o: ViewOffset,
    w: int,
    h: int,
    x: int,
    x_hi: int,
    z_lo: int,
    z_hi: int,
) -> nat
    decreases x_hi - x,
{
    if x >= x_hi {
        0
    } else {
        count_col(g, o, w, h, x, 0, z_lo, z_hi) + count_cols(g, o, w, h, x + 1, x_hi, z_lo, z_hi)
    }
}

/// Number of qualifying in-window voxels.
pub open spec fn count_visible(g: Seq<BlockType>, o: ViewOffset, w: int, h: int) -> nat {
    let cx = spec_chunk(w);
    let cz = spec_chunk(h);
    count_cols(
        g,
        o,
        w,
        h,
        spec_win_lo(o.x as int, cx),
        spec_win_hi(o.x as int, cx),
        spec_win_lo(o.z as int, cz),
        spec_win_hi(o.z as int, cz),
    )
}

proof fn lemma_vis_row_len(
    g: Seq<BlockType>,
    o: ViewOffset,
    w: int,
    h: int,
    x: int,
    y: int,
    z: int,
    z_hi: int,
)
    ensures
        vis_row(g, o, w, h, x, y, z, z_hi).len() == count_row(g, o, w, h, x, y, z, z_hi),
    decreases z_hi - z,
{
    if z < z_hi {
        lemma_vis_row_len(g, o, w, h, x, y, z + 1, z_hi);
    }
}

proof fn lemma_vis_col_len(
    g: Seq<BlockType>,
    o: ViewOffset,
    w: int,
    h: int,
    x: int,
    y: int,
    z_lo: int,
    z_hi: int,
)
    ensures
        vis_col(g, o, w, h, x, y, z_lo, z_hi).len() == count_col(g, o, w, h, x, y, z_lo, z_hi),
    decreases 64 - y,
{
    if 0 <= y < 64 {
        lemma_vis_row_len(g, o, w, h, x, y, z_lo, z_hi);
        lemma_vis_col_len(g, o, w, h, x, y + 1, z_lo, z_hi);
    }
}

proof fn lemma_vis_cols_len(
    g: Seq<BlockType>,
    o: ViewOffset,
    w: int,
    h: int,
    x: int,
    x_hi: int,
    z_lo: int,
    z_hi: int,
)
    ensures
        vis_cols(g, o, w, h, x, x_hi, z_lo, z_hi).len() == count_cols(
            g,
            o,
            w,
            h,
            x,
            x_hi,
            z_lo,
            z_hi,
        ),
    decreases x_hi - x,
{
    if x < x_hi {
        lemma_vis_col_len(g, o, w, h, x, 0, z_lo, z_hi);
        lemma_vis_cols_len(g, o, w, h, x + 1, x_hi, z_lo, z_hi);
    }
}

/// The visible set holds exactly one entry per qualifying in-window voxel:
/// together with soundness and completeness this pins the set to those
/// voxels' projections, with no duplicates and no omissions.
pub proof fn lemma_visible_len_is_count(g: Seq<BlockType>, o: ViewOffset, w: int, h: int)
    ensures
        spec_visible(g, o, w, h).len() == count_visible(g, o, w, h),
{
    let cx = spec_chunk(w);
    let cz = spec_chunk(h);
    lemma_vis_cols_len(
        g,
        o,
        w,
        h,
        spec_win_lo(o.x as int, cx),
        spec_win_hi(o.x as int, cx),
        spec_win_lo(o.z as int, cz),
        spec_win_hi(o.z as int, cz),
    );
}

} // verus!
