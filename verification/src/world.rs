//! The world: an immutable voxel grid generated once from a seed and the
//! quantized noise fields, a cached visible set, and the change-detected
//! recompute that keeps the cache fresh.

use vstd::prelude::*;
use crate::grid::WORLD_CELLS;
use crate::grid::WORLD_COLS;
use crate::grid::cell_index;
use crate::grid::in_bounds;
use crate::grid::cell_at;
use crate::grid::lemma_cell_index_coords;
use crate::rng::Rng;
use crate::rng::SEED_MIX;
use crate::rng::fill_rolls;
use crate::rng::spec_rolls;
use crate::rng::spec_state_after;
use crate::template::tree_template;
use crate::terrain::FLOWER_COLS;
use crate::terrain::apply_flowers;
use crate::terrain::apply_trees;
use crate::terrain::build_base_grid;
use crate::terrain::spec_base_grid;
use crate::terrain::spec_flower_fold;
use crate::terrain::spec_tree_fold;
use crate::terrain::types_of;
use crate::visibility::ViewOffset;
use crate::visibility::VisibleBlock;
use crate::visibility::compute_visible;
use crate::visibility::entries_bounded;
use crate::visibility::lemma_visible_bounded;
use crate::visibility::spec_visible;
use crate::voxel::Block;
use crate::voxel::BlockType;

verus! {

/// The complete world grid produced by generation from a seed and the
/// quantized noise fields: the base strata with carved caves and bedrock
/// veins, then the tree-placement scan, then the flower scan.
pub open spec fn spec_world_grid(
    seed: u64,
    heights: Seq<i32>,
    carved: Seq<bool>,
    patches: Seq<bool>,
) -> Seq<BlockType> {
    let s0 = seed ^ SEED_MIX;
    let veins = spec_rolls(s0, WORLD_COLS as nat, 3);
    let s1 = spec_state_after(s0, WORLD_COLS as nat);
    let rolls = spec_rolls(s1, WORLD_COLS as nat, 100);
    let s2 = spec_state_after(s1, WORLD_COLS as nat);
    let kinds = spec_rolls(s2, FLOWER_COLS as nat, 2);
    spec_flower_fold(
        spec_tree_fold(spec_base_grid(heights, carved, veins), heights, rolls, WORLD_COLS as nat),
        heights,
        patches,
        kinds,
        FLOWER_COLS as nat,
    )
}

/// The world: the immutable grid, the cached visible set, the viewpoint the
/// cache was computed for, and a count of recomputes.
pub struct World {
    blocks: Vec<Block>,
    visible_blocks: Vec<VisibleBlock>,
    last_display_offset: ViewOffset,
    recompute_count: u64,
}

impl World {
    /// The grid as a sequence of voxel types, indexed by `cell_index`.
    pub closed spec fn types(self) -> Seq<BlockType> {
        types_of(self.blocks@)
    }

    /// The cached visible set.
    pub closed spec fn visible(self) -> Seq<VisibleBlock> {
        self.visible_blocks@
    }

    /// The viewpoint the cached visible set was computed for.
    pub closed spec fn last_offset_view(self) -> ViewOffset {
        self.last_display_offset
    }

    /// How many times the visible set has been recomputed.
    pub closed spec fn recomputes(self) -> u64 {
        self.recompute_count
    }

    /// Well-formedness: the grid is fully populated, and the cached screen
    /// coordinates are small enough that a draw offset cannot overflow them.
    pub closed spec fn wf(self) -> bool {
        &&& self.blocks@.len() == WORLD_CELLS
        &&& entries_bounded(self.visible_blocks@)
    }

    /// Generates the world. The resulting grid is a function of the seed and
    /// the fields alone, so a fixed seed reproduces it exactly; the visible
    /// set starts empty and no recompute has run.
    pub fn new(seed: u64, heights: &Vec<i32>, carved: &Vec<bool>, patches: &Vec<bool>) -> (r:
        World)
        requires
            heights@.len() == WORLD_COLS,
            carved@.len() == WORLD_CELLS,
            patches@.len() == WORLD_COLS,
        ensures
            r.wf(),
            r.types() == spec_world_grid(seed, heights@, carved@, patches@),
            r.visible() == Seq::<VisibleBlock>::empty(),
            r.last_offset_view() == (ViewOffset { x: 0, y: 0, z: 0 }),
            r.recomputes() == 0,
    {
        let mut rng = Rng::new(seed);
        let veins = fill_rolls(&mut rng, WORLD_COLS, 3);
        let rolls = fill_rolls(&mut rng, WORLD_COLS, 100);
        let kinds = fill_rolls(&mut rng, FLOWER_COLS, 2);
        let tree = tree_template();
        let mut blocks = build_base_grid(heights, carved, &veins);
        apply_trees(&mut blocks, heights, &rolls, &tree);
        apply_flowers(&mut blocks, heights, patches, &kinds);
        World {
            blocks,
            visible_blocks: Vec::new(),
            last_display_offset: ViewOffset { x: 0, y: 0, z: 0 },
            recompute_count: 0,
        }
    }

    /// The voxel type at `(x, y, z)`.
    pub fn voxel(&self, x: usize, y: usize, z: usize) -> (r: BlockType)
        requires
            self.wf(),
            in_bounds(x as int, y as int, z as int),
        ensures
            r == self.types()[cell_index(x as int, y as int, z as int)],
    {
        let i = cell_at(x, y, z);
        self.blocks[i].block_type
    }

    /// Recomputes the visible set for the given viewpoint and viewport,
    /// replacing the cache wholesale and counting the recompute. The
    /// viewpoint the cache is keyed on is left to the caller.
    pub fn update_visibility(&mut self, display_offset: ViewOffset, width: u32, height: u32)
        requires
            old(self).wf(),
            old(self).recomputes() < u64::MAX,
        ensures
            final(self).wf(),
            final(self).types() == old(self).types(),
            final(self).visible() == spec_visible(
                old(self).types(),
                display_offset,
                width as int,
                height as int,
            ),
            final(self).last_offset_view() == old(self).last_offset_view(),
            final(self).recomputes() == old(self).recomputes() + 1,
    {
        let vis = compute_visible(&self.blocks, display_offset, width, height);
        proof {
            lemma_visible_bounded(
                types_of(self.blocks@),
                display_offset,
                width as int,
                height as int,
            );
        }
        self.visible_blocks = vis;
        self.recompute_count = self.recompute_count + 1;
    }

    /// Recomputes only when the viewpoint moved: offsets are already in
    /// tenths of a unit, the quantization that absorbs sub-pixel jitter, so
    /// an equal offset leaves the cache, the stored viewpoint and the
    /// recompute count untouched.
    pub fn update_visibility_if_moved(
        &mut self,
        display_offset: ViewOffset,
        width: u32,
        height: u32,
    )
        requires
            old(self).wf(),
            old(self).recomputes() < u64::MAX,
        ensures
            final(self).wf(),
            final(self).types() == old(self).types(),
            display_offset == old(self).last_offset_view() ==> *final(self) == *old(self),
            display_offset != old(self).last_offset_view() ==> {
                &&& final(self).visible() == spec_visible(
                    old(self).types(),
                    display_offset,
                    width as int,
                    height as int,
                )
                &&& final(self).last_offset_view() == display_offset
                &&& final(self).recomputes() == old(self).recomputes() + 1
            },
    {
        if display_offset == self.last_display_offset {
            return ;
        }
        self.last_display_offset = display_offset;
        self.update_visibility(display_offset, width, height);
    }

    /// The draw operations for the cached visible set under the given
    /// viewpoint: each entry's screen position shifted by the offset's x and
    /// y components, with its voxel type. The visible set itself is not
    /// changed.
    pub fn draw_commands(&self, display_offset: ViewOffset) -> (r: Vec<(i64, i64, BlockType)>)
        requires
            self.wf(),
        ensures
            r@.len() == self.visible().len(),
            forall|k: int|
                0 <= k < r@.len() ==> (#[trigger] r@[k]).0 as int == self.visible()[k].screen_x
                    as int + display_offset.x as int && r@[k].1 as int == self.visible()[k].screen_y
                    as int + display_offset.y as int && r@[k].2 == self.visible()[k].block_type,
    {
        let mut cmds: Vec<(i64, i64, BlockType)> = Vec::new();
        let n = self.visible_blocks.len();
        for i in 0..n
            invariant
                self.wf(),
                n == self.visible_blocks@.len(),
                cmds@.len() == i,
                forall|k: int|
                    0 <= k < i ==> (#[trigger] cmds@[k]).0 as int == self.visible_blocks@[k].screen_x
                        as int + display_offset.x as int && cmds@[k].1 as int
                        == self.visible_blocks@[k].screen_y as int + display_offset.y as int
                        && cmds@[k].2 == self.visible_blocks@[k].block_type,
        {
            let e = self.visible_blocks[i];
            cmds.push(
                (e.screen_x + display_offset.x as i64, e.screen_y + display_offset.y as i64, e.block_type),
            );
        }
        cmds
    }

    /// Number of entries in the cached visible set.
    pub fn visible_len(&self) -> (n: usize)
        ensures
            n == self.visible().len(),
    {
        self.visible_blocks.len()
    }

    /// The visible-set entry at index `i`.
    pub fn visible_at(&self, i: usize) -> (e: VisibleBlock)
        requires
            i < self.visible().len(),
        ensures
            e == self.visible()[i as int],
    {
        self.visible_blocks[i]
    }

    /// How many recomputes have run.
    pub fn recompute_count(&self) -> (n: u64)
        ensures
            n == self.recomputes(),
    {
        self.recompute_count
    }

    /// The viewpoint the cached visible set was computed for.
    pub fn last_offset(&self) -> (o: ViewOffset)
        ensures
            o == self.last_offset_view(),
    {
        self.last_display_offset
    }
}


/// Floor invariant: for every column, the generated voxel at height zero is
/// Bedrock, whatever the seed and the fields.
pub proof fn lemma_floor_is_bedrock(
    seed: u64,
    heights: Seq<i32>,
    carved: Seq<bool>,
    patches: Seq<bool>,
    x: int,
    z: int,
)
    requires
        0 <= x < 128,
        0 <= z < 128,
    ensures
        spec_world_grid(seed, heights, carved, patches)[cell_index(x, 0, z)]
            == BlockType::Bedrock,
{
    let s0 = seed ^ SEED_MIX;
    let veins = spec_rolls(s0, WORLD_COLS as nat, 3);
    let s1 = spec_state_after(s0, WORLD_COLS as nat);
    let rolls = spec_rolls(s1, WORLD_COLS as nat, 100);
    let s2 = spec_state_after(s1, WORLD_COLS as nat);
    let kinds = spec_rolls(s2, FLOWER_COLS as nat, 2);
    let base = spec_base_grid(heights, carved, veins);
    crate::terrain::lemma_base_floor(heights, carved, veins);
    crate::terrain::lemma_tree_fold_floor(base, heights, rolls, WORLD_COLS as nat);
    crate::terrain::lemma_flower_fold_floor(
        crate::terrain::spec_tree_fold(base, heights, rolls, WORLD_COLS as nat),
        heights,
        patches,
        kinds,
        FLOWER_COLS as nat,
    );
}

/// Strata ordering: within one column, a generated Grass voxel never sits
/// below a Dirt or Stone voxel. Caves, veins, trees and flowers cannot break
/// this, because none of them produces Grass, Dirt or Stone.
pub proof fn lemma_strata_ordering(
    seed: u64,
    heights: Seq<i32>,
    carved: Seq<bool>,
    patches: Seq<bool>,
    x: int,
    z: int,
    y1: int,
    y2: int,
)
    requires
        in_bounds(x, y1, z),
        in_bounds(x, y2, z),
        y1 < y2,
        spec_world_grid(seed, heights, carved, patches)[cell_index(x, y1, z)]
            == BlockType::Grass,
    ensures
        spec_world_grid(seed, heights, carved, patches)[cell_index(x, y2, z)]
            != BlockType::Dirt,
        spec_world_grid(seed, heights, carved, patches)[cell_index(x, y2, z)]
            != BlockType::Stone,
{
    let s0 = seed ^ SEED_MIX;
    let veins = spec_rolls(s0, WORLD_COLS as nat, 3);
    let s1 = spec_state_after(s0, WORLD_COLS as nat);
    let rolls = spec_rolls(s1, WORLD_COLS as nat, 100);
    let s2 = spec_state_after(s1, WORLD_COLS as nat);
    let kinds = spec_rolls(s2, FLOWER_COLS as nat, 2);
    let base = spec_base_grid(heights, carved, veins);
    let after_trees = crate::terrain::spec_tree_fold(base, heights, rolls, WORLD_COLS as nat);
    let i1 = cell_index(x, y1, z);
    let i2 = cell_index(x, y2, z);
    lemma_cell_index_coords(x, y1, z);
    lemma_cell_index_coords(x, y2, z);
    crate::terrain::lemma_tree_fold_cell(base, heights, rolls, WORLD_COLS as nat, i1);
    crate::terrain::lemma_tree_fold_cell(base, heights, rolls, WORLD_COLS as nat, i2);
    crate::terrain::lemma_flower_fold_cell(
        after_trees,
        heights,
        patches,
        kinds,
        FLOWER_COLS as nat,
        i1,
    );
    crate::terrain::lemma_flower_fold_cell(
        after_trees,
        heights,
        patches,
        kinds,
        FLOWER_COLS as nat,
        i2,
    );
    assert(base[i1] == BlockType::Grass);
}

} // verus!
