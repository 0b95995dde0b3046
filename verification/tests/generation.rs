use isovoxel::grid::cell_at;
use isovoxel::template::place_structure;
use isovoxel::template::tree_template;
use isovoxel::voxel::Block;
use isovoxel::voxel::BlockType;
use isovoxel::world::World;

/// A world whose every column has the same height, in 1/256ths of a voxel.
fn gen_flat_world(seed: u64, q: i32, patches_on: bool) -> World {
    let heights = vec![q; 128 * 128];
    let carved = vec![false; 128 * 64 * 128];
    let patches = vec![patches_on; 128 * 128];
    World::new(seed, &heights, &carved, &patches)
}

/// The fixed scenario world: rolling grass at 6.5 voxels, a tall wall along
/// the last z row (whose solid cells block the tree probe), and a pond of
/// open water columns.
fn gen_scenario_world(seed: u64) -> World {
    let mut heights = vec![1664i32; 128 * 128];
    for x in 0..128usize {
        heights[x * 128 + 63] = 16384;
    }
    for x in 10..20usize {
        for z in 10..20usize {
            heights[x * 128 + z] = 0;
        }
    }
    let carved = vec![false; 128 * 64 * 128];
    let patches = vec![false; 128 * 128];
    World::new(seed, &heights, &carved, &patches)
}

#[test]
fn world_is_deterministic_for_fixed_seed() {
    let a = gen_flat_world(42, 1664, true);
    let b = gen_flat_world(42, 1664, true);
    for x in 0..128 {
        for y in 0..64 {
            for z in 0..128 {
                assert_eq!(a.voxel(x, y, z), b.voxel(x, y, z));
            }
        }
    }
}

#[test]
fn floor_is_bedrock_everywhere() {
    let w = gen_scenario_world(7);
    for x in 0..128 {
        for z in 0..128 {
            assert_eq!(w.voxel(x, 0, z), BlockType::Bedrock);
        }
    }
}

#[test]
fn strata_bands_exact() {
    // Height 10 voxels: Stone below 7, Dirt below 9, Grass below 10, Air
    // above. The surface index lands on the first empty cell, so no tree or
    // flower can disturb the column.
    let w = gen_flat_world(3, 2560, false);
    assert_eq!(w.voxel(5, 2, 5), BlockType::Stone);
    assert_eq!(w.voxel(5, 3, 5), BlockType::Stone);
    assert_eq!(w.voxel(5, 6, 5), BlockType::Stone);
    assert_eq!(w.voxel(5, 7, 5), BlockType::Dirt);
    assert_eq!(w.voxel(5, 8, 5), BlockType::Dirt);
    assert_eq!(w.voxel(5, 9, 5), BlockType::Grass);
    assert_eq!(w.voxel(5, 10, 5), BlockType::Air);
    assert_eq!(w.voxel(5, 63, 5), BlockType::Air);
}

#[test]
fn no_grass_below_dirt_or_stone() {
    let w = gen_scenario_world(11);
    for x in 0..128 {
        for z in 0..128 {
            let mut seen_grass = false;
            for y in 0..64 {
                let t = w.voxel(x, y, z);
                if seen_grass {
                    assert!(t != BlockType::Dirt && t != BlockType::Stone);
                }
                if t == BlockType::Grass {
                    seen_grass = true;
                }
            }
        }
    }
}

#[test]
fn scenario_fixed_world() {
    let w = gen_scenario_world(0xC0FFEE);
    assert_eq!(w.voxel(0, 0, 0), BlockType::Bedrock);
    let mut water_below_4 = 0u32;
    let mut logs = 0u32;
    for x in 0..128 {
        for y in 0..64 {
            for z in 0..128 {
                let t = w.voxel(x, y, z);
                if t == BlockType::Water && y < 4 {
                    water_below_4 += 1;
                }
                if t == BlockType::Log {
                    logs += 1;
                }
            }
        }
    }
    assert!(water_below_4 > 0);
    assert!(logs == 0 || logs % 3 == 0);
}

#[test]
fn trees_appear_on_eligible_terrain() {
    // Flat grass at 6.5 voxels: every column is tree-eligible, so trunks
    // appear. Canopies of neighbouring trees may overwrite parts of earlier
    // trunks, so only the presence of Log cells is asserted.
    let w = gen_flat_world(0xDECAF, 1664, false);
    let mut logs = 0u32;
    let mut leaves = 0u32;
    for x in 0..128 {
        for y in 0..64 {
            for z in 0..128 {
                match w.voxel(x, y, z) {
                    BlockType::Log => logs += 1,
                    BlockType::Leaves => leaves += 1,
                    _ => {}
                }
            }
        }
    }
    assert!(logs > 0);
    assert!(leaves > 0);
}

#[test]
fn flowers_only_in_region() {
    let w = gen_flat_world(5, 1664, true);
    let mut in_region = 0u32;
    let mut outside = 0u32;
    for x in 0..128 {
        for y in 0..64 {
            for z in 0..128 {
                let t = w.voxel(x, y, z);
                if t == BlockType::Rose || t == BlockType::Dandelion {
                    if x < 64 && z < 64 {
                        in_region += 1;
                    } else {
                        outside += 1;
                    }
                }
            }
        }
    }
    assert!(in_region > 0);
    assert_eq!(outside, 0);
}

#[test]
fn stamping_preserves_under_air_cells() {
    let mut grid = vec![Block { block_type: BlockType::Stone }; 128 * 64 * 128];
    let tree = tree_template();
    place_structure(&mut grid, 60, 10, 60, &tree);
    // The template corner is Air: the cell under it keeps its voxel.
    assert_eq!(grid[cell_at(60, 10, 60)].block_type, BlockType::Stone);
    assert_eq!(grid[cell_at(64, 10, 64)].block_type, BlockType::Stone);
    // The trunk column is written.
    assert_eq!(grid[cell_at(62, 10, 62)].block_type, BlockType::Log);
    assert_eq!(grid[cell_at(62, 14, 62)].block_type, BlockType::Log);
    // Canopy cells are written.
    assert_eq!(grid[cell_at(62, 13, 61)].block_type, BlockType::Leaves);
    // A cell outside the footprint is untouched.
    assert_eq!(grid[cell_at(59, 10, 60)].block_type, BlockType::Stone);
    assert_eq!(grid[cell_at(60, 9, 60)].block_type, BlockType::Stone);
}

#[test]
fn stamping_skips_out_of_bounds_cells() {
    let mut grid = vec![Block { block_type: BlockType::Dirt }; 128 * 64 * 128];
    let tree = tree_template();
    // Near the top corner: cells that land outside are silently skipped.
    place_structure(&mut grid, 125, 60, 125, &tree);
    assert_eq!(grid[cell_at(127, 60, 127)].block_type, BlockType::Log);
    assert_eq!(grid[cell_at(127, 63, 127)].block_type, BlockType::Log);
    // The rest of the world is untouched.
    assert_eq!(grid[cell_at(0, 0, 0)].block_type, BlockType::Dirt);
}

#[test]
fn tree_template_shape() {
    let tree = tree_template();
    assert_eq!(tree.len(), 5);
    assert_eq!(tree[0].len(), 7);
    assert_eq!(tree[0][0].len(), 5);
    let mut logs = 0u32;
    let mut leaves = 0u32;
    for dx in 0..5 {
        for dy in 0..7 {
            for dz in 0..5 {
                match tree[dx][dy][dz] {
                    BlockType::Log => {
                        logs += 1;
                        assert_eq!(dx, 2);
                        assert_eq!(dz, 2);
                    }
                    BlockType::Leaves => leaves += 1,
                    BlockType::Air => {}
                    other => panic!("unexpected template cell {:?}", other),
                }
            }
        }
    }
    assert_eq!(logs, 5);
    assert!(leaves > 0);
}
