use isovoxel::visibility::ViewOffset;
use isovoxel::visibility::VisibleBlock;
use isovoxel::voxel::BlockType;
use isovoxel::world::World;

/// Flat grass at 6.5 voxels with a tall wall along the last z row, which
/// keeps the tree probe blocked, so the terrain is fully predictable.
fn vis_test_world(seed: u64) -> World {
    let mut heights = vec![1664i32; 128 * 128];
    for x in 0..128usize {
        heights[x * 128 + 63] = 16384;
    }
    let carved = vec![false; 128 * 64 * 128];
    let patches = vec![false; 128 * 128];
    World::new(seed, &heights, &carved, &patches)
}

fn snapshot(w: &World) -> Vec<VisibleBlock> {
    let mut v = Vec::new();
    for i in 0..w.visible_len() {
        v.push(w.visible_at(i));
    }
    v
}

#[test]
fn visible_entries_within_margin_and_non_air() {
    let mut w = vis_test_world(1);
    w.update_visibility(ViewOffset { x: 0, y: 0, z: 0 }, 1280, 720);
    assert!(w.visible_len() > 0);
    for e in snapshot(&w) {
        assert!(e.screen_x >= -1680 && e.screen_x <= 12800 + 1680);
        assert!(e.screen_y >= -1680 && e.screen_y <= 7200 + 1680);
        assert!(e.block_type != BlockType::Air);
    }
    // The exposed Grass surface at (10, 6, 10) is visible.
    assert!(snapshot(&w).contains(&VisibleBlock {
        screen_x: 0,
        screen_y: 1680,
        block_type: BlockType::Grass,
    }));
}

#[test]
fn change_detection_idempotent() {
    let mut w = vis_test_world(2);
    assert_eq!(w.recompute_count(), 0);
    let off = ViewOffset { x: 0, y: 1, z: 0 };
    w.update_visibility_if_moved(off, 1280, 720);
    assert_eq!(w.recompute_count(), 1);
    let first = snapshot(&w);
    // The same quantized viewpoint again: no recompute, the cached set is
    // reused unchanged.
    w.update_visibility_if_moved(off, 1280, 720);
    assert_eq!(w.recompute_count(), 1);
    assert_eq!(snapshot(&w), first);
    // A viewpoint that differs by one tenth does recompute.
    w.update_visibility_if_moved(ViewOffset { x: 0, y: 0, z: 0 }, 1280, 720);
    assert_eq!(w.recompute_count(), 2);
}

#[test]
fn recompute_on_movement_shifts_projection() {
    let mut w = vis_test_world(3);
    w.update_visibility(ViewOffset { x: 0, y: 0, z: 0 }, 100000, 100000);
    assert_eq!(w.recompute_count(), 1);
    let before = snapshot(&w);
    // The grass surface voxel at (52, 6, 52) projects to (0, 19320) under
    // the first viewpoint.
    assert!(before.contains(&VisibleBlock {
        screen_x: 0,
        screen_y: 19320,
        block_type: BlockType::Grass,
    }));
    // Move to (50, 0, 50) world units: one more recompute, and the same
    // voxel's projection shifts by exactly the projection delta (0, -21000).
    w.update_visibility_if_moved(ViewOffset { x: 500, y: 0, z: 500 }, 100000, 100000);
    assert_eq!(w.recompute_count(), 2);
    let after = snapshot(&w);
    assert!(after.contains(&VisibleBlock {
        screen_x: 0,
        screen_y: -1680,
        block_type: BlockType::Grass,
    }));
}

#[test]
fn occluded_voxel_not_listed() {
    // Flat grass everywhere: the buried Stone at (10, 3, 11) is occluded by
    // the solid diagonal above it, as is every other Stone voxel sharing its
    // projection (-420, 3150), so that entry never appears.
    let heights = vec![1664i32; 128 * 128];
    let carved = vec![false; 128 * 64 * 128];
    let patches = vec![false; 128 * 128];
    let mut w = World::new(4, &heights, &carved, &patches);
    w.update_visibility(ViewOffset { x: 0, y: 0, z: 0 }, 100000, 100000);
    let entries = snapshot(&w);
    assert!(!entries.contains(&VisibleBlock {
        screen_x: -420,
        screen_y: 3150,
        block_type: BlockType::Stone,
    }));
}

#[test]
fn draw_commands_shift_by_offset() {
    let mut w = vis_test_world(5);
    let off = ViewOffset { x: 30, y: 0, z: 0 };
    w.update_visibility(off, 1280, 720);
    let entries = snapshot(&w);
    let cmds = w.draw_commands(ViewOffset { x: 7, y: 3, z: 0 });
    assert_eq!(cmds.len(), entries.len());
    for (i, e) in entries.iter().enumerate() {
        assert_eq!(cmds[i].0, e.screen_x + 7);
        assert_eq!(cmds[i].1, e.screen_y + 3);
        assert_eq!(cmds[i].2, e.block_type);
    }
}
