use pumpkin::block_pos::BlockPos;
use pumpkin::giant_trunk::{GiantTrunkPlacer, PlacerCall, TreeNode, TrunkPlacer};
use vstd::prelude::Seq;

/// Records the calls, and refuses trunk blocks at the listed positions.
struct Recorder {
    log: Vec<PlacerCall>,
    dirt: Vec<BlockPos>,
    tried: Vec<BlockPos>,
    blocked: Vec<BlockPos>,
}

impl TrunkPlacer for Recorder {
    // Only the verifier reads this; tests never call it.
    fn calls(&self) -> Seq<PlacerCall> {
        unreachable!()
    }
    fn set_dirt(&mut self, pos: &BlockPos) {
        self.dirt.push(*pos);
        self.log.push(PlacerCall::SetDirt(*pos));
    }
    fn try_place(&mut self, pos: &BlockPos, trunk_block: u16) -> bool {
        self.tried.push(*pos);
        let placed = !self.blocked.contains(pos);
        self.log.push(PlacerCall::TryPlace(*pos, trunk_block, placed));
        placed
    }
}

fn p(x: i32, y: i32, z: i32) -> BlockPos {
    BlockPos::new(x, y, z)
}

#[test]
fn giant_trunk_of_three_layers() {
    let mut r = Recorder { log: vec![], dirt: vec![], tried: vec![], blocked: vec![] };
    let (nodes, trunk) = GiantTrunkPlacer::generate(&mut r, 3, p(10, 64, 20), 142);
    assert_eq!(
        nodes,
        vec![TreeNode { center: p(10, 67, 20), foliage_radius: 0, giant_trunk: true }]
    );
    assert_eq!(r.dirt, vec![p(10, 63, 20), p(11, 63, 20), p(10, 63, 21), p(10, 63, 22)]);
    let expected = vec![
        p(10, 63, 20), p(11, 63, 20), p(11, 63, 21), p(10, 63, 21),
        p(10, 64, 20), p(11, 64, 20), p(11, 64, 21), p(10, 64, 21),
        p(10, 65, 20),
    ];
    assert_eq!(r.tried, expected);
    assert_eq!(trunk, expected);
}

#[test]
fn blocked_positions_are_left_out() {
    let mut r = Recorder { log: vec![], dirt: vec![], tried: vec![], blocked: vec![p(1, -1, 1), p(0, 0, 0)] };
    let (_, trunk) = GiantTrunkPlacer::generate(&mut r, 2, p(0, 0, 0), 142);
    assert_eq!(r.tried.len(), 5);
    assert_eq!(trunk, vec![p(0, -1, 0), p(1, -1, 0), p(0, -1, 1)]);
}

#[test]
fn zero_height_places_no_trunk() {
    let mut r = Recorder { log: vec![], dirt: vec![], tried: vec![], blocked: vec![] };
    let (nodes, trunk) = GiantTrunkPlacer::generate(&mut r, 0, p(0, 5, 0), 142);
    assert!(trunk.is_empty());
    assert!(r.tried.is_empty());
    assert_eq!(r.dirt.len(), 4);
    assert_eq!(nodes[0].center, p(0, 5, 0));
}

#[test]
fn dirt_comes_first_then_one_try_per_attempt() {
    let mut r = Recorder { log: vec![], dirt: vec![], tried: vec![], blocked: vec![p(1, 4, 0)] };
    let (_, trunk) = GiantTrunkPlacer::generate(&mut r, 1, p(0, 5, 0), 77);
    assert_eq!(
        r.log,
        vec![
            PlacerCall::SetDirt(p(0, 4, 0)),
            PlacerCall::SetDirt(p(1, 4, 0)),
            PlacerCall::SetDirt(p(0, 4, 1)),
            PlacerCall::SetDirt(p(0, 4, 2)),
            PlacerCall::TryPlace(p(0, 4, 0), 77, true),
        ]
    );
    assert_eq!(trunk, vec![p(0, 4, 0)]);
}
