use crate::block_pos::{BlockPos, can_move, moved};
use vstd::prelude::*;

verus! {

/// A point from which foliage grows.
#[derive(Debug, Clone, Copy, PartialEq, Eq, Structural)]
pub struct TreeNode {
    pub center: BlockPos,
    pub foliage_radius: i32,
    pub giant_trunk: bool,
}

/// A call made on a [`TrunkPlacer`]: dirt put at a position, or a trunk
/// block (a block state id) tried at a position, with whether the world
/// accepted it.
#[derive(Debug, Clone, Copy, PartialEq, Eq, Structural)]
pub enum PlacerCall {
    SetDirt(BlockPos),
    TryPlace(BlockPos, u16, bool),
}

/// The world side of trunk placement: putting dirt under a trunk, and
/// placing a trunk block where the world allows it. Each call is recorded in
/// [`TrunkPlacer::calls`].
pub trait TrunkPlacer {
    /// The calls made on this placer so far, in order.
    spec fn calls(&self) -> Seq<PlacerCall>;

    /// Puts dirt (or what the tree grows on) at `pos`.
    fn set_dirt(&mut self, pos: &BlockPos)
        ensures
            final(self).calls() == old(self).calls().push(PlacerCall::SetDirt(*pos)),
    ;

    /// Places the trunk block `trunk_block` at `pos` if it can replace what
    /// is there; tells whether it did.
    fn try_place(&mut self, pos: &BlockPos, trunk_block: u16) -> (placed: bool)
        ensures
            final(self).calls() == old(self).calls().push(
                PlacerCall::TryPlace(*pos, trunk_block, placed),
            ),
    ;
}

/// The dirt put under a giant trunk growing from `start`, in order: below it,
/// then east of that, south of that, and two south of that.
pub open spec fn dirt_calls(start: BlockPos) -> Seq<PlacerCall> {
    let base = moved(start, 0, -1, 0);
    seq![
        PlacerCall::SetDirt(base),
        PlacerCall::SetDirt(moved(base, 1, 0, 0)),
        PlacerCall::SetDirt(moved(base, 0, 0, 1)),
        PlacerCall::SetDirt(moved(base, 0, 0, 2)),
    ]
}

/// The dirt goes, in order, right below `start`, one east of that, one south
/// of that, and two south of that.
pub proof fn lemma_dirt_positions(start: BlockPos)
    requires
        start.y > i32::MIN,
        can_move(start, 1, 0, 2),
    ensures
        dirt_calls(start) == seq![
            PlacerCall::SetDirt(BlockPos { x: start.x, y: (start.y - 1) as i32, z: start.z }),
            PlacerCall::SetDirt(BlockPos { x: (start.x + 1) as i32, y: (start.y - 1) as i32, z: start.z }),
            PlacerCall::SetDirt(BlockPos { x: start.x, y: (start.y - 1) as i32, z: (start.z + 1) as i32 }),
            PlacerCall::SetDirt(BlockPos { x: start.x, y: (start.y - 1) as i32, z: (start.z + 2) as i32 }),
        ],
{
}

/// One `try_place` call of `trunk_block` per attempted position, in order,
/// each answered by the matching outcome.
pub open spec fn place_calls(attempts: Seq<BlockPos>, trunk_block: u16, outcomes: Seq<bool>) -> Seq<
    PlacerCall,
> {
    Seq::new(attempts.len(), |i: int| PlacerCall::TryPlace(attempts[i], trunk_block, outcomes[i]))
}

/// The trunk of a giant (2x2) tree.
pub struct GiantTrunkPlacer;

/// The trunk positions tried at height `y` above `base`: the whole 2x2 layer,
/// or only its first corner on the top layer.
pub open spec fn trunk_layer(base: BlockPos, y: int, top: bool) -> Seq<BlockPos> {
    if top {
        seq![moved(base, 0, y, 0)]
    } else {
        seq![moved(base, 0, y, 0), moved(base, 1, y, 0), moved(base, 1, y, 1), moved(base, 0, y, 1)]
    }
}

/// The trunk positions tried, in order, on the first `layers` layers of a
/// trunk of `height` layers.
pub open spec fn trunk_attempts(base: BlockPos, height: int, layers: nat) -> Seq<BlockPos>
    decreases layers,
{
    if layers == 0 {
        seq![]
    } else {
        trunk_attempts(base, height, (layers - 1) as nat) + trunk_layer(
            base,
            layers - 1,
            layers - 1 >= height - 1,
        )
    }
}

/// The elements of `s` whose matching entry of `picks` is true, in order.
pub open spec fn select<A>(s: Seq<A>, picks: Seq<bool>) -> Seq<A>
    decreases s.len(),
{
    if s.len() == 0 {
        seq![]
    } else {
        let before = select(s.drop_last(), picks.drop_last());
        if picks.last() {
            before.push(s.last())
        } else {
            before
        }
    }
}


/// Selecting keeps the picked elements in order: nothing from nothing, and an
/// element added at the end is kept exactly when it is picked.
pub proof fn lemma_select<A>(s: Seq<A>, picks: Seq<bool>, x: A, b: bool)
    requires
        s.len() == picks.len(),
    ensures
        select(Seq::<A>::empty(), Seq::<bool>::empty()) == Seq::<A>::empty(),
        select(s.push(x), picks.push(b)) == if b {
            select(s, picks).push(x)
        } else {
            select(s, picks)
        },
{
    lemma_select_push(s, picks, x, b);
}

proof fn lemma_select_push<A>(s: Seq<A>, picks: Seq<bool>, x: A, b: bool)
    requires
        s.len() == picks.len(),
    ensures
        select(s.push(x), picks.push(b)) == if b {
            select(s, picks).push(x)
        } else {
            select(s, picks)
        },
{
    assert(s.push(x).drop_last() =~= s);
    assert(picks.push(b).drop_last() =~= picks);
}

/// Tries a trunk block at `pos`, recording the outcome.
fn try_trunk<P: TrunkPlacer>(
    placer: &mut P,
    pos: BlockPos,
    trunk_block: u16,
    trunk_poses: &mut Vec<BlockPos>,
    Ghost(tried): Ghost<Seq<BlockPos>>,
    Ghost(picks): Ghost<Seq<bool>>,
) -> (placed: Ghost<bool>)
    requires
        tried.len() == picks.len(),
        old(trunk_poses)@ == select(tried, picks),
    ensures
        final(trunk_poses)@ == select(tried.push(pos), picks.push(placed@)),
        final(placer).calls() == old(placer).calls().push(
            PlacerCall::TryPlace(pos, trunk_block, placed@),
        ),
        place_calls(tried.push(pos), trunk_block, picks.push(placed@)) == place_calls(
            tried,
            trunk_block,
            picks,
        ).push(PlacerCall::TryPlace(pos, trunk_block, placed@)),
{
    let placed = placer.try_place(&pos, trunk_block);
    if placed {
        trunk_poses.push(pos);
    }
    proof {
        lemma_select_push(tried, picks, pos, placed);
        assert(place_calls(tried.push(pos), trunk_block, picks.push(placed)) =~= place_calls(
            tried,
            trunk_block,
            picks,
        ).push(PlacerCall::TryPlace(pos, trunk_block, placed)));
    }
    Ghost(placed)
}

impl GiantTrunkPlacer {
    /// Grows a giant trunk of `height` layers from `start_pos`: dirt at the
    /// four positions of [`dirt_calls`], then one `try_place` for each of the
    /// [`trunk_attempts`] (each layer's 2x2 blocks, only the first corner on
    /// the top layer), and no other call. Gives the foliage node at the top
    /// and the positions where the world accepted a trunk block.
    pub fn generate<P: TrunkPlacer>(
        placer: &mut P,
        height: u32,
        start_pos: BlockPos,
        trunk_block: u16,
    ) -> (r: (
        Vec<TreeNode>,
        Vec<BlockPos>,
    ))
        requires
            height <= i32::MAX,
            start_pos.y > i32::MIN,
            can_move(start_pos, 1, height as int, 2),
        ensures
            r.0@ == seq![
                TreeNode {
                    center: moved(start_pos, 0, height as int, 0),
                    foliage_radius: 0,
                    giant_trunk: true,
                },
            ],
            exists|outcomes: Seq<bool>|
                {
                    &&& outcomes.len() == trunk_attempts(
                        moved(start_pos, 0, -1, 0),
                        height as int,
                        height as nat,
                    ).len()
                    &&& final(placer).calls() == old(placer).calls() + dirt_calls(start_pos)
                        + #[trigger] place_calls(
                        trunk_attempts(moved(start_pos, 0, -1, 0), height as int, height as nat),
                        trunk_block,
                        outcomes,
                    )
                    &&& r.1@ == select(
                        trunk_attempts(moved(start_pos, 0, -1, 0), height as int, height as nat),
                        outcomes,
                    )
                },
    {
        let pos = start_pos.down();
        placer.set_dirt(&pos);
        placer.set_dirt(&pos.offset(1, 0, 0));
        placer.set_dirt(&pos.offset(0, 0, 1));
        placer.set_dirt(&pos.offset(0, 0, 1).offset(0, 0, 1));
        assert(placer.calls() =~= old(placer).calls() + dirt_calls(start_pos));

        let mut trunk_poses: Vec<BlockPos> = Vec::new();
        let ghost mut picks: Seq<bool> = seq![];
        let mut y: u32 = 0;
        while y < height
            invariant
                y <= height <= i32::MAX,
                pos == moved(start_pos, 0, -1, 0),
                start_pos.y > i32::MIN,
                can_move(start_pos, 1, height as int, 2),
                picks.len() == trunk_attempts(pos, height as int, y as nat).len(),
                trunk_poses@ == select(trunk_attempts(pos, height as int, y as nat), picks),
                placer.calls() == old(placer).calls() + dirt_calls(start_pos) + place_calls(
                    trunk_attempts(pos, height as int, y as nat),
                    trunk_block,
                    picks,
                ),
            decreases height - y,
        {
            let ghost tried = trunk_attempts(pos, height as int, y as nat);
            let yi = y as i32;
            let p0 = pos.offset(0, yi, 0);
            let Ghost(b0) = try_trunk(placer, p0, trunk_block, &mut trunk_poses, Ghost(tried), Ghost(picks));
            proof {
                picks = picks.push(b0);
            }
            if y >= height - 1 {
                proof {
                    assert(tried.push(p0) =~= trunk_attempts(pos, height as int, (y + 1) as nat));
                }
                y = y + 1;
                continue;
            }
            let p1 = pos.offset(1, yi, 0);
            let Ghost(b1) = try_trunk(
                placer,
                p1,
                trunk_block,
                &mut trunk_poses,
                Ghost(tried.push(p0)),
                Ghost(picks),
            );
            proof {
                picks = picks.push(b1);
            }
            let p2 = pos.offset(1, yi, 1);
            let Ghost(b2) = try_trunk(
                placer,
                p2,
                trunk_block,
                &mut trunk_poses,
                Ghost(tried.push(p0).push(p1)),
                Ghost(picks),
            );
            proof {
                picks = picks.push(b2);
            }
            let p3 = pos.offset(0, yi, 1);
            let Ghost(b3) = try_trunk(
                placer,
                p3,
                trunk_block,
                &mut trunk_poses,
                Ghost(tried.push(p0).push(p1).push(p2)),
                Ghost(picks),
            );
            proof {
                picks = picks.push(b3);
                assert(tried.push(p0).push(p1).push(p2).push(p3) =~= trunk_attempts(
                    pos,
                    height as int,
                    (y + 1) as nat,
                ));
            }
            y = y + 1;
        }
        let node = TreeNode {
            center: start_pos.up_height(height as i32),
            foliage_radius: 0,
            giant_trunk: true,
        };
        let mut nodes: Vec<TreeNode> = Vec::new();
        nodes.push(node);
        (nodes, trunk_poses)
    }
}

proof fn lemma_attempts_len_below_top(base: BlockPos, height: int, layers: nat)
    requires
        layers < height,
    ensures
        trunk_attempts(base, height, layers).len() == 4 * layers,
    decreases layers,
{
    if layers > 0 {
        lemma_attempts_len_below_top(base, height, (layers - 1) as nat);
    }
}

/// A giant trunk of `height` layers tries `4 * height - 3` trunk blocks (no
/// block at all for height 0), so `try_place` is called that often and at
/// most that many blocks are placed.
pub proof fn lemma_attempt_count(base: BlockPos, height: nat, trunk_block: u16, outcomes: Seq<bool>)
    requires
        outcomes.len() == trunk_attempts(base, height as int, height).len(),
    ensures
        height == 0 ==> trunk_attempts(base, height as int, height).len() == 0,
        height > 0 ==> trunk_attempts(base, height as int, height).len() == 4 * height - 3,
        place_calls(trunk_attempts(base, height as int, height), trunk_block, outcomes).len()
            == trunk_attempts(base, height as int, height).len(),
        select(trunk_attempts(base, height as int, height), outcomes).len()
            <= trunk_attempts(base, height as int, height).len(),
{
    if height > 0 {
        lemma_attempts_len_below_top(base, height as int, (height - 1) as nat);
    }
    lemma_select_len(trunk_attempts(base, height as int, height), outcomes);
}

proof fn lemma_select_len<A>(s: Seq<A>, picks: Seq<bool>)
    requires
        s.len() == picks.len(),
    ensures
        select(s, picks).len() <= s.len(),
    decreases s.len(),
{
    if s.len() > 0 {
        lemma_select_len(s.drop_last(), picks.drop_last());
    }
}

/// The `j`-th corner (in the order (0,0), (1,0), (1,1), (0,1) of x and z) of
/// the 2x2 square at height `y` above `base`.
pub open spec fn square_corner(base: BlockPos, y: int, j: int) -> BlockPos {
    if j == 0 {
        moved(base, 0, y, 0)
    } else if j == 1 {
        moved(base, 1, y, 0)
    } else if j == 2 {
        moved(base, 1, y, 1)
    } else {
        moved(base, 0, y, 1)
    }
}

proof fn lemma_lower_layers(base: BlockPos, height: int, k: nat)
    requires
        k < height,
        can_move(base, 1, height, 1),
    ensures
        trunk_attempts(base, height, k).len() == 4 * k,
        forall|y: int, j: int|
            0 <= y < k && 0 <= j < 4 ==> trunk_attempts(base, height, k)[4 * y + j]
                == #[trigger] square_corner(base, y, j),
        forall|i: int|
            0 <= i < trunk_attempts(base, height, k).len() ==> base.y <= (
            #[trigger] trunk_attempts(base, height, k)[i]).y < base.y + k,
        trunk_attempts(base, height, k).no_duplicates(),
    decreases k,
{
    if k > 0 {
        let y0 = k - 1;
        lemma_lower_layers(base, height, (k - 1) as nat);
        let prev = trunk_attempts(base, height, (k - 1) as nat);
        let layer = trunk_layer(base, y0, false);
        let a = trunk_attempts(base, height, k);
        assert(a == prev + layer);
        assert forall|y: int, j: int| 0 <= y < k && 0 <= j < 4 implies a[4 * y + j]
            == #[trigger] square_corner(base, y, j) by {
            if y < y0 {
                assert(a[4 * y + j] == prev[4 * y + j]);
            } else {
                assert(a[4 * y + j] == layer[j]);
            }
        }
        assert forall|i: int| 0 <= i < a.len() implies base.y <= (#[trigger] a[i]).y < base.y + k by {
            if i >= prev.len() {
                assert(a[i] == layer[i - prev.len()]);
            } else {
                assert(a[i] == prev[i]);
            }
        }
        assert forall|i: int, j: int| 0 <= i < a.len() && 0 <= j < a.len() && i != j implies a[i]
            != a[j] by {
            if i < prev.len() && j < prev.len() {
                assert(a[i] == prev[i] && a[j] == prev[j]);
            } else if i >= prev.len() && j >= prev.len() {
                assert(a[i] == layer[i - prev.len()] && a[j] == layer[j - prev.len()]);
            } else if i < prev.len() {
                assert(a[i] == prev[i] && a[j] == layer[j - prev.len()]);
                assert(prev[i].y < base.y + y0);
            } else {
                assert(a[j] == prev[j] && a[i] == layer[i - prev.len()]);
                assert(prev[j].y < base.y + y0);
            }
        }
    }
}

/// The trunk attempts of a giant trunk of `height` layers: every layer below
/// the top is the whole 2x2 square at its own height, tried corner by corner
/// in the order (0,0), (1,0), (1,1), (0,1) of x and z, layer after layer
/// upwards; the top layer tries its (0,0) corner only; no position is tried
/// twice.
pub proof fn lemma_trunk_layers(base: BlockPos, height: int)
    requires
        0 < height,
        can_move(base, 1, height, 1),
    ensures
        trunk_attempts(base, height, height as nat).len() == 4 * height - 3,
        forall|y: int, j: int|
            0 <= y < height - 1 && 0 <= j < 4 ==> trunk_attempts(base, height, height as nat)[4
                * y + j] == #[trigger] square_corner(base, y, j),
        trunk_attempts(base, height, height as nat)[4 * height - 4] == moved(
            base,
            0,
            height - 1,
            0,
        ),
        forall|y: int, dx: int, dz: int|
            0 <= y < height - 1 && 0 <= dx <= 1 && 0 <= dz <= 1 ==> trunk_attempts(
                base,
                height,
                height as nat,
            ).contains(#[trigger] moved(base, dx, y, dz)),
        trunk_attempts(base, height, height as nat).no_duplicates(),
{
    let k = (height - 1) as nat;
    lemma_lower_layers(base, height, k);
    let prev = trunk_attempts(base, height, k);
    let top = trunk_layer(base, height - 1, true);
    let a = trunk_attempts(base, height, height as nat);
    assert(a == prev + top);
    assert forall|y: int, j: int| 0 <= y < height - 1 && 0 <= j < 4 implies a[4 * y + j]
        == #[trigger] square_corner(base, y, j) by {
        assert(a[4 * y + j] == prev[4 * y + j]);
    }
    assert(a[4 * height - 4] == top[0]);
    assert forall|y: int, dx: int, dz: int|
        0 <= y < height - 1 && 0 <= dx <= 1 && 0 <= dz <= 1 implies a.contains(
        #[trigger] moved(base, dx, y, dz),
    ) by {
        let j = if dx == 0 && dz == 0 {
            0int
        } else if dx == 1 && dz == 0 {
            1int
        } else if dx == 1 {
            2int
        } else {
            3int
        };
        assert(a[4 * y + j] == square_corner(base, y, j));
    }
    assert forall|i: int, j: int| 0 <= i < a.len() && 0 <= j < a.len() && i != j implies a[i]
        != a[j] by {
        if i < prev.len() && j < prev.len() {
            assert(a[i] == prev[i] && a[j] == prev[j]);
        } else if i < prev.len() {
            assert(a[i] == prev[i] && a[j] == top[0]);
            assert(prev[i].y < base.y + k);
        } else if j < prev.len() {
            assert(a[j] == prev[j] && a[i] == top[0]);
            assert(prev[j].y < base.y + k);
        }
    }
}

/// `p` lies in the 2x2 column of `height` blocks above `base`.
pub open spec fn in_trunk_column(base: BlockPos, height: int, p: BlockPos) -> bool {
    &&& base.x <= p.x <= base.x + 1
    &&& base.z <= p.z <= base.z + 1
    &&& base.y <= p.y < base.y + height
}

proof fn lemma_attempts_in_column(base: BlockPos, height: int, layers: nat)
    requires
        layers <= height,
        can_move(base, 1, height, 1),
    ensures
        forall|i: int|
            0 <= i < trunk_attempts(base, height, layers).len() ==> in_trunk_column(
                base,
                height,
                #[trigger] trunk_attempts(base, height, layers)[i],
            ),
    decreases layers,
{
    if layers > 0 {
        lemma_attempts_in_column(base, height, (layers - 1) as nat);
        let before = trunk_attempts(base, height, (layers - 1) as nat);
        let layer = trunk_layer(base, layers - 1, layers - 1 >= height - 1);
        assert forall|i: int|
            0 <= i < trunk_attempts(base, height, layers).len() implies in_trunk_column(
            base,
            height,
            #[trigger] trunk_attempts(base, height, layers)[i],
        ) by {
            if i >= before.len() {
                assert(trunk_attempts(base, height, layers)[i] == layer[i - before.len()]);
            } else {
                assert(trunk_attempts(base, height, layers)[i] == before[i]);
            }
        }
    }
}

proof fn lemma_select_from<A>(s: Seq<A>, picks: Seq<bool>)
    requires
        s.len() == picks.len(),
    ensures
        forall|i: int|
            0 <= i < select(s, picks).len() ==> exists|j: int|
                0 <= j < s.len() && s[j] == #[trigger] select(s, picks)[i],
    decreases s.len(),
{
    if s.len() > 0 {
        lemma_select_from(s.drop_last(), picks.drop_last());
        let before = select(s.drop_last(), picks.drop_last());
        assert forall|i: int| 0 <= i < select(s, picks).len() implies exists|j: int|
            0 <= j < s.len() && s[j] == #[trigger] select(s, picks)[i] by {
            if i < before.len() {
                let j = choose|j: int|
                    0 <= j < s.drop_last().len() && s.drop_last()[j] == #[trigger] before[i];
                assert(s[j] == select(s, picks)[i]);
            } else {
                assert(s[s.len() - 1] == select(s, picks)[i]);
            }
        }
    }
}

/// Every trunk block of a giant trunk lies in the 2x2 column of `height`
/// blocks that starts right below `start`, whichever blocks the world let
/// through.
pub proof fn lemma_trunk_in_column(start: BlockPos, height: int, picks: Seq<bool>)
    requires
        0 <= height,
        start.y > i32::MIN,
        can_move(start, 1, height, 2),
        picks.len() == trunk_attempts(moved(start, 0, -1, 0), height, height as nat).len(),
    ensures
        forall|i: int|
            0 <= i < select(trunk_attempts(moved(start, 0, -1, 0), height, height as nat), picks).len()
                ==> in_trunk_column(
                moved(start, 0, -1, 0),
                height,
                #[trigger] select(
                    trunk_attempts(moved(start, 0, -1, 0), height, height as nat),
                    picks,
                )[i],
            ),
{
    let base = moved(start, 0, -1, 0);
    let s = trunk_attempts(base, height, height as nat);
    lemma_attempts_in_column(base, height, height as nat);
    lemma_select_from(s, picks);
    assert forall|i: int| 0 <= i < select(s, picks).len() implies in_trunk_column(
        base,
        height,
        #[trigger] select(s, picks)[i],
    ) by {
        let j = choose|j: int| 0 <= j < s.len() && s[j] == #[trigger] select(s, picks)[i];
        assert(in_trunk_column(base, height, s[j]));
    }
}

} // verus!
