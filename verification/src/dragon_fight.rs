//! End dragon fight manager: the decisions of the dragon lifecycle, end
//! crystal spawning, boss bar and exit portal. The world work that each
//! decision asks for is done by the caller, which reports what it found.

use crate::block_pos::{BlockPos, moved};
use crate::entity::EntityKind;
use vstd::prelude::*;

verus! {

pub const MAX_TICKS_BEFORE_DRAGON_RESPAWN: i32 = 1200;

pub const CRYSTAL_SCAN_INTERVAL: i32 = 100;

pub const PLAYER_SCAN_INTERVAL: i32 = 20;

/// The exit podium is never placed at or below this height by walking down
/// past bedrock.
pub const EXIT_PORTAL_LOWEST_PROBE_Y: i32 = 63;

/// A timer at `counter` that is advanced fires when it reaches `interval`.
pub open spec fn timer_fires(counter: int, interval: int) -> bool {
    counter + 1 >= interval
}

/// A timer at `counter` after one advance: back to 0 when it fired.
pub open spec fn timer_next(counter: int, interval: int) -> int {
    if timer_fires(counter, interval) {
        0
    } else {
        counter + 1
    }
}

/// A timer at `counter` after `n` advances.
pub open spec fn timer_after(counter: int, interval: int, n: nat) -> int
    decreases n,
{
    if n == 0 {
        counter
    } else {
        timer_next(timer_after(counter, interval, (n - 1) as nat), interval)
    }
}

/// A timer that was reset fires on every `interval`-th advance and on no
/// other: on advance `k + 1` exactly when `k + 1` is `interval`, for the
/// first `interval` advances, after which it is reset again.
pub proof fn lemma_timer_period(interval: int, k: nat)
    requires
        1 <= interval,
        k < interval,
    ensures
        timer_after(0, interval, k) == k,
        timer_fires(timer_after(0, interval, k), interval) <==> k == interval - 1,
        timer_after(0, interval, interval as nat) == 0,
{
    lemma_timer_counts_up(interval, k);
    lemma_timer_counts_up(interval, (interval - 1) as nat);
}

proof fn lemma_timer_counts_up(interval: int, k: nat)
    requires
        1 <= interval,
        k < interval,
    ensures
        timer_after(0, interval, k) == k,
    decreases k,
{
    if k > 0 {
        lemma_timer_counts_up(interval, (k - 1) as nat);
    }
}

/// A version-4 (random) UUID: version nibble 4, variant bits `10`.
pub open spec fn is_v4_uuid(u: u128) -> bool {
    u & 0xF000C000000000000000u128 == 0x40008000000000000000u128
}

/// `uuid::Uuid::new_v4`, as an integer (`Uuid::as_u128`): random bits with the
/// version and variant bits of a version-4 UUID set. Nothing else about the
/// value is stated: it comes from the operating system's random source.
#[verifier::external_body]
fn random_uuid() -> (u: u128)
    ensures
        is_v4_uuid(u),
{
    uuid::Uuid::new_v4().as_u128()
}

/// The state of the dragon fight of an End world.
pub struct DragonFight {
    dragon_killed: bool,
    previously_killed: bool,
    needs_state_scanning: bool,
    dragon_uuid: Option<u128>,
    portal_location: Option<BlockPos>,
    crystals_alive: u32,
    ticks_since_dragon_seen: i32,
    ticks_since_crystals_scanned: i32,
    ticks_since_last_player_scan: i32,
    bossbar_uuid: u128,
    bossbar_players: Vec<u128>,
}

/// Everything a [`DragonFight`] holds.
pub ghost struct FightView {
    pub dragon_killed: bool,
    pub previously_killed: bool,
    pub needs_state_scanning: bool,
    pub dragon_uuid: Option<u128>,
    pub portal_location: Option<BlockPos>,
    pub crystals_alive: u32,
    pub ticks_since_dragon_seen: i32,
    pub ticks_since_crystals_scanned: i32,
    pub ticks_since_last_player_scan: i32,
    pub bossbar_uuid: u128,
    pub bossbar_players: Seq<u128>,
}

impl View for DragonFight {
    type V = FightView;

    closed spec fn view(&self) -> FightView {
        FightView {
            dragon_killed: self.dragon_killed,
            previously_killed: self.previously_killed,
            needs_state_scanning: self.needs_state_scanning,
            dragon_uuid: self.dragon_uuid,
            portal_location: self.portal_location,
            crystals_alive: self.crystals_alive,
            ticks_since_dragon_seen: self.ticks_since_dragon_seen,
            ticks_since_crystals_scanned: self.ticks_since_crystals_scanned,
            ticks_since_last_player_scan: self.ticks_since_last_player_scan,
            bossbar_uuid: self.bossbar_uuid,
            bossbar_players: self.bossbar_players@,
        }
    }
}

impl DragonFight {
    /// The counters stay below their thresholds between ticks.
    #[verifier::type_invariant]
    closed spec fn counters_in_range(self) -> bool {
        self@.wf()
    }
}

impl FightView {
    /// The counters stay below their thresholds between ticks.
    pub open spec fn wf(self) -> bool {
        &&& 0 <= self.ticks_since_dragon_seen < MAX_TICKS_BEFORE_DRAGON_RESPAWN
        &&& 0 <= self.ticks_since_crystals_scanned < CRYSTAL_SCAN_INTERVAL
        &&& 0 <= self.ticks_since_last_player_scan <= PLAYER_SCAN_INTERVAL + 1
    }

}

impl Default for DragonFight {
    /// A fresh fight, as [`DragonFight::new`].
    fn default() -> (f: Self)
        ensures
            f@ == (FightView {
                dragon_killed: false,
                previously_killed: false,
                needs_state_scanning: true,
                dragon_uuid: None,
                portal_location: None,
                crystals_alive: 0,
                ticks_since_dragon_seen: 0,
                ticks_since_crystals_scanned: 0,
                ticks_since_last_player_scan: (PLAYER_SCAN_INTERVAL + 1) as i32,
                bossbar_uuid: f@.bossbar_uuid,
                bossbar_players: Seq::empty(),
            }),
            is_v4_uuid(f@.bossbar_uuid),
    {
        Self::new()
    }
}

/// What a state scan asks the caller to do in the world.
#[derive(Debug, Clone, Copy, PartialEq, Eq, Structural)]
pub struct ScanWork {
    /// Place the inactive exit podium.
    pub place_inactive_podium: bool,
    /// Spawn end crystals on the spikes.
    pub spawn_crystals: bool,
    /// Remove this leftover dragon entity.
    pub remove_dragon: Option<u128>,
}

/// What the dragon timers ask the caller to do in the world.
#[derive(Debug, Clone, Copy, PartialEq, Eq, Structural)]
pub struct DragonWork {
    /// Look for the dragon entity, or spawn one.
    pub find_or_create_dragon: bool,
    /// Count the end crystals.
    pub update_crystal_count: bool,
}

impl DragonFight {
    /// A fresh fight with a new random boss bar; the first tick with players
    /// scans the players and the world.
    pub fn new() -> (f: Self)
        ensures
            f@ == (FightView {
                dragon_killed: false,
                previously_killed: false,
                needs_state_scanning: true,
                dragon_uuid: None,
                portal_location: None,
                crystals_alive: 0,
                ticks_since_dragon_seen: 0,
                ticks_since_crystals_scanned: 0,
                ticks_since_last_player_scan: (PLAYER_SCAN_INTERVAL + 1) as i32,
                bossbar_uuid: f@.bossbar_uuid,
                bossbar_players: Seq::empty(),
            }),
            is_v4_uuid(f@.bossbar_uuid),
    {
        Self {
            dragon_killed: false,
            previously_killed: false,
            needs_state_scanning: true,
            dragon_uuid: None,
            portal_location: None,
            crystals_alive: 0,
            ticks_since_dragon_seen: 0,
            ticks_since_crystals_scanned: 0,
            // Start over the threshold so the scan runs on the first tick with players
            ticks_since_last_player_scan: PLAYER_SCAN_INTERVAL + 1,
            bossbar_uuid: random_uuid(),
            bossbar_players: Vec::new(),
        }
    }

    /// Whether the dragon of this fight is dead.
    pub fn dragon_killed(&self) -> (b: bool)
        ensures
            b == self@.dragon_killed,
    {
        self.dragon_killed
    }

    /// Whether the dragon was killed before (the exit portal is active).
    pub fn previously_killed(&self) -> (b: bool)
        ensures
            b == self@.previously_killed,
    {
        self.previously_killed
    }

    /// Whether the world state is still to be scanned.
    pub fn needs_state_scanning(&self) -> (b: bool)
        ensures
            b == self@.needs_state_scanning,
    {
        self.needs_state_scanning
    }

    /// The UUID of the fight's dragon entity, if one is known.
    pub fn dragon_uuid(&self) -> (u: Option<u128>)
        ensures
            u == self@.dragon_uuid,
    {
        self.dragon_uuid
    }

    /// Where the exit podium stands, once placed.
    pub fn portal_location(&self) -> (l: Option<BlockPos>)
        ensures
            l == self@.portal_location,
    {
        self.portal_location
    }

    /// How many end crystals were counted last.
    pub fn crystals_alive(&self) -> (n: u32)
        ensures
            n == self@.crystals_alive,
    {
        self.crystals_alive
    }

    /// The boss bar shown to players near the fight.
    pub fn bossbar_uuid(&self) -> (u: u128)
        ensures
            u == self@.bossbar_uuid,
    {
        self.bossbar_uuid
    }

    /// The players the boss bar is shown to.
    pub fn bossbar_players(&self) -> (p: &Vec<u128>)
        ensures
            p@ == self@.bossbar_players,
    {
        &self.bossbar_players
    }

    /// Starts a tick: tells whether the players near the fight are to be
    /// scanned now (once every [`PLAYER_SCAN_INTERVAL`] ticks).
    pub fn begin_tick(&mut self) -> (scan_players: bool)
        ensures
            scan_players == timer_fires(
                old(self)@.ticks_since_last_player_scan as int,
                PLAYER_SCAN_INTERVAL as int,
            ),
            final(self)@ == (FightView {
                ticks_since_last_player_scan: timer_next(
                    old(self)@.ticks_since_last_player_scan as int,
                    PLAYER_SCAN_INTERVAL as int,
                ) as i32,
                ..old(self)@
            }),
    {
        proof {
            use_type_invariant(&*self);
        }
        let ticks = self.ticks_since_last_player_scan + 1;
        if ticks >= PLAYER_SCAN_INTERVAL {
            self.ticks_since_last_player_scan = 0;
            true
        } else {
            self.ticks_since_last_player_scan = ticks;
            false
        }
    }

    /// Goes on with a tick once the players are known: `None` when no player
    /// sees the fight (the tick ends), else whether the world state is to be
    /// scanned first, which is asked for only once.
    pub fn continue_tick(&mut self) -> (scan_state: Option<bool>)
        ensures
            old(self)@.bossbar_players.len() == 0 ==> scan_state is None && final(self)@ == old(
                self,
            )@,
            old(self)@.bossbar_players.len() > 0 ==> scan_state == Some(
                old(self)@.needs_state_scanning,
            ) && final(self)@ == (FightView { needs_state_scanning: false, ..old(self)@ }),
    {
        proof {
            use_type_invariant(&*self);
        }
        // Nothing to do without players nearby
        if self.bossbar_players.len() == 0 {
            return None;
        }
        let scan = self.needs_state_scanning;
        self.needs_state_scanning = false;
        Some(scan)
    }

    /// Takes in a scan of the world: whether an active exit portal exists and
    /// which dragon entity, if any, is alive. A world with an active portal
    /// had its dragon killed before: a leftover dragon is removed. Otherwise
    /// the podium (if not yet placed) and the crystals are asked for, and the
    /// fight is on with the living dragon, or with one to be spawned.
    pub fn apply_state_scan(&mut self, has_active_portal: bool, existing_dragon: Option<u128>) -> (w:
        ScanWork)
        ensures
            w.place_inactive_podium == (!has_active_portal && old(self)@.portal_location is None),
            w.spawn_crystals == !has_active_portal,
            w.remove_dragon == (if has_active_portal {
                existing_dragon
            } else {
                None
            }),
            final(self)@ == (FightView {
                previously_killed: has_active_portal,
                dragon_killed: has_active_portal,
                dragon_uuid: if existing_dragon is None {
                    old(self)@.dragon_uuid
                } else if has_active_portal {
                    None
                } else {
                    existing_dragon
                },
                ..old(self)@
            }),
    {
        proof {
            use_type_invariant(&*self);
        }
        let mut work = ScanWork {
            place_inactive_podium: false,
            spawn_crystals: false,
            remove_dragon: None,
        };
        if has_active_portal {
            self.previously_killed = true;
        } else {
            self.previously_killed = false;
            // Place the inactive podium if it hasn't been set yet
            if self.portal_location.is_none() {
                work.place_inactive_podium = true;
            }
            // Spawn crystals on the spike caps
            work.spawn_crystals = true;
        }
        match existing_dragon {
            Some(uuid) => {
                if has_active_portal {
                    // The portal is active but a dragon entity still exists, so clean it up
                    work.remove_dragon = Some(uuid);
                    self.dragon_uuid = None;
                    self.dragon_killed = true;
                } else {
                    self.dragon_uuid = Some(uuid);
                    self.dragon_killed = false;
                }
            },
            None => {
                self.dragon_killed = true;
            },
        }
        // If the world looks fresh but the dragon appears dead, reset so one gets spawned
        if !self.previously_killed && self.dragon_killed {
            self.dragon_killed = false;
        }
        work
    }

    /// Advances the dragon and crystal timers while the dragon lives: the
    /// dragon is looked for when none is known or every
    /// [`MAX_TICKS_BEFORE_DRAGON_RESPAWN`] ticks, the crystals are counted
    /// every [`CRYSTAL_SCAN_INTERVAL`] ticks.
    pub fn advance_dragon_timers(&mut self) -> (w: DragonWork)
        ensures
            old(self)@.dragon_killed ==> w == (DragonWork {
                find_or_create_dragon: false,
                update_crystal_count: false,
            }) && final(self)@ == old(self)@,
            !old(self)@.dragon_killed ==> {
                &&& w.find_or_create_dragon == (old(self)@.dragon_uuid is None || timer_fires(
                    old(self)@.ticks_since_dragon_seen as int,
                    MAX_TICKS_BEFORE_DRAGON_RESPAWN as int,
                ))
                &&& w.update_crystal_count == timer_fires(
                    old(self)@.ticks_since_crystals_scanned as int,
                    CRYSTAL_SCAN_INTERVAL as int,
                )
                &&& final(self)@ == (FightView {
                    ticks_since_dragon_seen: if w.find_or_create_dragon {
                        0i32
                    } else {
                        (old(self)@.ticks_since_dragon_seen + 1) as i32
                    },
                    ticks_since_crystals_scanned: timer_next(
                        old(self)@.ticks_since_crystals_scanned as int,
                        CRYSTAL_SCAN_INTERVAL as int,
                    ) as i32,
                    ..old(self)@
                })
            },
    {
        proof {
            use_type_invariant(&*self);
        }
        let mut work = DragonWork { find_or_create_dragon: false, update_crystal_count: false };
        if !self.dragon_killed {
            let seen = self.ticks_since_dragon_seen + 1;
            if self.dragon_uuid.is_none() || seen >= MAX_TICKS_BEFORE_DRAGON_RESPAWN {
                work.find_or_create_dragon = true;
                self.ticks_since_dragon_seen = 0;
            } else {
                self.ticks_since_dragon_seen = seen;
            }
            let scanned = self.ticks_since_crystals_scanned + 1;
            if scanned >= CRYSTAL_SCAN_INTERVAL {
                work.update_crystal_count = true;
                self.ticks_since_crystals_scanned = 0;
            } else {
                self.ticks_since_crystals_scanned = scanned;
            }
        }
        work
    }

    /// Takes in the dragon entity found in the world, if any: it becomes the
    /// fight's dragon; without one, tells that a dragon is to be spawned
    /// (which the caller then reports with [`DragonFight::record_spawned_dragon`]).
    pub fn record_dragon_search(&mut self, found: Option<u128>) -> (spawn: bool)
        ensures
            spawn == found is None,
            final(self)@ == after_dragon_search(old(self)@, found),
    {
        proof {
            use_type_invariant(&*self);
        }
        match found {
            Some(u) => {
                self.dragon_uuid = Some(u);
                false
            },
            None => true,
        }
    }

    /// Takes in the dragon that was just spawned: it becomes the fight's
    /// dragon.
    pub fn record_spawned_dragon(&mut self, uuid: u128)
        ensures
            final(self)@ == after_spawn(old(self)@, uuid),
    {
        proof {
            use_type_invariant(&*self);
        }
        self.dragon_uuid = Some(uuid);
    }

    /// Counts the end crystals among the world's entities.
    pub fn update_crystal_count(&mut self, entities: &Vec<EntityKind>)
        ensures
            final(self)@ == (FightView {
                crystals_alive: count_kind(entities@, EntityKind::EndCrystal) as u32,
                ..old(self)@
            }),
    {
        proof {
            use_type_invariant(&*self);
        }
        let n = count_end_crystals(entities);
        self.crystals_alive = n as u32;
    }
}

/// How many entities of `kind` there are.
pub open spec fn count_kind(entities: Seq<EntityKind>, kind: EntityKind) -> nat
    decreases entities.len(),
{
    if entities.len() == 0 {
        0
    } else {
        count_kind(entities.drop_last(), kind) + if entities.last() == kind {
            1nat
        } else {
            0nat
        }
    }
}

/// Counting goes element by element: nothing in an empty list, and adding an
/// element adds one exactly when it is of the kind counted. So a list holds
/// no entity of a kind exactly when its count is 0, and never more than its
/// length.
pub proof fn lemma_count_kind(entities: Seq<EntityKind>, x: EntityKind, kind: EntityKind)
    ensures
        count_kind(Seq::<EntityKind>::empty(), kind) == 0,
        count_kind(entities.push(x), kind) == count_kind(entities, kind) + if x == kind {
            1int
        } else {
            0int
        },
        count_kind(entities, kind) == 0 <==> !entities.contains(kind),
        count_kind(entities, kind) <= entities.len(),
    decreases entities.len(),
{
    assert(entities.push(x).drop_last() =~= entities);
    assert(entities.push(x).last() == x);
    if entities.len() > 0 {
        let rest = entities.drop_last();
        lemma_count_kind(rest, entities.last(), kind);
        if entities.contains(kind) && !rest.contains(kind) {
            let k = choose|k: int| 0 <= k < entities.len() && entities[k] == kind;
            if k < entities.len() - 1 {
                assert(rest[k] == kind);
            }
        }
        if rest.contains(kind) {
            let k = choose|k: int| 0 <= k < rest.len() && rest[k] == kind;
            assert(entities[k] == kind);
        }
    }
}

/// Crystals are spawned exactly when no end crystal is among the entities.
pub proof fn lemma_crystals_needed(entities: Seq<EntityKind>)
    ensures
        (count_kind(entities, EntityKind::EndCrystal) == 0) <==> !entities.contains(
            EntityKind::EndCrystal,
        ),
{
    lemma_count_kind(entities, EntityKind::Other, EntityKind::EndCrystal);
}

/// How many end crystals there are among `entities`.
pub fn count_end_crystals(entities: &Vec<EntityKind>) -> (n: usize)
    ensures
        n == count_kind(entities@, EntityKind::EndCrystal),
{
    let mut n: usize = 0;
    let mut i: usize = 0;
    while i < entities.len()
        invariant
            i <= entities@.len(),
            n == count_kind(entities@.take(i as int), EntityKind::EndCrystal),
            n <= i,
        decreases entities@.len() - i,
    {
        assert(entities@.take(i + 1).drop_last() =~= entities@.take(i as int));
        if entities[i] == EntityKind::EndCrystal {
            n = n + 1;
        }
        i = i + 1;
    }
    assert(entities@.take(entities@.len() as int) =~= entities@);
    n
}

/// The crystal scan walks down from this height.
pub const CRYSTAL_SCAN_TOP_Y: i32 = 115;

/// The crystal scan stops at this height.
pub const CRYSTAL_SCAN_BOTTOM_Y: i32 = 70;

/// The height of a crystal whose spike cap was not found.
pub const CRYSTAL_FALLBACK_Y: i32 = 78;

/// Whether end crystals are to be spawned: only when none is among the
/// world's entities (a resumed world keeps its crystals).
pub fn crystals_needed(entities: &Vec<EntityKind>) -> (b: bool)
    ensures
        b == (count_kind(entities@, EntityKind::EndCrystal) == 0),
{
    count_end_crystals(entities) == 0
}

/// The next step of the scan for a spike's bedrock cap.
#[derive(Debug, Clone, Copy, PartialEq, Eq, Structural)]
pub enum CrystalScan {
    /// Look at the block at this height next.
    Probe(i32),
    /// Place the crystal at this height.
    Place(i32),
}

/// One step of the scan for a spike's bedrock cap, which walks down from
/// [`CRYSTAL_SCAN_TOP_Y`]: a crystal goes one block above the first bedrock
/// found; below [`CRYSTAL_SCAN_BOTTOM_Y`] the scan gives up and the crystal
/// goes to [`CRYSTAL_FALLBACK_Y`] (the chunk was not loaded yet).
pub fn crystal_scan_step(y: i32, is_bedrock: bool) -> (s: CrystalScan)
    requires
        CRYSTAL_SCAN_BOTTOM_Y <= y <= CRYSTAL_SCAN_TOP_Y,
    ensures
        is_bedrock ==> s == CrystalScan::Place((y + 1) as i32),
        !is_bedrock && y > CRYSTAL_SCAN_BOTTOM_Y ==> s == CrystalScan::Probe((y - 1) as i32),
        !is_bedrock && y == CRYSTAL_SCAN_BOTTOM_Y ==> s == CrystalScan::Place(CRYSTAL_FALLBACK_Y),
{
    if is_bedrock {
        CrystalScan::Place(y + 1)
    } else if y > CRYSTAL_SCAN_BOTTOM_Y {
        CrystalScan::Probe(y - 1)
    } else {
        CrystalScan::Place(CRYSTAL_FALLBACK_Y)
    }
}

/// Where the crystal goes on a spike whose blocks at each height are bedrock
/// or not, scanning down from height `y`.
pub open spec fn crystal_height(is_bedrock: spec_fn(int) -> bool, y: int) -> int
    decreases y - CRYSTAL_SCAN_BOTTOM_Y,
{
    if y < CRYSTAL_SCAN_BOTTOM_Y {
        CRYSTAL_FALLBACK_Y as int
    } else if is_bedrock(y) {
        y + 1
    } else if y == CRYSTAL_SCAN_BOTTOM_Y {
        CRYSTAL_FALLBACK_Y as int
    } else {
        crystal_height(is_bedrock, y - 1)
    }
}

/// The crystal scan places a crystal one above the highest bedrock between
/// [`CRYSTAL_SCAN_BOTTOM_Y`] and [`CRYSTAL_SCAN_TOP_Y`], or at
/// [`CRYSTAL_FALLBACK_Y`] where there is none.
pub proof fn lemma_crystal_height(is_bedrock: spec_fn(int) -> bool, y: int)
    requires
        CRYSTAL_SCAN_BOTTOM_Y <= y <= CRYSTAL_SCAN_TOP_Y,
    ensures
        is_bedrock(y) ==> crystal_height(is_bedrock, y) == y + 1,
        !is_bedrock(y) && y > CRYSTAL_SCAN_BOTTOM_Y ==> crystal_height(is_bedrock, y)
            == crystal_height(is_bedrock, y - 1),
        !is_bedrock(y) && y == CRYSTAL_SCAN_BOTTOM_Y ==> crystal_height(is_bedrock, y)
            == CRYSTAL_FALLBACK_Y,
        (exists|b: int| CRYSTAL_SCAN_BOTTOM_Y <= b <= y && #[trigger] is_bedrock(b)) ==> {
            let top = crystal_height(is_bedrock, y) - 1;
            &&& CRYSTAL_SCAN_BOTTOM_Y <= top <= y
            &&& is_bedrock(top)
            &&& forall|b: int| top < b <= y ==> !#[trigger] is_bedrock(b)
        },
        !(exists|b: int| CRYSTAL_SCAN_BOTTOM_Y <= b <= y && #[trigger] is_bedrock(b))
            ==> crystal_height(is_bedrock, y) == CRYSTAL_FALLBACK_Y,
    decreases y - CRYSTAL_SCAN_BOTTOM_Y,
{
    if !is_bedrock(y) && y > CRYSTAL_SCAN_BOTTOM_Y {
        lemma_crystal_height(is_bedrock, y - 1);
        if exists|b: int| CRYSTAL_SCAN_BOTTOM_Y <= b <= y && #[trigger] is_bedrock(b) {
            let b = choose|b: int| CRYSTAL_SCAN_BOTTOM_Y <= b <= y && #[trigger] is_bedrock(b);
            assert(CRYSTAL_SCAN_BOTTOM_Y <= b <= y - 1 && is_bedrock(b));
        }
    }
}

/// The radius, in chunks, around the origin that the portal scan covers.
pub const PORTAL_SCAN_CHUNK_RADIUS: i32 = 8;

/// The lowest height the portal scan looks at.
pub const PORTAL_SCAN_MIN_Y: i32 = 30;

/// The highest height the portal scan looks at.
pub const PORTAL_SCAN_MAX_Y: i32 = 80;

/// The `(a, b, c)`-th position that the portal scan samples: the block at
/// height `30 + c` of the corner column of chunk `(a - 8, b - 8)`.
pub open spec fn portal_probe(a: int, b: int, c: int) -> BlockPos {
    BlockPos { x: ((a - 8) * 16) as i32, y: (30 + c) as i32, z: ((b - 8) * 16) as i32 }
}

/// The positions sampled when looking for an active exit portal: one column
/// per chunk within 8 chunks of the origin, heights 30 to 80, chunk x
/// outermost, then chunk z, then height, upwards.
pub fn exit_portal_probes() -> (v: Vec<BlockPos>)
    ensures
        v@.len() == PORTAL_PROBE_COUNT,
        forall|a: int, b: int, c: int|
            0 <= a < 17 && 0 <= b < 17 && 0 <= c < 51 ==> #[trigger] v@[(a * 17 + b) * 51 + c]
                == portal_probe(a, b, c),
{
    let mut v: Vec<BlockPos> = Vec::new();
    let mut cx: i32 = -PORTAL_SCAN_CHUNK_RADIUS;
    while cx <= PORTAL_SCAN_CHUNK_RADIUS
        invariant
            -8 <= cx <= 9,
            v@.len() == (cx + 8) * 17 * 51,
            forall|a: int, b: int, c: int|
                0 <= a < cx + 8 && 0 <= b < 17 && 0 <= c < 51 ==> #[trigger] v@[(a * 17 + b) * 51
                    + c] == portal_probe(a, b, c),
        decreases 9 - cx,
    {
        let mut cz: i32 = -PORTAL_SCAN_CHUNK_RADIUS;
        while cz <= PORTAL_SCAN_CHUNK_RADIUS
            invariant
                -8 <= cx <= 8,
                -8 <= cz <= 9,
                v@.len() == ((cx + 8) * 17 + (cz + 8)) * 51,
                forall|a: int, b: int, c: int|
                    0 <= a < 17 && 0 <= b < 17 && 0 <= c < 51 && (a * 17 + b) < (cx + 8) * 17 + (cz
                        + 8) ==> #[trigger] v@[(a * 17 + b) * 51 + c] == portal_probe(a, b, c),
            decreases 9 - cz,
        {
            let mut y: i32 = PORTAL_SCAN_MIN_Y;
            while y <= PORTAL_SCAN_MAX_Y
                invariant
                    -8 <= cx <= 8,
                    -8 <= cz <= 8,
                    30 <= y <= 81,
                    v@.len() == ((cx + 8) * 17 + (cz + 8)) * 51 + (y - 30),
                    forall|a: int, b: int, c: int|
                        0 <= a < 17 && 0 <= b < 17 && 0 <= c < 51 && ((a * 17 + b) < (cx + 8) * 17
                            + (cz + 8) || ((a * 17 + b) == (cx + 8) * 17 + (cz + 8) && c < y - 30))
                            ==> #[trigger] v@[(a * 17 + b) * 51 + c] == portal_probe(a, b, c),
                decreases 81 - y,
            {
                let ghost before = v@;
                v.push(BlockPos { x: cx * 16, y, z: cz * 16 });
                proof {
                    assert forall|a: int, b: int, c: int|
                        0 <= a < 17 && 0 <= b < 17 && 0 <= c < 51 && ((a * 17 + b) < (cx + 8) * 17
                            + (cz + 8) || ((a * 17 + b) == (cx + 8) * 17 + (cz + 8) && c < y + 1
                            - 30)) implies #[trigger] v@[(a * 17 + b) * 51 + c] == portal_probe(
                        a,
                        b,
                        c,
                    ) by {
                        if (a * 17 + b) == (cx + 8) * 17 + (cz + 8) && c == y - 30 {
                            assert(a == cx + 8 && b == cz + 8);
                        } else {
                            assert(v@[(a * 17 + b) * 51 + c] == before[(a * 17 + b) * 51 + c]);
                        }
                    }
                }
                y = y + 1;
            }
            cz = cz + 1;
        }
        cx = cx + 1;
    }
    v
}

/// Where the dragon egg goes when the dragon of `v` dies: on the exit
/// podium's pillar, 4 blocks above its base, on a first kill only.
pub open spec fn kill_egg(v: FightView) -> Option<BlockPos> {
    if !v.previously_killed && v.portal_location is Some {
        Some(moved(v.portal_location.unwrap(), 0, 4, 0))
    } else {
        None
    }
}

/// The fight after its dragon died.
pub open spec fn after_kill(v: FightView) -> FightView {
    FightView { previously_killed: true, dragon_killed: true, dragon_uuid: None, ..v }
}

/// On a first kill, the dragon egg goes on the exit podium's 4 blocks tall
/// bedrock pillar: at the podium's column, 4 blocks above its base.
pub proof fn lemma_egg_position(v: FightView)
    requires
        !v.previously_killed,
        v.portal_location is Some,
        v.portal_location->Some_0.y + 4 <= i32::MAX,
    ensures
        kill_egg(v) == Some(
            BlockPos {
                x: v.portal_location->Some_0.x,
                y: (v.portal_location->Some_0.y + 4) as i32,
                z: v.portal_location->Some_0.z,
            },
        ),
{
}

/// The dragon egg is placed on the first kill only; after a kill no UUID is
/// the fight's dragon, so a second report of the same death is ignored, and a
/// kill completed again places no egg.
pub proof fn lemma_egg_placed_once(v: FightView, killed_uuid: u128)
    ensures
        kill_egg(after_kill(v)) is None,
        after_kill(v).dragon_killed && after_kill(v).previously_killed,
        after_kill(v).dragon_uuid != Some(killed_uuid),
        after_kill(after_kill(v)) == after_kill(v),
{
}

/// The fight after a search for its dragon found `found`.
pub open spec fn after_dragon_search(v: FightView, found: Option<u128>) -> FightView {
    FightView {
        dragon_uuid: if found is Some {
            found
        } else {
            v.dragon_uuid
        },
        ..v
    }
}

/// The fight after the dragon `uuid` was spawned for it.
pub open spec fn after_spawn(v: FightView, uuid: u128) -> FightView {
    FightView { dragon_uuid: Some(uuid), ..v }
}

/// After a search for the dragon, and the spawn it asks for when none was
/// found, the fight holds the found or the spawned dragon.
pub proof fn lemma_dragon_known_after_search(v: FightView, found: Option<u128>, spawned: u128)
    ensures
        found is Some ==> after_dragon_search(v, found).dragon_uuid == found,
        found is None ==> after_spawn(after_dragon_search(v, found), spawned).dragon_uuid == Some(
            spawned,
        ),
{
}

/// The portal scan samples, for every chunk `(cx, cz)` within 8 chunks of
/// the origin and every height `y` from 30 to 80, the block at `(16 * cx, y,
/// 16 * cz)`, at one index of the probe list for each.
pub proof fn lemma_portal_probe_coverage(cx: int, cz: int, y: int)
    requires
        -8 <= cx <= 8,
        -8 <= cz <= 8,
        30 <= y <= 80,
    ensures
        0 <= ((cx + 8) * 17 + (cz + 8)) * 51 + (y - 30) < PORTAL_PROBE_COUNT,
        portal_probe(cx + 8, cz + 8, y - 30) == (BlockPos {
            x: (16 * cx) as i32,
            y: y as i32,
            z: (16 * cz) as i32,
        }),
{
}

/// How many positions the portal scan samples.
pub const PORTAL_PROBE_COUNT: usize = 17 * 17 * 51;

/// The next step of the scan for an active exit portal.
#[derive(Debug, Clone, Copy, PartialEq, Eq, Structural)]
pub enum PortalScan {
    /// Look at the probe with this index (of [`exit_portal_probes`]) next.
    Probe(usize),
    /// An active exit portal exists.
    Found,
    /// No probe holds an active exit portal.
    Absent,
}

/// One step of the scan for an active exit portal: the scan stops at the
/// first probe holding an end portal block, or after the last probe.
pub fn portal_scan_step(index: usize, is_end_portal: bool) -> (s: PortalScan)
    requires
        index < PORTAL_PROBE_COUNT,
    ensures
        is_end_portal ==> s == PortalScan::Found,
        !is_end_portal && index + 1 < PORTAL_PROBE_COUNT ==> s == PortalScan::Probe(
            (index + 1) as usize,
        ),
        !is_end_portal && index + 1 == PORTAL_PROBE_COUNT ==> s == PortalScan::Absent,
{
    if is_end_portal {
        PortalScan::Found
    } else if index + 1 < PORTAL_PROBE_COUNT {
        PortalScan::Probe(index + 1)
    } else {
        PortalScan::Absent
    }
}

/// The answer of the portal scan from probe `index` on, where
/// `is_end_portal[i]` tells whether probe `i` holds an end portal block.
pub open spec fn portal_scan_from(is_end_portal: Seq<bool>, index: int) -> bool
    decreases is_end_portal.len() - index,
{
    if index < 0 || index >= is_end_portal.len() {
        false
    } else if is_end_portal[index] {
        true
    } else {
        portal_scan_from(is_end_portal, index + 1)
    }
}

/// The portal scan, run from the first probe, finds an active exit portal
/// exactly when some probe holds an end portal block.
pub proof fn lemma_portal_scan_answer(is_end_portal: Seq<bool>, index: int)
    requires
        0 <= index <= is_end_portal.len(),
    ensures
        portal_scan_from(is_end_portal, index) == (exists|i: int|
            index <= i < is_end_portal.len() && #[trigger] is_end_portal[i]),
    decreases is_end_portal.len() - index,
{
    if index < is_end_portal.len() {
        lemma_portal_scan_answer(is_end_portal, index + 1);
        if !is_end_portal[index] && exists|i: int|
            index <= i < is_end_portal.len() && #[trigger] is_end_portal[i] {
            let i = choose|i: int| index <= i < is_end_portal.len() && #[trigger] is_end_portal[i];
            assert(index + 1 <= i);
        }
    }
}

/// The next step of the walk down from the top block at the centre.
#[derive(Debug, Clone, Copy, PartialEq, Eq, Structural)]
pub enum PortalDescent {
    /// Look at the block at this height of the centre column next.
    Probe(i32),
    /// The walk ends at this height.
    Settled(i32),
}

/// Starts the walk down past bedrock from the top block of the centre column.
pub fn exit_portal_descent_start(top_y: i32) -> (d: PortalDescent)
    ensures
        top_y > EXIT_PORTAL_LOWEST_PROBE_Y ==> d == PortalDescent::Probe(top_y),
        top_y <= EXIT_PORTAL_LOWEST_PROBE_Y ==> d == PortalDescent::Settled(top_y),
{
    if top_y > EXIT_PORTAL_LOWEST_PROBE_Y {
        PortalDescent::Probe(top_y)
    } else {
        PortalDescent::Settled(top_y)
    }
}

/// One step of the walk down past any bedrock already at the centre (such as
/// a spike cap): it stops at the first block that is not bedrock, and never
/// goes to or below [`EXIT_PORTAL_LOWEST_PROBE_Y`] by stepping.
pub fn exit_portal_descent_step(y: i32, is_bedrock: bool) -> (d: PortalDescent)
    requires
        y > EXIT_PORTAL_LOWEST_PROBE_Y,
    ensures
        !is_bedrock ==> d == PortalDescent::Settled(y),
        is_bedrock && y - 1 > EXIT_PORTAL_LOWEST_PROBE_Y ==> d == PortalDescent::Probe(
            (y - 1) as i32,
        ),
        is_bedrock && y - 1 == EXIT_PORTAL_LOWEST_PROBE_Y ==> d == PortalDescent::Settled(
            (y - 1) as i32,
        ),
{
    if !is_bedrock {
        PortalDescent::Settled(y)
    } else {
        exit_portal_descent_start(y - 1)
    }
}

impl DragonFight {
    /// Whether `killed_uuid` is the fight's dragon; the death of any other
    /// entity leaves the fight alone.
    pub fn is_fight_dragon(&self, killed_uuid: u128) -> (b: bool)
        ensures
            b == (self@.dragon_uuid == Some(killed_uuid)),
    {
        match self.dragon_uuid {
            Some(u) => u == killed_uuid,
            None => false,
        }
    }

    /// Hides the boss bar from everyone: gives the players it was shown to.
    pub fn clear_bossbar_players(&mut self) -> (removed: Vec<u128>)
        ensures
            removed@ == old(self)@.bossbar_players,
            final(self)@ == (FightView { bossbar_players: Seq::empty(), ..old(self)@ }),
    {
        proof {
            use_type_invariant(&*self);
        }
        let mut removed: Vec<u128> = Vec::new();
        std::mem::swap(&mut removed, &mut self.bossbar_players);
        removed
    }

    /// Completes the dragon's death once the exit portal is active: gives
    /// where the dragon egg goes (on top of the 4 blocks tall bedrock pillar
    /// of the podium) on a first kill, and marks the dragon killed.
    pub fn finish_dragon_kill(&mut self) -> (egg: Option<BlockPos>)
        requires
            old(self)@.portal_location matches Some(loc) ==> loc.y + 4 <= i32::MAX,
        ensures
            egg == kill_egg(old(self)@),
            final(self)@ == after_kill(old(self)@),
    {
        proof {
            use_type_invariant(&*self);
        }
        let mut egg: Option<BlockPos> = None;
        if !self.previously_killed {
            if let Some(loc) = self.portal_location {
                egg = Some(BlockPos { x: loc.x, y: loc.y + 4, z: loc.z });
            }
        }
        self.previously_killed = true;
        self.dragon_killed = true;
        self.dragon_uuid = None;
        egg
    }

    /// Where the exit podium stands: the known location, or, the first time,
    /// the centre column at the height the caller reached by walking down
    /// from the top block past bedrock (not below
    /// [`EXIT_PORTAL_LOWEST_PROBE_Y`]), but at least one above the world's
    /// bottom.
    pub fn fix_exit_portal_location(&mut self, descended_y: i32, min_y: i32) -> (loc: BlockPos)
        requires
            old(self)@.portal_location is None ==> min_y < i32::MAX,
        ensures
            old(self)@.portal_location is Some ==> loc == old(self)@.portal_location.unwrap()
                && final(self)@ == old(self)@,
            old(self)@.portal_location is None ==> loc == (BlockPos {
                x: 0,
                y: if descended_y > min_y + 1 {
                    descended_y
                } else {
                    (min_y + 1) as i32
                },
                z: 0,
            }) && final(self)@ == (FightView { portal_location: Some(loc), ..old(self)@ }),
    {
        proof {
            use_type_invariant(&*self);
        }
        match self.portal_location {
            Some(loc) => loc,
            None => {
                let floor = min_y + 1;
                let y = if descended_y > floor {
                    descended_y
                } else {
                    floor
                };
                let loc = BlockPos { x: 0, y, z: 0 };
                self.portal_location = Some(loc);
                loc
            },
        }
    }
}

/// `list` followed by the entries of `current` it lacks, each once, in the
/// order of `current`.
pub open spec fn join_members(list: Seq<u128>, current: Seq<u128>) -> Seq<u128>
    decreases current.len(),
{
    if current.len() == 0 {
        list
    } else {
        let joined = join_members(list, current.drop_last());
        if joined.contains(current.last()) {
            joined
        } else {
            joined.push(current.last())
        }
    }
}

/// The entries of `list` that are (`keep == true`) or are not in `current`,
/// in order.
pub open spec fn members_by(list: Seq<u128>, current: Seq<u128>, keep: bool) -> Seq<u128>
    decreases list.len(),
{
    if list.len() == 0 {
        seq![]
    } else {
        let before = members_by(list.drop_last(), current, keep);
        if current.contains(list.last()) == keep {
            before.push(list.last())
        } else {
            before
        }
    }
}

/// What syncing the boss bar asks the caller to send.
pub struct BossbarSync {
    /// Show the boss bar to these players.
    pub show_to: Vec<u128>,
    /// Hide the boss bar from these players.
    pub hide_from: Vec<u128>,
}

/// Whether `v` holds `x`.
fn holds(v: &Vec<u128>, x: u128) -> (b: bool)
    ensures
        b == v@.contains(x),
{
    let mut i: usize = 0;
    while i < v.len()
        invariant
            i <= v@.len(),
            forall|j: int| 0 <= j < i ==> v@[j] != x,
        decreases v@.len() - i,
    {
        if v[i] == x {
            assert(v@[i as int] == x);
            return true;
        }
        i = i + 1;
    }
    false
}

proof fn lemma_join_extends(list: Seq<u128>, current: Seq<u128>)
    ensures
        join_members(list, current).len() >= list.len(),
        join_members(list, current).subrange(0, list.len() as int) == list,
    decreases current.len(),
{
    if current.len() > 0 {
        lemma_join_extends(list, current.drop_last());
        let joined = join_members(list, current.drop_last());
        assert(joined.push(current.last()).subrange(0, list.len() as int) =~= joined.subrange(
            0,
            list.len() as int,
        ));
    }
}

impl DragonFight {
    /// Syncs the boss bar recipient list with the players now near the fight
    /// (`current`, in the order the world lists them): the boss bar is shown
    /// to each newcomer while the dragon lives, and hidden from each
    /// recipient who left; the list keeps the recipients who stayed, then the
    /// newcomers.
    pub fn sync_bossbar_players(&mut self, current: &Vec<u128>) -> (plan: BossbarSync)
        ensures
            final(self)@ == (FightView {
                bossbar_players: members_by(
                    join_members(old(self)@.bossbar_players, current@),
                    current@,
                    true,
                ),
                ..old(self)@
            }),
            plan.show_to@ == (if old(self)@.dragon_killed {
                Seq::empty()
            } else {
                join_members(old(self)@.bossbar_players, current@).skip(
                    old(self)@.bossbar_players.len() as int,
                )
            }),
            plan.hide_from@ == members_by(
                join_members(old(self)@.bossbar_players, current@),
                current@,
                false,
            ),
    {
        proof {
            use_type_invariant(&*self);
        }
        let ghost start = self.bossbar_players@;
        let killed = self.dragon_killed;
        let mut players: Vec<u128> = Vec::new();
        std::mem::swap(&mut players, &mut self.bossbar_players);
        let mut show: Vec<u128> = Vec::new();
        let mut i: usize = 0;
        while i < current.len()
            invariant
                i <= current@.len(),
                players@ == join_members(start, current@.take(i as int)),
                show@ == (if killed {
                    Seq::empty()
                } else {
                    join_members(start, current@.take(i as int)).skip(start.len() as int)
                }),
            decreases current@.len() - i,
        {
            let uid = current[i];
            proof {
                assert(current@.take(i + 1).drop_last() =~= current@.take(i as int));
                lemma_join_extends(start, current@.take(i as int));
            }
            if !holds(&players, uid) {
                if !killed {
                    show.push(uid);
                }
                players.push(uid);
                proof {
                    let j = join_members(start, current@.take(i as int));
                    assert(j.push(uid).skip(start.len() as int) =~= j.skip(start.len() as int).push(
                        uid,
                    ));
                }
            }
            i = i + 1;
        }
        assert(current@.take(current@.len() as int) =~= current@);
        let ghost joined = players@;
        let mut kept: Vec<u128> = Vec::new();
        let mut gone: Vec<u128> = Vec::new();
        let mut j: usize = 0;
        while j < players.len()
            invariant
                j <= joined.len(),
                players@ == joined,
                kept@ == members_by(joined.take(j as int), current@, true),
                gone@ == members_by(joined.take(j as int), current@, false),
            decreases joined.len() - j,
        {
            let uid = players[j];
            proof {
                assert(joined.take(j + 1).drop_last() =~= joined.take(j as int));
            }
            if holds(current, uid) {
                kept.push(uid);
            } else {
                gone.push(uid);
            }
            j = j + 1;
        }
        assert(joined.take(joined.len() as int) =~= joined);
        self.bossbar_players = kept;
        BossbarSync { show_to: show, hide_from: gone }
    }
}

proof fn lemma_join_contains(list: Seq<u128>, current: Seq<u128>, u: u128)
    ensures
        join_members(list, current).contains(u) <==> (list.contains(u) || current.contains(u)),
    decreases current.len(),
{
    if current.len() > 0 {
        let rest = current.drop_last();
        lemma_join_contains(list, rest, u);
        let joined = join_members(list, rest);
        if current.contains(u) && !rest.contains(u) {
            assert(current.last() == u) by {
                let k = choose|k: int| 0 <= k < current.len() && current[k] == u;
                if k < current.len() - 1 {
                    assert(rest[k] == u);
                }
            }
        }
        if rest.contains(u) {
            let k = choose|k: int| 0 <= k < rest.len() && rest[k] == u;
            assert(current[k] == u);
        }
        if joined.contains(u) && !joined.contains(current.last()) {
            let k = choose|k: int| 0 <= k < joined.len() && joined[k] == u;
            assert(joined.push(current.last())[k] == u);
        }
        if !joined.contains(current.last()) && u == current.last() {
            assert(joined.push(current.last())[joined.len() as int] == u);
        }
    }
}

proof fn lemma_join_no_duplicates(list: Seq<u128>, current: Seq<u128>)
    requires
        list.no_duplicates(),
    ensures
        join_members(list, current).no_duplicates(),
    decreases current.len(),
{
    if current.len() > 0 {
        lemma_join_no_duplicates(list, current.drop_last());
    }
}

proof fn lemma_members_by_contains(list: Seq<u128>, current: Seq<u128>, keep: bool, u: u128)
    ensures
        members_by(list, current, keep).contains(u) <==> (list.contains(u) && current.contains(u)
            == keep),
    decreases list.len(),
{
    if list.len() > 0 {
        let rest = list.drop_last();
        lemma_members_by_contains(rest, current, keep, u);
        let before = members_by(rest, current, keep);
        if list.contains(u) && !rest.contains(u) {
            let k = choose|k: int| 0 <= k < list.len() && list[k] == u;
            if k < list.len() - 1 {
                assert(rest[k] == u);
            }
        }
        if rest.contains(u) {
            let k = choose|k: int| 0 <= k < rest.len() && rest[k] == u;
            assert(list[k] == u);
        }
        if current.contains(list.last()) == keep {
            if before.contains(u) {
                let k = choose|k: int| 0 <= k < before.len() && before[k] == u;
                assert(before.push(list.last())[k] == u);
            }
            if u == list.last() {
                assert(before.push(list.last())[before.len() as int] == u);
            }
        }
    }
}

proof fn lemma_members_by_no_duplicates(list: Seq<u128>, current: Seq<u128>, keep: bool)
    requires
        list.no_duplicates(),
    ensures
        members_by(list, current, keep).no_duplicates(),
    decreases list.len(),
{
    if list.len() > 0 {
        let rest = list.drop_last();
        assert(rest.no_duplicates());
        lemma_members_by_no_duplicates(rest, current, keep);
        lemma_members_by_contains(rest, current, keep, list.last());
        if rest.contains(list.last()) {
            let k = choose|k: int| 0 <= k < rest.len() && rest[k] == list.last();
            assert(list[k] == list[list.len() - 1]);
        }
    }
}

proof fn lemma_join_newcomers(list: Seq<u128>, current: Seq<u128>)
    ensures
        forall|u: u128|
            #[trigger] join_members(list, current).skip(list.len() as int).contains(u) <==> (
            current.contains(u) && !list.contains(u)),
        join_members(list, current).skip(list.len() as int).no_duplicates(),
    decreases current.len(),
{
    lemma_join_extends(list, current);
    let joined = join_members(list, current);
    let added = joined.skip(list.len() as int);
    assert(joined =~= list + added);
    if current.len() > 0 {
        let rest = current.drop_last();
        lemma_join_newcomers(list, rest);
        lemma_join_extends(list, rest);
        let before = join_members(list, rest);
        let before_added = before.skip(list.len() as int);
        assert(before =~= list + before_added);
        let x = current.last();
        if !before.contains(x) {
            assert(added =~= before_added.push(x));
            if before_added.contains(x) {
                let k = choose|k: int| 0 <= k < before_added.len() && before_added[k] == x;
                assert(before[list.len() + k] == x);
            }
        } else {
            assert(added =~= before_added);
        }
        assert forall|u: u128| #[trigger] added.contains(u) <==> (current.contains(u)
            && !list.contains(u)) by {
            lemma_join_contains(list, rest, u);
            if rest.contains(u) {
                let k = choose|k: int| 0 <= k < rest.len() && rest[k] == u;
                assert(current[k] == u);
            }
            if current.contains(u) && !rest.contains(u) {
                let k = choose|k: int| 0 <= k < current.len() && current[k] == u;
                if k < current.len() - 1 {
                    assert(rest[k] == u);
                }
            }
            if added.contains(u) {
                let k = choose|k: int| 0 <= k < added.len() && added[k] == u;
                assert(joined[list.len() + k] == u);
                if list.contains(u) {
                    let m = choose|m: int| 0 <= m < list.len() && list[m] == u;
                    assert(joined[m] == u);
                }
            }
            if before_added.contains(u) {
                let k = choose|k: int| 0 <= k < before_added.len() && before_added[k] == u;
                assert(added[k] == u);
            }
            if !before.contains(x) && u == x {
                assert(added[added.len() - 1] == u);
            }
            if u != x && before.contains(u) && !list.contains(u) {
                let k = choose|k: int| 0 <= k < before.len() && before[k] == u;
                if k < list.len() {
                    assert(list[k] == u);
                } else {
                    assert(before_added[k - list.len()] == u);
                }
            }
        }
    }
}

/// After a sync, the boss bar is shown exactly to the players near the fight:
/// the recipients are the current players, each listed once if the
/// recipients were; it is hidden only from players who are no longer near.
pub proof fn lemma_sync_matches_current(recipients: Seq<u128>, current: Seq<u128>)
    ensures
        forall|u: u128|
            #[trigger] members_by(join_members(recipients, current), current, true).contains(u)
                <==> current.contains(u),
        forall|u: u128|
            #[trigger] members_by(join_members(recipients, current), current, false).contains(u)
                <==> (recipients.contains(u) && !current.contains(u)),
        recipients.no_duplicates() ==> members_by(
            join_members(recipients, current),
            current,
            true,
        ).no_duplicates(),
        forall|u: u128|
            #[trigger] join_members(recipients, current).skip(recipients.len() as int).contains(u)
                <==> (current.contains(u) && !recipients.contains(u)),
        join_members(recipients, current).skip(recipients.len() as int).no_duplicates(),
{
    let joined = join_members(recipients, current);
    assert forall|u: u128|
        #[trigger] members_by(joined, current, true).contains(u) <==> current.contains(u) by {
        lemma_join_contains(recipients, current, u);
        lemma_members_by_contains(joined, current, true, u);
    }
    assert forall|u: u128|
        #[trigger] members_by(joined, current, false).contains(u) <==> (recipients.contains(u)
            && !current.contains(u)) by {
        lemma_join_contains(recipients, current, u);
        lemma_members_by_contains(joined, current, false, u);
    }
    if recipients.no_duplicates() {
        lemma_join_no_duplicates(recipients, current);
        lemma_members_by_no_duplicates(joined, current, true);
    }
    lemma_join_newcomers(recipients, current);
}

} // verus!
