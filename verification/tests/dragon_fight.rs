use pumpkin::block_pos::BlockPos;
use pumpkin::dragon_fight::{
    count_end_crystals, crystal_scan_step, crystals_needed, exit_portal_descent_start,
    exit_portal_descent_step, exit_portal_probes, portal_scan_step, CrystalScan, DragonFight,
    DragonWork, PortalDescent, PortalScan, ScanWork, CRYSTAL_SCAN_BOTTOM_Y, CRYSTAL_SCAN_INTERVAL,
    CRYSTAL_SCAN_TOP_Y, MAX_TICKS_BEFORE_DRAGON_RESPAWN, PLAYER_SCAN_INTERVAL, PORTAL_PROBE_COUNT,
};
use pumpkin::entity::EntityKind;

fn fight_with_players(players: &[u128]) -> DragonFight {
    let mut f = DragonFight::new();
    assert!(f.begin_tick());
    f.sync_bossbar_players(&players.to_vec());
    f
}

/// A fight whose dragon `uuid` was found in the world.
fn fight_with_dragon(uuid: u128) -> DragonFight {
    let mut f = fight_with_players(&[1]);
    f.apply_state_scan(false, Some(uuid));
    f
}

#[test]
fn new_fight() {
    let f = DragonFight::new();
    assert!(!f.dragon_killed() && !f.previously_killed() && f.needs_state_scanning());
    assert_eq!(f.dragon_uuid(), None);
    assert_eq!(f.portal_location(), None);
    assert_eq!(f.crystals_alive(), 0);
    assert!(f.bossbar_players().is_empty());
    // A random version-4 UUID.
    let u = f.bossbar_uuid();
    assert_eq!(u & 0xF000C000000000000000, 0x40008000000000000000);
    assert_ne!(DragonFight::new().bossbar_uuid(), u);
    let d = DragonFight::default();
    assert!(d.needs_state_scanning() && d.dragon_uuid().is_none());
}

#[test]
fn players_are_scanned_on_the_first_tick_then_every_twenty() {
    let mut f = DragonFight::new();
    assert!(f.begin_tick());
    for round in 0..3 {
        for _ in 0..(PLAYER_SCAN_INTERVAL - 1) {
            assert!(!f.begin_tick(), "round {round}");
        }
        assert!(f.begin_tick());
    }
}

#[test]
fn no_players_ends_the_tick() {
    let mut f = DragonFight::new();
    assert_eq!(f.continue_tick(), None);
    assert!(f.needs_state_scanning());
    let mut f = fight_with_players(&[7]);
    assert_eq!(f.continue_tick(), Some(true));
    assert_eq!(f.continue_tick(), Some(false));
    assert!(!f.needs_state_scanning());
}

#[test]
fn bossbar_sync() {
    let mut f = DragonFight::new();
    let plan = f.sync_bossbar_players(&vec![1, 2, 3]);
    assert_eq!(plan.show_to, vec![1, 2, 3]);
    assert!(plan.hide_from.is_empty());
    let plan = f.sync_bossbar_players(&vec![3, 4, 1]);
    assert_eq!(plan.show_to, vec![4]);
    assert_eq!(plan.hide_from, vec![2]);
    assert_eq!(f.bossbar_players(), &vec![1, 3, 4]);
    let plan = f.sync_bossbar_players(&vec![]);
    assert!(plan.show_to.is_empty());
    assert_eq!(plan.hide_from, vec![1, 3, 4]);
    assert!(f.bossbar_players().is_empty());
    // Duplicates in the scan are added once.
    let plan = f.sync_bossbar_players(&vec![5, 5]);
    assert_eq!(plan.show_to, vec![5]);
    assert_eq!(f.bossbar_players(), &vec![5]);
}

#[test]
fn bossbar_not_shown_once_the_dragon_is_dead() {
    let mut f = fight_with_players(&[]);
    f.apply_state_scan(true, None);
    assert!(f.dragon_killed());
    let plan = f.sync_bossbar_players(&vec![1, 2]);
    assert!(plan.show_to.is_empty());
    assert_eq!(f.bossbar_players(), &vec![1, 2]);
}

#[test]
fn state_scan_of_a_fresh_world() {
    let mut f = fight_with_players(&[1]);
    let w = f.apply_state_scan(false, None);
    assert_eq!(w, ScanWork { place_inactive_podium: true, spawn_crystals: true, remove_dragon: None });
    assert!(!f.dragon_killed() && !f.previously_killed());
    assert_eq!(f.dragon_uuid(), None);
    let mut f = fight_with_players(&[1]);
    let w = f.apply_state_scan(false, Some(99));
    assert_eq!(w.remove_dragon, None);
    assert_eq!(f.dragon_uuid(), Some(99));
    assert!(!f.dragon_killed());
}

#[test]
fn state_scan_of_a_finished_fight() {
    let mut f = fight_with_players(&[1]);
    f.fix_exit_portal_location(64, -64);
    let w = f.apply_state_scan(true, Some(42));
    assert_eq!(w, ScanWork { place_inactive_podium: false, spawn_crystals: false, remove_dragon: Some(42) });
    assert!(f.dragon_killed() && f.previously_killed());
    assert_eq!(f.dragon_uuid(), None);
    let mut f = fight_with_players(&[1]);
    let w = f.apply_state_scan(true, None);
    assert_eq!(w.remove_dragon, None);
    assert!(f.dragon_killed() && f.previously_killed());
}

#[test]
fn dragon_and_crystal_timers() {
    let mut f = fight_with_players(&[1]);
    // No dragon known: look for one right away.
    assert_eq!(f.advance_dragon_timers(), DragonWork { find_or_create_dragon: true, update_crystal_count: false });
    assert!(f.record_dragon_search(None));
    f.record_spawned_dragon(5);
    assert_eq!(f.dragon_uuid(), Some(5));
    let mut finds = 0;
    let mut counts = 0;
    for _ in 0..(MAX_TICKS_BEFORE_DRAGON_RESPAWN * 2) {
        let w = f.advance_dragon_timers();
        finds += w.find_or_create_dragon as i32;
        counts += w.update_crystal_count as i32;
    }
    assert_eq!(finds, 2);
    assert_eq!(counts, 2 * MAX_TICKS_BEFORE_DRAGON_RESPAWN / CRYSTAL_SCAN_INTERVAL);
    assert!(!f.record_dragon_search(Some(6)));
    assert_eq!(f.dragon_uuid(), Some(6));
    // A killed dragon stops the timers.
    f.finish_dragon_kill();
    for _ in 0..2000 {
        assert_eq!(f.advance_dragon_timers(), DragonWork { find_or_create_dragon: false, update_crystal_count: false });
    }
}

#[test]
fn crystal_count() {
    let mut f = DragonFight::new();
    let kinds = vec![EntityKind::EndCrystal, EntityKind::Other, EntityKind::EndCrystal, EntityKind::EnderDragon];
    assert_eq!(count_end_crystals(&kinds), 2);
    f.update_crystal_count(&kinds);
    assert_eq!(f.crystals_alive(), 2);
    f.update_crystal_count(&vec![]);
    assert_eq!(f.crystals_alive(), 0);
    assert!(!crystals_needed(&kinds));
    assert!(crystals_needed(&vec![EntityKind::Other, EntityKind::EnderDragon]));
    assert!(crystals_needed(&vec![]));
}

#[test]
fn dragon_kill_places_the_egg_once() {
    let mut f = fight_with_dragon(10);
    f.sync_bossbar_players(&vec![1, 2]);
    assert!(!f.is_fight_dragon(11));
    assert!(f.is_fight_dragon(10));
    assert_eq!(f.clear_bossbar_players(), vec![1, 2]);
    assert!(f.bossbar_players().is_empty());
    assert_eq!(f.fix_exit_portal_location(70, -64), BlockPos::new(0, 70, 0));
    assert_eq!(f.finish_dragon_kill(), Some(BlockPos::new(0, 74, 0)));
    assert!(f.dragon_killed() && f.previously_killed());
    assert_eq!(f.dragon_uuid(), None);
    assert!(!f.is_fight_dragon(10));
    f.record_spawned_dragon(12);
    assert_eq!(f.finish_dragon_kill(), None);
}

#[test]
fn no_egg_without_a_portal() {
    let mut f = fight_with_dragon(1);
    assert_eq!(f.finish_dragon_kill(), None);
    assert!(f.previously_killed());
}

#[test]
fn exit_portal_location() {
    let mut f = DragonFight::new();
    assert_eq!(f.fix_exit_portal_location(-70, -64), BlockPos::new(0, -63, 0));
    // Once known, the location stays.
    assert_eq!(f.fix_exit_portal_location(100, 0), BlockPos::new(0, -63, 0));
    assert_eq!(f.portal_location(), Some(BlockPos::new(0, -63, 0)));
}

#[test]
fn exit_portal_descent() {
    assert_eq!(exit_portal_descent_start(80), PortalDescent::Probe(80));
    assert_eq!(exit_portal_descent_start(63), PortalDescent::Settled(63));
    assert_eq!(exit_portal_descent_start(-10), PortalDescent::Settled(-10));
    assert_eq!(exit_portal_descent_step(80, false), PortalDescent::Settled(80));
    assert_eq!(exit_portal_descent_step(80, true), PortalDescent::Probe(79));
    assert_eq!(exit_portal_descent_step(64, true), PortalDescent::Settled(63));
    // Walking down a column with bedrock at 70..=75 from a top block at 75.
    let mut d = exit_portal_descent_start(75);
    while let PortalDescent::Probe(y) = d {
        d = exit_portal_descent_step(y, (70..=75).contains(&y));
    }
    assert_eq!(d, PortalDescent::Settled(69));
}

#[test]
fn crystal_scan() {
    assert_eq!(crystal_scan_step(103, true), CrystalScan::Place(104));
    assert_eq!(crystal_scan_step(103, false), CrystalScan::Probe(102));
    assert_eq!(crystal_scan_step(70, false), CrystalScan::Place(78));
    assert_eq!(crystal_scan_step(70, true), CrystalScan::Place(71));
    // A spike with its cap at 91 and bedrock lower down too.
    let mut s = CrystalScan::Probe(CRYSTAL_SCAN_TOP_Y);
    let mut probes = 0;
    while let CrystalScan::Probe(y) = s {
        probes += 1;
        s = crystal_scan_step(y, y == 91 || y == 72);
    }
    assert_eq!(s, CrystalScan::Place(92));
    assert_eq!(probes, CRYSTAL_SCAN_TOP_Y - 91 + 1);
    // No cap loaded: every height from 115 to 70 is looked at.
    let mut s = CrystalScan::Probe(CRYSTAL_SCAN_TOP_Y);
    let mut probes = 0;
    while let CrystalScan::Probe(y) = s {
        probes += 1;
        s = crystal_scan_step(y, false);
    }
    assert_eq!(s, CrystalScan::Place(78));
    assert_eq!(probes, CRYSTAL_SCAN_TOP_Y - CRYSTAL_SCAN_BOTTOM_Y + 1);
}

#[test]
fn portal_probes() {
    let probes = exit_portal_probes();
    assert_eq!(probes.len(), PORTAL_PROBE_COUNT);
    assert_eq!(probes.len(), 17 * 17 * 51);
    assert_eq!(probes[0], BlockPos::new(-128, 30, -128));
    assert_eq!(probes[50], BlockPos::new(-128, 80, -128));
    assert_eq!(probes[51], BlockPos::new(-128, 30, -112));
    assert_eq!(probes[17 * 51], BlockPos::new(-112, 30, -128));
    assert_eq!(probes[probes.len() - 1], BlockPos::new(128, 80, 128));
    assert!(probes.contains(&BlockPos::new(0, 55, 0)));
}

#[test]
fn portal_scan() {
    assert_eq!(portal_scan_step(0, true), PortalScan::Found);
    assert_eq!(portal_scan_step(0, false), PortalScan::Probe(1));
    assert_eq!(portal_scan_step(PORTAL_PROBE_COUNT - 1, false), PortalScan::Absent);
    let probes = exit_portal_probes();
    let run = |portal: BlockPos| {
        let mut s = PortalScan::Probe(0);
        let mut looked = 0;
        while let PortalScan::Probe(i) = s {
            looked += 1;
            s = portal_scan_step(i, probes[i] == portal);
        }
        (s, looked)
    };
    assert_eq!(run(BlockPos::new(0, 55, 0)), (PortalScan::Found, 8 * 17 * 51 + 8 * 51 + 26));
    assert_eq!(run(BlockPos::new(1, 55, 0)), (PortalScan::Absent, PORTAL_PROBE_COUNT));
}
