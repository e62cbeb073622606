use pumpkin::world_host::{
    block_flags_from_wit, piston_behavior_to_wit, PistonBehavior, WitBlockFlags, WitPistonBehavior, FORCE_STATE,
    MOVED, NOTIFY_ALL, SKIP_BLOCK_ADDED_CALLBACK, SKIP_DROPS, SKIP_REDSTONE_WIRE_STATE_REPLACEMENT,
};

fn none() -> WitBlockFlags {
    WitBlockFlags {
        notify_neighbors: false,
        notify_listeners: false,
        force_state: false,
        skip_drops: false,
        moved: false,
        skip_redstone_wire_state_replacement: false,
        skip_block_entity_replaced_callback: false,
        skip_block_added_callback: false,
    }
}

#[test]
fn flags_map_one_by_one() {
    assert_eq!(block_flags_from_wit(none()).bits, 0);
    let all = block_flags_from_wit(WitBlockFlags { notify_neighbors: true, notify_listeners: true, ..none() });
    assert_eq!(all.bits, NOTIFY_ALL);
    assert!(all.contains(NOTIFY_ALL));
    let f = block_flags_from_wit(WitBlockFlags { moved: true, skip_block_added_callback: true, ..none() });
    assert_eq!(f.bits, MOVED | SKIP_BLOCK_ADDED_CALLBACK);
    assert!(f.contains(MOVED) && !f.contains(SKIP_DROPS));
    let every = WitBlockFlags {
        notify_neighbors: true,
        notify_listeners: true,
        force_state: true,
        skip_drops: true,
        moved: true,
        skip_redstone_wire_state_replacement: true,
        skip_block_entity_replaced_callback: true,
        skip_block_added_callback: true,
    };
    assert_eq!(block_flags_from_wit(every).bits, 0xff);
    assert_eq!(block_flags_from_wit(WitBlockFlags { force_state: true, ..none() }).bits, FORCE_STATE);
    assert_eq!(
        block_flags_from_wit(WitBlockFlags { skip_redstone_wire_state_replacement: true, ..none() }).bits,
        SKIP_REDSTONE_WIRE_STATE_REPLACEMENT
    );
}

#[test]
fn piston_behaviour_names() {
    assert_eq!(piston_behavior_to_wit(PistonBehavior::Normal), WitPistonBehavior::Normal);
    assert_eq!(piston_behavior_to_wit(PistonBehavior::Destroy), WitPistonBehavior::Destroy);
    assert_eq!(piston_behavior_to_wit(PistonBehavior::Block), WitPistonBehavior::Block);
    assert_eq!(piston_behavior_to_wit(PistonBehavior::Ignore), WitPistonBehavior::Ignore);
    assert_eq!(piston_behavior_to_wit(PistonBehavior::PushOnly), WitPistonBehavior::PushOnly);
}
