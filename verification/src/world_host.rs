//! What the plugin host translates between the plugin interface and the
//! world: block update flags and piston behaviour.

use vstd::prelude::*;

verus! {

/// The block update flags that a plugin passes with a block change.
#[derive(Debug, Clone, Copy, PartialEq, Eq, Structural)]
pub struct WitBlockFlags {
    pub notify_neighbors: bool,
    pub notify_listeners: bool,
    pub force_state: bool,
    pub skip_drops: bool,
    pub moved: bool,
    pub skip_redstone_wire_state_replacement: bool,
    pub skip_block_entity_replaced_callback: bool,
    pub skip_block_added_callback: bool,
}

/// The world's block update flags, as bits.
#[derive(Debug, Clone, Copy, PartialEq, Eq, Structural)]
pub struct BlockFlags {
    pub bits: u32,
}

pub const NOTIFY_NEIGHBORS: u32 = 0b0000_0001;

pub const NOTIFY_LISTENERS: u32 = 0b0000_0010;

pub const NOTIFY_ALL: u32 = 0b0000_0011;

pub const FORCE_STATE: u32 = 0b0000_0100;

pub const SKIP_DROPS: u32 = 0b0000_1000;

pub const MOVED: u32 = 0b0001_0000;

pub const SKIP_REDSTONE_WIRE_STATE_REPLACEMENT: u32 = 0b0010_0000;

pub const SKIP_BLOCK_ENTITY_REPLACED_CALLBACK: u32 = 0b0100_0000;

pub const SKIP_BLOCK_ADDED_CALLBACK: u32 = 0b1000_0000;

impl BlockFlags {
    pub open spec fn has(self, flag: u32) -> bool {
        self.bits & flag == flag
    }

    pub fn empty() -> (f: BlockFlags)
        ensures
            f.bits == 0,
    {
        BlockFlags { bits: 0 }
    }

    /// Whether every bit of `flag` is set.
    pub fn contains(&self, flag: u32) -> (b: bool)
        ensures
            b == self.has(flag),
    {
        self.bits & flag == flag
    }
}

/// The bit of a flag that is set.
pub open spec fn bit_if(set: bool, flag: u32) -> u32 {
    if set {
        flag
    } else {
        0
    }
}

/// The world flags with the same meaning as the plugin's flags.
pub open spec fn wit_flag_bits(f: WitBlockFlags) -> u32 {
    (bit_if(f.notify_neighbors, NOTIFY_NEIGHBORS) + bit_if(f.notify_listeners, NOTIFY_LISTENERS)
        + bit_if(f.force_state, FORCE_STATE) + bit_if(f.skip_drops, SKIP_DROPS) + bit_if(
        f.moved,
        MOVED,
    ) + bit_if(f.skip_redstone_wire_state_replacement, SKIP_REDSTONE_WIRE_STATE_REPLACEMENT)
        + bit_if(f.skip_block_entity_replaced_callback, SKIP_BLOCK_ENTITY_REPLACED_CALLBACK)
        + bit_if(f.skip_block_added_callback, SKIP_BLOCK_ADDED_CALLBACK)) as u32
}

/// Sets `flag`, a single bit above every bit set so far.
fn add_flag(bits: u32, set: bool, flag: u32) -> (r: u32)
    requires
        flag == 1 || flag == 2 || flag == 4 || flag == 8 || flag == 16 || flag == 32 || flag
            == 64 || flag == 128,
        bits < flag,
    ensures
        r == bits + bit_if(set, flag),
        r < 2 * flag,
{
    if set {
        assert(bits < flag && (flag == 1 || flag == 2 || flag == 4 || flag == 8 || flag == 16
            || flag == 32 || flag == 64 || flag == 128) ==> bits | flag == bits + flag)
            by (bit_vector);
        bits | flag
    } else {
        bits
    }
}

/// Maps the plugin's block update flags to the world's, flag by flag.
pub fn block_flags_from_wit(update_flags: WitBlockFlags) -> (f: BlockFlags)
    ensures
        f.bits == wit_flag_bits(update_flags),
        f.has(NOTIFY_NEIGHBORS) == update_flags.notify_neighbors,
        f.has(NOTIFY_LISTENERS) == update_flags.notify_listeners,
        f.has(FORCE_STATE) == update_flags.force_state,
        f.has(SKIP_DROPS) == update_flags.skip_drops,
        f.has(MOVED) == update_flags.moved,
        f.has(SKIP_REDSTONE_WIRE_STATE_REPLACEMENT)
            == update_flags.skip_redstone_wire_state_replacement,
        f.has(SKIP_BLOCK_ENTITY_REPLACED_CALLBACK)
            == update_flags.skip_block_entity_replaced_callback,
        f.has(SKIP_BLOCK_ADDED_CALLBACK) == update_flags.skip_block_added_callback,
{
    let mut bits: u32 = BlockFlags::empty().bits;
    bits = add_flag(bits, update_flags.notify_neighbors, NOTIFY_NEIGHBORS);
    bits = add_flag(bits, update_flags.notify_listeners, NOTIFY_LISTENERS);
    bits = add_flag(bits, update_flags.force_state, FORCE_STATE);
    bits = add_flag(bits, update_flags.skip_drops, SKIP_DROPS);
    bits = add_flag(bits, update_flags.moved, MOVED);
    bits = add_flag(
        bits,
        update_flags.skip_redstone_wire_state_replacement,
        SKIP_REDSTONE_WIRE_STATE_REPLACEMENT,
    );
    bits = add_flag(
        bits,
        update_flags.skip_block_entity_replaced_callback,
        SKIP_BLOCK_ENTITY_REPLACED_CALLBACK,
    );
    bits = add_flag(bits, update_flags.skip_block_added_callback, SKIP_BLOCK_ADDED_CALLBACK);
    let f = BlockFlags { bits };
    proof {
        let (a, b, c, d, e, g, h, k) = (
            update_flags.notify_neighbors,
            update_flags.notify_listeners,
            update_flags.force_state,
            update_flags.skip_drops,
            update_flags.moved,
            update_flags.skip_redstone_wire_state_replacement,
            update_flags.skip_block_entity_replaced_callback,
            update_flags.skip_block_added_callback,
        );
        let x: u32 = bits;
        assert(x == (if a { 1u32 } else { 0u32 }) + (if b { 2u32 } else { 0u32 }) + (if c {
            4u32
        } else {
            0u32
        }) + (if d { 8u32 } else { 0u32 }) + (if e { 16u32 } else { 0u32 }) + (if g {
            32u32
        } else {
            0u32
        }) + (if h { 64u32 } else { 0u32 }) + (if k { 128u32 } else { 0u32 }) ==> {
            &&& (x & 1 == 1) == a
            &&& (x & 2 == 2) == b
            &&& (x & 4 == 4) == c
            &&& (x & 8 == 8) == d
            &&& (x & 16 == 16) == e
            &&& (x & 32 == 32) == g
            &&& (x & 64 == 64) == h
            &&& (x & 128 == 128) == k
        }) by (bit_vector);
    }
    f
}

/// How a block reacts to pistons, in the world.
#[derive(Debug, Clone, Copy, PartialEq, Eq, Structural)]
pub enum PistonBehavior {
    Normal,
    Destroy,
    Block,
    Ignore,
    PushOnly,
}

/// How a block reacts to pistons, as the plugin interface names it.
#[derive(Debug, Clone, Copy, PartialEq, Eq, Structural)]
pub enum WitPistonBehavior {
    Normal,
    Destroy,
    Block,
    Ignore,
    PushOnly,
}

/// The plugin interface's name of a piston behaviour.
pub fn piston_behavior_to_wit(b: PistonBehavior) -> (w: WitPistonBehavior)
    ensures
        w == match b {
            PistonBehavior::Normal => WitPistonBehavior::Normal,
            PistonBehavior::Destroy => WitPistonBehavior::Destroy,
            PistonBehavior::Block => WitPistonBehavior::Block,
            PistonBehavior::Ignore => WitPistonBehavior::Ignore,
            PistonBehavior::PushOnly => WitPistonBehavior::PushOnly,
        },
{
    match b {
        PistonBehavior::Normal => WitPistonBehavior::Normal,
        PistonBehavior::Destroy => WitPistonBehavior::Destroy,
        PistonBehavior::Block => WitPistonBehavior::Block,
        PistonBehavior::Ignore => WitPistonBehavior::Ignore,
        PistonBehavior::PushOnly => WitPistonBehavior::PushOnly,
    }
}

} // verus!
