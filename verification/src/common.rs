//! Shared values and tuning constants.

use vstd::prelude::*;

verus! {

/// A point or a set of angles. Each coordinate is the bit pattern of a
/// single-precision number: the rules here carry coordinates, they do not
/// compute with them.
#[derive(Clone, Copy, Debug, PartialEq, Eq)]
pub struct Vector3 {
    pub x: u32,
    pub y: u32,
    pub z: u32,
}

/// What a player's controls were doing when the client last reported them.
#[derive(Clone, Copy, Debug, PartialEq, Eq)]
pub struct InputState {
    pub forward: bool,
    pub backward: bool,
    pub left: bool,
    pub right: bool,
    pub sprint: bool,
    pub jump: bool,
    pub attack: bool,
    pub cast_spell: bool,
    pub sequence: u32,
}

/// How long a claim holds an interaction and its NPC without a heartbeat, in
/// ticks.
pub const CLAIM_TIMEOUT_TICKS: i64 = 60;

/// The least number of ticks between accepted utterances to one NPC from any
/// single asker, against spam. An NPC that spoke is left in peace as long.
pub const MIN_GAP: i64 = 2;

/// How many characters of a player's speech are kept.
pub const TRANSCRIPT_CAP: usize = 400;

/// How many characters an NPC says at once.
pub const DIALOGUE_CAP: usize = 300;

/// How many interactions are kept before finished ones are pruned.
pub const INTERACTION_PRUNE_CAP: usize = 60;

/// How many interactions one tick prunes at most.
pub const INTERACTION_PRUNE_BATCH: usize = 20;

} // verus!
