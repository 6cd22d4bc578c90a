//! The rows of the eight tables.
//!
//! Each row has a view of its own, which the contracts speak of: the same
//! fields, with text as a sequence of characters.

use crate::common::{InputState, Vector3};
use crate::identity::same_identity;
use crate::table::Row;
use spacetimedb::{Identity, Timestamp};
use vstd::prelude::*;

verus! {

/// When something that is scheduled runs, in microseconds.
#[derive(Clone, Copy, Debug, PartialEq, Eq)]
pub enum ScheduleAt {
    /// Again and again, this far apart.
    Interval(i64),
    /// Once, this long after the Unix epoch.
    Time(i64),
}

/// A member of the rescue team who is in the game.
#[derive(Debug, PartialEq)]
pub struct PlayerData {
    pub identity: Identity,
    pub username: String,
    pub character_class: String,
    pub position: Vector3,
    pub rotation: Vector3,
    pub health: i32,
    pub max_health: i32,
    pub mana: i32,
    pub max_mana: i32,
    pub current_animation: String,
    pub is_moving: bool,
    pub is_running: bool,
    pub is_attacking: bool,
    pub is_casting: bool,
    pub last_input_seq: u32,
    pub input: InputState,
    pub color: String,
}

/// What a `PlayerData` holds.
#[verifier::ext_equal]
pub struct PlayerView {
    pub identity: Identity,
    pub username: Seq<char>,
    pub character_class: Seq<char>,
    pub position: Vector3,
    pub rotation: Vector3,
    pub health: i32,
    pub max_health: i32,
    pub mana: i32,
    pub max_mana: i32,
    pub current_animation: Seq<char>,
    pub is_moving: bool,
    pub is_running: bool,
    pub is_attacking: bool,
    pub is_casting: bool,
    pub last_input_seq: u32,
    pub input: InputState,
    pub color: Seq<char>,
}

impl View for PlayerData {
    type V = PlayerView;

    open spec fn view(&self) -> PlayerView {
        PlayerView {
            identity: self.identity,
            username: self.username@,
            character_class: self.character_class@,
            position: self.position,
            rotation: self.rotation,
            health: self.health,
            max_health: self.max_health,
            mana: self.mana,
            max_mana: self.max_mana,
            current_animation: self.current_animation@,
            is_moving: self.is_moving,
            is_running: self.is_running,
            is_attacking: self.is_attacking,
            is_casting: self.is_casting,
            last_input_seq: self.last_input_seq,
            input: self.input,
            color: self.color@,
        }
    }
}

impl Row for PlayerData {
    type Key = Identity;

    open spec fn key(row: PlayerView) -> Identity {
        row.identity
    }

    fn has_key(&self, key: &Identity) -> (b: bool) {
        same_identity(&self.identity, key)
    }

    fn primary_key(&self) -> (key: Identity) {
        self.identity
    }

    fn duplicate(&self) -> (copy: PlayerData) {
        self.clone()
    }
}

impl Clone for PlayerData {
    fn clone(&self) -> (copy: PlayerData)
        ensures
            copy@ == self@,
    {
        PlayerData {
            identity: self.identity,
            username: self.username.clone(),
            character_class: self.character_class.clone(),
            position: self.position,
            rotation: self.rotation,
            health: self.health,
            max_health: self.max_health,
            mana: self.mana,
            max_mana: self.max_mana,
            current_animation: self.current_animation.clone(),
            is_moving: self.is_moving,
            is_running: self.is_running,
            is_attacking: self.is_attacking,
            is_casting: self.is_casting,
            last_input_seq: self.last_input_seq,
            input: self.input,
            color: self.color.clone(),
        }
    }
}

/// What is kept of a player who left.
#[derive(Debug, PartialEq)]
pub struct LoggedOutPlayerData {
    pub identity: Identity,
    pub username: String,
    pub character_class: String,
    pub color: String,
    pub last_seen: Timestamp,
}

/// What a `LoggedOutPlayerData` holds.
#[verifier::ext_equal]
pub struct LoggedOutPlayerView {
    pub identity: Identity,
    pub username: Seq<char>,
    pub character_class: Seq<char>,
    pub color: Seq<char>,
    pub last_seen: Timestamp,
}

impl View for LoggedOutPlayerData {
    type V = LoggedOutPlayerView;

    open spec fn view(&self) -> LoggedOutPlayerView {
        LoggedOutPlayerView {
            identity: self.identity,
            username: self.username@,
            character_class: self.character_class@,
            color: self.color@,
            last_seen: self.last_seen,
        }
    }
}

impl Row for LoggedOutPlayerData {
    type Key = Identity;

    open spec fn key(row: LoggedOutPlayerView) -> Identity {
        row.identity
    }

    fn has_key(&self, key: &Identity) -> (b: bool) {
        same_identity(&self.identity, key)
    }

    fn primary_key(&self) -> (key: Identity) {
        self.identity
    }

    fn duplicate(&self) -> (copy: LoggedOutPlayerData) {
        self.clone()
    }
}

impl Clone for LoggedOutPlayerData {
    fn clone(&self) -> (copy: LoggedOutPlayerData)
        ensures
            copy@ == self@,
    {
        LoggedOutPlayerData {
            identity: self.identity,
            username: self.username.clone(),
            character_class: self.character_class.clone(),
            color: self.color.clone(),
            last_seen: self.last_seen,
        }
    }
}

/// An NPC as clients render it. Clients act on a change of `seq`. The last two
/// fields are the lock that serializes who speaks for the NPC.
#[derive(Debug, PartialEq)]
pub struct Npc {
    pub npc_id: u64,
    pub display_name: String,
    /// `survivor` or `cultist`.
    pub archetype: String,
    pub position: Vector3,
    pub dialogue: String,
    /// `Cower`, `Threaten`, `Nod`, `Panic` or `Idle`.
    pub animation_trigger: String,
    /// `FLEE`, `FOLLOW`, `STAY_PUT` or `ATTACK`.
    pub game_action: String,
    pub target_player: Option<Identity>,
    /// Between 0 and 100.
    pub trust: i32,
    /// Between 0 and 100.
    pub sanity: i32,
    /// Grows by one with each reply.
    pub seq: u32,
    pub last_spoke_tick: i64,
    /// The NPC is locked while the clock is short of this tick.
    pub busy_until_tick: i64,
    /// The interaction that owns the lock, 0 for none.
    pub busy_interaction_id: u64,
}

/// What an `Npc` holds.
#[verifier::ext_equal]
pub struct NpcView {
    pub npc_id: u64,
    pub display_name: Seq<char>,
    pub archetype: Seq<char>,
    pub position: Vector3,
    pub dialogue: Seq<char>,
    pub animation_trigger: Seq<char>,
    pub game_action: Seq<char>,
    pub target_player: Option<Identity>,
    pub trust: i32,
    pub sanity: i32,
    pub seq: u32,
    pub last_spoke_tick: i64,
    pub busy_until_tick: i64,
    pub busy_interaction_id: u64,
}

impl View for Npc {
    type V = NpcView;

    open spec fn view(&self) -> NpcView {
        NpcView {
            npc_id: self.npc_id,
            display_name: self.display_name@,
            archetype: self.archetype@,
            position: self.position,
            dialogue: self.dialogue@,
            animation_trigger: self.animation_trigger@,
            game_action: self.game_action@,
            target_player: self.target_player,
            trust: self.trust,
            sanity: self.sanity,
            seq: self.seq,
            last_spoke_tick: self.last_spoke_tick,
            busy_until_tick: self.busy_until_tick,
            busy_interaction_id: self.busy_interaction_id,
        }
    }
}

impl Row for Npc {
    type Key = u64;

    open spec fn key(row: NpcView) -> u64 {
        row.npc_id
    }

    fn has_key(&self, key: &u64) -> (b: bool) {
        self.npc_id == *key
    }

    fn primary_key(&self) -> (key: u64) {
        self.npc_id
    }

    fn duplicate(&self) -> (copy: Npc) {
        self.clone()
    }
}

impl Clone for Npc {
    fn clone(&self) -> (copy: Npc)
        ensures
            copy@ == self@,
    {
        Npc {
            npc_id: self.npc_id,
            display_name: self.display_name.clone(),
            archetype: self.archetype.clone(),
            position: self.position,
            dialogue: self.dialogue.clone(),
            animation_trigger: self.animation_trigger.clone(),
            game_action: self.game_action.clone(),
            target_player: self.target_player,
            trust: self.trust,
            sanity: self.sanity,
            seq: self.seq,
            last_spoke_tick: self.last_spoke_tick,
            busy_until_tick: self.busy_until_tick,
            busy_interaction_id: self.busy_interaction_id,
        }
    }
}

/// The private side of an NPC: persona, memory, last raw output.
#[derive(Debug, PartialEq)]
pub struct NpcCognition {
    pub npc_id: u64,
    pub persona: String,
    pub memory: String,
    pub last_raw_output: String,
}

/// What an `NpcCognition` holds.
#[verifier::ext_equal]
pub struct NpcCognitionView {
    pub npc_id: u64,
    pub persona: Seq<char>,
    pub memory: Seq<char>,
    pub last_raw_output: Seq<char>,
}

impl View for NpcCognition {
    type V = NpcCognitionView;

    open spec fn view(&self) -> NpcCognitionView {
        NpcCognitionView {
            npc_id: self.npc_id,
            persona: self.persona@,
            memory: self.memory@,
            last_raw_output: self.last_raw_output@,
        }
    }
}

impl Row for NpcCognition {
    type Key = u64;

    open spec fn key(row: NpcCognitionView) -> u64 {
        row.npc_id
    }

    fn has_key(&self, key: &u64) -> (b: bool) {
        self.npc_id == *key
    }

    fn primary_key(&self) -> (key: u64) {
        self.npc_id
    }

    fn duplicate(&self) -> (copy: NpcCognition) {
        self.clone()
    }
}

impl Clone for NpcCognition {
    fn clone(&self) -> (copy: NpcCognition)
        ensures
            copy@ == self@,
    {
        NpcCognition {
            npc_id: self.npc_id,
            persona: self.persona.clone(),
            memory: self.memory.clone(),
            last_raw_output: self.last_raw_output.clone(),
        }
    }
}

/// One utterance of a player to an NPC, on its way through the director.
#[derive(Debug, PartialEq)]
pub struct NpcInteraction {
    pub id: u64,
    pub npc_id: u64,
    pub asker: Identity,
    /// `pending`, `claimed`, `done` or `failed`.
    pub status: String,
    /// The director that holds the claim.
    pub claimed_by: Option<Identity>,
    /// The bit pattern of a single-precision number.
    pub player_distance: u32,
    pub is_player_armed: bool,
    pub flashlight_in_face: bool,
    pub transcript: String,
    pub trust_at_ask: i32,
    pub sanity_at_ask: i32,
    pub created_tick: i64,
    /// When the claim was made or last renewed.
    pub claimed_tick: i64,
}

/// What an `NpcInteraction` holds.
#[verifier::ext_equal]
pub struct NpcInteractionView {
    pub id: u64,
    pub npc_id: u64,
    pub asker: Identity,
    pub status: Seq<char>,
    pub claimed_by: Option<Identity>,
    pub player_distance: u32,
    pub is_player_armed: bool,
    pub flashlight_in_face: bool,
    pub transcript: Seq<char>,
    pub trust_at_ask: i32,
    pub sanity_at_ask: i32,
    pub created_tick: i64,
    pub claimed_tick: i64,
}

impl View for NpcInteraction {
    type V = NpcInteractionView;

    open spec fn view(&self) -> NpcInteractionView {
        NpcInteractionView {
            id: self.id,
            npc_id: self.npc_id,
            asker: self.asker,
            status: self.status@,
            claimed_by: self.claimed_by,
            player_distance: self.player_distance,
            is_player_armed: self.is_player_armed,
            flashlight_in_face: self.flashlight_in_face,
            transcript: self.transcript@,
            trust_at_ask: self.trust_at_ask,
            sanity_at_ask: self.sanity_at_ask,
            created_tick: self.created_tick,
            claimed_tick: self.claimed_tick,
        }
    }
}

impl Row for NpcInteraction {
    type Key = u64;

    open spec fn key(row: NpcInteractionView) -> u64 {
        row.id
    }

    fn has_key(&self, key: &u64) -> (b: bool) {
        self.id == *key
    }

    fn primary_key(&self) -> (key: u64) {
        self.id
    }

    fn duplicate(&self) -> (copy: NpcInteraction) {
        self.clone()
    }
}

impl Clone for NpcInteraction {
    fn clone(&self) -> (copy: NpcInteraction)
        ensures
            copy@ == self@,
    {
        NpcInteraction {
            id: self.id,
            npc_id: self.npc_id,
            asker: self.asker,
            status: self.status.clone(),
            claimed_by: self.claimed_by,
            player_distance: self.player_distance,
            is_player_armed: self.is_player_armed,
            flashlight_in_face: self.flashlight_in_face,
            transcript: self.transcript.clone(),
            trust_at_ask: self.trust_at_ask,
            sanity_at_ask: self.sanity_at_ask,
            created_tick: self.created_tick,
            claimed_tick: self.claimed_tick,
        }
    }
}

/// The private transcript that goes with an interaction.
#[derive(Debug, PartialEq)]
pub struct NpcUtterance {
    pub interaction_id: u64,
    pub transcript: String,
}

/// What an `NpcUtterance` holds.
#[verifier::ext_equal]
pub struct NpcUtteranceView {
    pub interaction_id: u64,
    pub transcript: Seq<char>,
}

impl View for NpcUtterance {
    type V = NpcUtteranceView;

    open spec fn view(&self) -> NpcUtteranceView {
        NpcUtteranceView {
            interaction_id: self.interaction_id,
            transcript: self.transcript@,
        }
    }
}

impl Row for NpcUtterance {
    type Key = u64;

    open spec fn key(row: NpcUtteranceView) -> u64 {
        row.interaction_id
    }

    fn has_key(&self, key: &u64) -> (b: bool) {
        self.interaction_id == *key
    }

    fn primary_key(&self) -> (key: u64) {
        self.interaction_id
    }

    fn duplicate(&self) -> (copy: NpcUtterance) {
        self.clone()
    }
}

impl Clone for NpcUtterance {
    fn clone(&self) -> (copy: NpcUtterance)
        ensures
            copy@ == self@,
    {
        NpcUtterance {
            interaction_id: self.interaction_id,
            transcript: self.transcript.clone(),
        }
    }
}

/// The clock and the slow global environment. There is one row, under key 0.
#[derive(Debug, PartialEq)]
pub struct WorldState {
    pub id: u32,
    /// Seconds, counted up by one at each tick.
    pub now_tick: i64,
    /// `dawn`, `day`, `dusk` or `night`.
    pub time_of_day: String,
    /// `clear`, `fog`, `rain` or `storm`.
    pub weather_conditions: String,
}

/// What a `WorldState` holds.
#[verifier::ext_equal]
pub struct WorldStateView {
    pub id: u32,
    pub now_tick: i64,
    pub time_of_day: Seq<char>,
    pub weather_conditions: Seq<char>,
}

impl View for WorldState {
    type V = WorldStateView;

    open spec fn view(&self) -> WorldStateView {
        WorldStateView {
            id: self.id,
            now_tick: self.now_tick,
            time_of_day: self.time_of_day@,
            weather_conditions: self.weather_conditions@,
        }
    }
}

impl Row for WorldState {
    type Key = u32;

    open spec fn key(row: WorldStateView) -> u32 {
        row.id
    }

    fn has_key(&self, key: &u32) -> (b: bool) {
        self.id == *key
    }

    fn primary_key(&self) -> (key: u32) {
        self.id
    }

    fn duplicate(&self) -> (copy: WorldState) {
        self.clone()
    }
}

impl Clone for WorldState {
    fn clone(&self) -> (copy: WorldState)
        ensures
            copy@ == self@,
    {
        WorldState {
            id: self.id,
            now_tick: self.now_tick,
            time_of_day: self.time_of_day.clone(),
            weather_conditions: self.weather_conditions.clone(),
        }
    }
}

/// When the tick runs.
#[derive(Debug, PartialEq)]
pub struct GameTickSchedule {
    pub scheduled_id: u64,
    pub scheduled_at: ScheduleAt,
}

/// What a `GameTickSchedule` holds.
#[verifier::ext_equal]
pub struct GameTickScheduleView {
    pub scheduled_id: u64,
    pub scheduled_at: ScheduleAt,
}

impl View for GameTickSchedule {
    type V = GameTickScheduleView;

    open spec fn view(&self) -> GameTickScheduleView {
        GameTickScheduleView {
            scheduled_id: self.scheduled_id,
            scheduled_at: self.scheduled_at,
        }
    }
}

impl Row for GameTickSchedule {
    type Key = u64;

    open spec fn key(row: GameTickScheduleView) -> u64 {
        row.scheduled_id
    }

    fn has_key(&self, key: &u64) -> (b: bool) {
        self.scheduled_id == *key
    }

    fn primary_key(&self) -> (key: u64) {
        self.scheduled_id
    }

    fn duplicate(&self) -> (copy: GameTickSchedule) {
        self.clone()
    }
}

impl Clone for GameTickSchedule {
    fn clone(&self) -> (copy: GameTickSchedule)
        ensures
            copy@ == self@,
    {
        GameTickSchedule {
            scheduled_id: self.scheduled_id,
            scheduled_at: self.scheduled_at,
        }
    }
}

} // verus!
