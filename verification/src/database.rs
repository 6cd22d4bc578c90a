//! All tables together, and the clock.

use crate::schema::{
    GameTickSchedule, GameTickScheduleView, LoggedOutPlayerData, LoggedOutPlayerView, Npc,
    NpcCognition, NpcCognitionView, NpcInteraction, NpcInteractionView, NpcUtterance,
    NpcUtteranceView, NpcView, PlayerData, PlayerView, WorldState, WorldStateView,
};
use crate::table::Table;
use spacetimedb::Identity;
use vstd::prelude::*;

verus! {

/// The tables.
pub struct Database {
    pub player: Table<PlayerData>,
    pub logged_out_player: Table<LoggedOutPlayerData>,
    pub npc: Table<Npc>,
    pub npc_cognition: Table<NpcCognition>,
    pub npc_interaction: Table<NpcInteraction>,
    pub npc_utterance: Table<NpcUtterance>,
    pub world_state: Table<WorldState>,
    pub game_tick_schedule: Table<GameTickSchedule>,
}

/// What the tables hold.
#[verifier::ext_equal]
pub struct World {
    pub player: Map<Identity, PlayerView>,
    pub logged_out_player: Map<Identity, LoggedOutPlayerView>,
    pub npc: Map<u64, NpcView>,
    pub npc_cognition: Map<u64, NpcCognitionView>,
    pub npc_interaction: Map<u64, NpcInteractionView>,
    pub npc_utterance: Map<u64, NpcUtteranceView>,
    pub world_state: Map<u32, WorldStateView>,
    pub game_tick_schedule: Map<u64, GameTickScheduleView>,
}

impl World {
    /// The time: the tick of the world state, 0 where there is none.
    pub open spec fn now(self) -> i64 {
        if self.world_state.contains_key(0) {
            self.world_state[0].now_tick
        } else {
            0
        }
    }

    /// Whether this is what tables can hold: finitely many rows, each under its
    /// own key.
    pub open spec fn valid(self) -> bool {
        &&& self.player.dom().finite()
        &&& self.logged_out_player.dom().finite()
        &&& self.npc.dom().finite()
        &&& self.npc_cognition.dom().finite()
        &&& self.npc_interaction.dom().finite()
        &&& self.npc_utterance.dom().finite()
        &&& self.world_state.dom().finite()
        &&& self.game_tick_schedule.dom().finite()
        &&& forall|k: Identity| #[trigger]
            self.player.contains_key(k) ==> self.player[k].identity == k
        &&& forall|k: Identity| #[trigger]
            self.logged_out_player.contains_key(k) ==> self.logged_out_player[k].identity == k
        &&& forall|k: u64| #[trigger] self.npc.contains_key(k) ==> self.npc[k].npc_id == k
        &&& forall|k: u64| #[trigger]
            self.npc_cognition.contains_key(k) ==> self.npc_cognition[k].npc_id == k
        &&& forall|k: u64| #[trigger]
            self.npc_interaction.contains_key(k) ==> self.npc_interaction[k].id == k
        &&& forall|k: u64| #[trigger]
            self.npc_utterance.contains_key(k) ==> self.npc_utterance[k].interaction_id == k
        &&& forall|k: u32| #[trigger]
            self.world_state.contains_key(k) ==> self.world_state[k].id == k
        &&& forall|k: u64| #[trigger]
            self.game_tick_schedule.contains_key(k) ==> self.game_tick_schedule[k].scheduled_id
                == k
    }
}

impl View for Database {
    type V = World;

    open spec fn view(&self) -> World {
        World {
            player: self.player@,
            logged_out_player: self.logged_out_player@,
            npc: self.npc@,
            npc_cognition: self.npc_cognition@,
            npc_interaction: self.npc_interaction@,
            npc_utterance: self.npc_utterance@,
            world_state: self.world_state@,
            game_tick_schedule: self.game_tick_schedule@,
        }
    }
}

impl Database {
    /// The invariant: that of each table.
    pub open spec fn wf(&self) -> bool {
        &&& self.player.wf()
        &&& self.logged_out_player.wf()
        &&& self.npc.wf()
        &&& self.npc_cognition.wf()
        &&& self.npc_interaction.wf()
        &&& self.npc_utterance.wf()
        &&& self.world_state.wf()
        &&& self.game_tick_schedule.wf()
    }

    /// Whether nothing was changed since the tables were loaded.
    pub open spec fn unchanged(&self) -> bool {
        &&& self.player.changes().len() == 0
        &&& self.logged_out_player.changes().len() == 0
        &&& self.npc.changes().len() == 0
        &&& self.npc_cognition.changes().len() == 0
        &&& self.npc_interaction.changes().len() == 0
        &&& self.npc_utterance.changes().len() == 0
        &&& self.world_state.changes().len() == 0
        &&& self.game_tick_schedule.changes().len() == 0
    }

    /// What the tables held when they were loaded.
    pub open spec fn origin(&self) -> World {
        World {
            player: self.player.origin(),
            logged_out_player: self.logged_out_player.origin(),
            npc: self.npc.origin(),
            npc_cognition: self.npc_cognition.origin(),
            npc_interaction: self.npc_interaction.origin(),
            npc_utterance: self.npc_utterance.origin(),
            world_state: self.world_state.origin(),
            game_tick_schedule: self.game_tick_schedule.origin(),
        }
    }

    /// What the tables hold is valid.
    pub proof fn lemma_valid(&self)
        requires
            self.wf(),
        ensures
            self@.valid(),
    {
        self.player.lemma_keyed();
        self.logged_out_player.lemma_keyed();
        self.npc.lemma_keyed();
        self.npc_cognition.lemma_keyed();
        self.npc_interaction.lemma_keyed();
        self.npc_utterance.lemma_keyed();
        self.world_state.lemma_keyed();
        self.game_tick_schedule.lemma_keyed();
    }

    /// A database whose tables are empty, with no change recorded.
    pub fn new() -> (db: Database)
        ensures
            db.wf(),
            db@ == (World {
                player: Map::empty(),
                logged_out_player: Map::empty(),
                npc: Map::empty(),
                npc_cognition: Map::empty(),
                npc_interaction: Map::empty(),
                npc_utterance: Map::empty(),
                world_state: Map::empty(),
                game_tick_schedule: Map::empty(),
            }),
            db.origin() == db@,
            db.unchanged(),
    {
        Database {
            player: Table::new(),
            logged_out_player: Table::new(),
            npc: Table::new(),
            npc_cognition: Table::new(),
            npc_interaction: Table::new(),
            npc_utterance: Table::new(),
            world_state: Table::new(),
            game_tick_schedule: Table::new(),
        }
    }
}

/// The time: the tick of the world state, 0 where there is none.
pub fn cur_tick(db: &Database) -> (now: i64)
    requires
        db.wf(),
    ensures
        now == db@.now(),
{
    match db.world_state.find(&0) {
        Some(ws) => ws.now_tick,
        None => 0,
    }
}

} // verus!
