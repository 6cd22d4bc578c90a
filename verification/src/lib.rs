//! Server-authoritative state of a co-op survival game.
//!
//! Players search a forest and speak to NPCs. A question waits in a mailbox
//! until a director claims it, has it answered, and writes the reply back. The
//! library holds the tables and the reducers that move them: each reducer works
//! on a [`Database`](database::Database) and states what it makes of it.

pub mod common;
pub mod database;
pub mod director;
pub mod effects;
pub mod environment;
pub mod history;
pub mod identity;
pub mod laws;
pub mod loading;
pub mod players;
pub mod roster;
pub mod schema;
pub mod soundness;
pub mod table;
pub mod text;
pub mod tick;

pub use crate::common::{InputState, Vector3};
pub use crate::database::{cur_tick, Database};
pub use crate::director::{
    ask_npc, claim_interaction, fail_interaction, npc_respond, refuse_claim, refuse_holder,
    refuse_question, refuse_reply, renew_claim,
};
pub use crate::environment::{set_world_state, update_npc_memory};
pub use crate::players::{
    default_input, identity_disconnected, register_player, update_player_input,
};
pub use crate::roster::{init, seed_npcs};
pub use crate::schema::{
    GameTickSchedule, LoggedOutPlayerData, Npc, NpcCognition, NpcInteraction, NpcUtterance,
    PlayerData, ScheduleAt, WorldState,
};
pub use crate::tick::game_tick;
