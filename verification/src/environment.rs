//! What the director writes besides replies: the environment, and memories.

use crate::database::{Database, World};
use crate::schema::{NpcCognitionView, WorldStateView};
use vstd::prelude::*;

verus! {

/// The world after its environment was set. The clock goes on. A world without
/// a world state changes nothing.
pub open spec fn environment_set(
    w: World,
    time_of_day: Seq<char>,
    weather_conditions: Seq<char>,
) -> World {
    if w.world_state.contains_key(0) {
        World {
            world_state: w.world_state.insert(
                0,
                WorldStateView { time_of_day, weather_conditions, ..w.world_state[0] },
            ),
            ..w
        }
    } else {
        w
    }
}

/// The world after an NPC's memory was written. An NPC without a mind changes
/// nothing.
pub open spec fn memory_updated(w: World, npc_id: u64, memory: Seq<char>) -> World {
    if w.npc_cognition.contains_key(npc_id) {
        World {
            npc_cognition: w.npc_cognition.insert(
                npc_id,
                NpcCognitionView { memory, ..w.npc_cognition[npc_id] },
            ),
            ..w
        }
    } else {
        w
    }
}

/// Sets the time of day and the weather.
pub fn set_world_state(db: &mut Database, time_of_day: String, weather_conditions: String)
    requires
        old(db).wf(),
    ensures
        final(db).wf(),
        final(db).origin() == old(db).origin(),
        final(db)@ == environment_set(old(db)@, time_of_day@, weather_conditions@),
{
    match db.world_state.find(&0) {
        Some(mut ws) => {
            ws.time_of_day = time_of_day;
            ws.weather_conditions = weather_conditions;
            db.world_state.update(ws);
        },
        None => {},
    }
}

/// Writes what an NPC remembers.
pub fn update_npc_memory(db: &mut Database, npc_id: u64, memory: String)
    requires
        old(db).wf(),
    ensures
        final(db).wf(),
        final(db).origin() == old(db).origin(),
        final(db)@ == memory_updated(old(db)@, npc_id, memory@),
{
    match db.npc_cognition.find(&npc_id) {
        Some(mut mind) => {
            mind.memory = memory;
            db.npc_cognition.update(mind);
        },
        None => {},
    }
}

} // verus!
