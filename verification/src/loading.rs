//! Working on a part of the world: which rows a reducer has to be given, and
//! what its recorded changes make of the whole.

use crate::database::{Database, World};
use crate::director::{asked_just_now, has_open_question, is_open, is_recent};
use crate::history::{allowed, step, Call};
use crate::table::{
    inserts_are_free, law_changes_keep_to_their_part, replaced, replayable, replayed,
};
use vstd::prelude::*;

verus! {

/// Whether every row of the part is a row of the world.
pub open spec fn part_of(part: World, w: World) -> bool {
    &&& part.player.submap_of(w.player)
    &&& part.logged_out_player.submap_of(w.logged_out_player)
    &&& part.npc.submap_of(w.npc)
    &&& part.npc_cognition.submap_of(w.npc_cognition)
    &&& part.npc_interaction.submap_of(w.npc_interaction)
    &&& part.npc_utterance.submap_of(w.npc_utterance)
    &&& part.world_state.submap_of(w.world_state)
    &&& part.game_tick_schedule.submap_of(w.game_tick_schedule)
}

/// The world after a part of it was replaced.
pub open spec fn put_back(w: World, part: World, by: World) -> World {
    World {
        player: replaced(w.player, part.player, by.player),
        logged_out_player: replaced(w.logged_out_player, part.logged_out_player, by.logged_out_player),
        npc: replaced(w.npc, part.npc, by.npc),
        npc_cognition: replaced(w.npc_cognition, part.npc_cognition, by.npc_cognition),
        npc_interaction: replaced(w.npc_interaction, part.npc_interaction, by.npc_interaction),
        npc_utterance: replaced(w.npc_utterance, part.npc_utterance, by.npc_utterance),
        world_state: replaced(w.world_state, part.world_state, by.world_state),
        game_tick_schedule: replaced(w.game_tick_schedule, part.game_tick_schedule, by.game_tick_schedule),
    }
}

/// Whether the part has the row under a key, if the world has one.
pub open spec fn has_row<K, V>(part: Map<K, V>, all: Map<K, V>, key: K) -> bool {
    all.contains_key(key) ==> part.contains_key(key)
}

/// Whether the part has the interaction and the NPC that it is about.
pub open spec fn has_interaction(part: World, w: World, id: u64) -> bool {
    &&& has_row(part.npc_interaction, w.npc_interaction, id)
    &&& w.npc_interaction.contains_key(id) ==> has_row(
        part.npc,
        w.npc,
        w.npc_interaction[id].npc_id,
    )
}

/// Whether the part has every row that a call reads.
pub open spec fn enough_for(part: World, w: World, call: Call) -> bool {
    let clock = has_row(part.world_state, w.world_state, 0);
    match call {
        Call::Init { .. } => clock && part.npc == w.npc && part.game_tick_schedule
            == w.game_tick_schedule,
        Call::SeedNpcs { .. } => part.npc == w.npc,
        Call::RegisterPlayer { client, .. } => part.player == w.player && has_row(
            part.logged_out_player,
            w.logged_out_player,
            client,
        ),
        Call::UpdatePlayerInput { client, .. } => has_row(part.player, w.player, client),
        Call::IdentityDisconnected { client, .. } => has_row(part.player, w.player, client),
        Call::AskNpc { npc_id, .. } => {
            &&& clock
            &&& has_row(part.npc, w.npc, npc_id)
            &&& forall|id: u64| #[trigger]
                w.npc_interaction.contains_key(id) && w.npc_interaction[id].npc_id == npc_id
                    ==> part.npc_interaction.contains_key(id)
        },
        Call::ClaimInteraction { id, .. } => clock && has_interaction(part, w, id),
        Call::RenewClaim { id, .. } => clock && has_interaction(part, w, id),
        Call::NpcRespond { npc_id, id, .. } => clock && has_row(part.npc, w.npc, npc_id) && has_row(
            part.npc_interaction,
            w.npc_interaction,
            id,
        ),
        Call::FailInteraction { id, .. } => has_interaction(part, w, id),
        Call::SetWorldState { .. } => clock,
        Call::UpdateNpcMemory { npc_id, .. } => has_row(part.npc_cognition, w.npc_cognition, npc_id),
        Call::GameTick => clock && part.npc == w.npc && part.npc_interaction == w.npc_interaction
            && part.npc_utterance == w.npc_utterance,
    }
}

/// A reducer that is given the rows that it reads does to them what it does to
/// the whole world: the call can be made on the part, and the world with the
/// part put back is the world after the call.
pub proof fn law_part_is_enough(w: World, part: World, call: Call)
    requires
        part_of(part, w),
        enough_for(part, w, call),
        allowed(w, call),
    ensures
        allowed(part, call),
        step(w, call) == put_back(w, part, step(part, call)),
{
    match call {
        Call::AskNpc { asker, npc_id, .. } => {
            assert forall|id: u64| #[trigger] part.npc_interaction.contains_key(id) implies {
                &&& w.npc_interaction.contains_key(id)
                &&& w.npc_interaction[id] == part.npc_interaction[id]
            } by {
                assert(part.npc_interaction.dom().contains(id));
            }
            if has_open_question(w, asker, npc_id) {
                let id = choose|id: u64| #[trigger]
                    w.npc_interaction.contains_key(id) && w.npc_interaction[id].npc_id == npc_id
                        && w.npc_interaction[id].asker == asker && is_open(w.npc_interaction[id]);
                assert(part.npc_interaction.contains_key(id));
            }
            if asked_just_now(w, asker, npc_id) {
                let id = choose|id: u64| #[trigger]
                    w.npc_interaction.contains_key(id) && w.npc_interaction[id].npc_id == npc_id
                        && w.npc_interaction[id].asker == asker && is_recent(
                        w.npc_interaction[id].created_tick,
                        w.now(),
                    );
                assert(part.npc_interaction.contains_key(id));
            }
            assert(has_open_question(w, asker, npc_id) == has_open_question(part, asker, npc_id));
            assert(asked_just_now(w, asker, npc_id) == asked_just_now(part, asker, npc_id));
        },
        _ => {},
    }
    let whole = step(w, call);
    let back = put_back(w, part, step(part, call));
    assert(whole.player =~= back.player);
    assert(whole.logged_out_player =~= back.logged_out_player);
    assert(whole.npc =~= back.npc);
    assert(whole.npc_cognition =~= back.npc_cognition);
    assert(whole.npc_interaction =~= back.npc_interaction);
    assert(whole.npc_utterance =~= back.npc_utterance);
    assert(whole.world_state =~= back.world_state);
    assert(whole.game_tick_schedule =~= back.game_tick_schedule);
}

/// Whether every key that was inserted is free among the rows of the world that
/// were not loaded.
pub open spec fn inserts_fit(w: World, db: &Database) -> bool {
    &&& inserts_are_free(w.player, db.player.origin(), db.player.changes())
    &&& inserts_are_free(w.logged_out_player, db.logged_out_player.origin(), db.logged_out_player.changes())
    &&& inserts_are_free(w.npc, db.npc.origin(), db.npc.changes())
    &&& inserts_are_free(w.npc_cognition, db.npc_cognition.origin(), db.npc_cognition.changes())
    &&& inserts_are_free(w.npc_interaction, db.npc_interaction.origin(), db.npc_interaction.changes())
    &&& inserts_are_free(w.npc_utterance, db.npc_utterance.origin(), db.npc_utterance.changes())
    &&& inserts_are_free(w.world_state, db.world_state.origin(), db.world_state.changes())
    &&& inserts_are_free(w.game_tick_schedule, db.game_tick_schedule.origin(), db.game_tick_schedule.changes())
}

/// The world after the recorded changes of a database were made in it.
pub open spec fn saved(w: World, db: &Database) -> World {
    World {
        player: replayed(w.player, db.player.changes()),
        logged_out_player: replayed(w.logged_out_player, db.logged_out_player.changes()),
        npc: replayed(w.npc, db.npc.changes()),
        npc_cognition: replayed(w.npc_cognition, db.npc_cognition.changes()),
        npc_interaction: replayed(w.npc_interaction, db.npc_interaction.changes()),
        npc_utterance: replayed(w.npc_utterance, db.npc_utterance.changes()),
        world_state: replayed(w.world_state, db.world_state.changes()),
        game_tick_schedule: replayed(w.game_tick_schedule, db.game_tick_schedule.changes()),
    }
}

/// Loading the rows that a reducer reads, calling it, and making the recorded
/// changes in the store leads the store to the world after the call. Each of the
/// changes can be made there when its turn comes.
pub proof fn law_saving_completes_the_call(w: World, db: &Database, call: Call)
    requires
        db.wf(),
        part_of(db.origin(), w),
        enough_for(db.origin(), w, call),
        allowed(w, call),
        db@ == step(db.origin(), call),
        inserts_fit(w, db),
    ensures
        saved(w, db) == step(w, call),
        replayable(w.player, db.player.changes()),
        replayable(w.logged_out_player, db.logged_out_player.changes()),
        replayable(w.npc, db.npc.changes()),
        replayable(w.npc_cognition, db.npc_cognition.changes()),
        replayable(w.npc_interaction, db.npc_interaction.changes()),
        replayable(w.npc_utterance, db.npc_utterance.changes()),
        replayable(w.world_state, db.world_state.changes()),
        replayable(w.game_tick_schedule, db.game_tick_schedule.changes()),
{
    law_part_is_enough(w, db.origin(), call);
    db.player.law_replay();
    law_changes_keep_to_their_part(w.player, db.player.origin(), db.player.changes());
    db.logged_out_player.law_replay();
    law_changes_keep_to_their_part(w.logged_out_player, db.logged_out_player.origin(), db.logged_out_player.changes());
    db.npc.law_replay();
    law_changes_keep_to_their_part(w.npc, db.npc.origin(), db.npc.changes());
    db.npc_cognition.law_replay();
    law_changes_keep_to_their_part(w.npc_cognition, db.npc_cognition.origin(), db.npc_cognition.changes());
    db.npc_interaction.law_replay();
    law_changes_keep_to_their_part(w.npc_interaction, db.npc_interaction.origin(), db.npc_interaction.changes());
    db.npc_utterance.law_replay();
    law_changes_keep_to_their_part(w.npc_utterance, db.npc_utterance.origin(), db.npc_utterance.changes());
    db.world_state.law_replay();
    law_changes_keep_to_their_part(w.world_state, db.world_state.origin(), db.world_state.changes());
    db.game_tick_schedule.law_replay();
    law_changes_keep_to_their_part(w.game_tick_schedule, db.game_tick_schedule.origin(), db.game_tick_schedule.changes());
}

} // verus!
