//! Histories: what a world becomes under a series of calls.
//!
//! A [`Call`] stands for a call of one reducer. What [`step`] makes of a world is
//! what that reducer's contract says.

use crate::common::CLAIM_TIMEOUT_TICKS;
use crate::database::World;
use crate::director::{
    ask_refusal, asked, claim_guard, claim_refusal, claimed, failed, owns_lock, renewed,
    respond_refusal, responded, ReplyView,
};
use crate::environment::{environment_set, memory_updated};
use crate::players::{disconnected, input_updated, registered};
use crate::roster::{ids_free, initialized, seeded};
use crate::schema::PlayerView;
use crate::tick::ticked;
use spacetimedb::{Identity, Timestamp};
use vstd::prelude::*;

verus! {

/// A call of one of the reducers.
pub enum Call {
    Init { schedule_id: u64, npc_ids: [u64; 3] },
    SeedNpcs { ids: [u64; 3] },
    RegisterPlayer { client: Identity, username: Seq<char>, character_class: Seq<char> },
    UpdatePlayerInput { client: Identity, moved: PlayerView },
    IdentityDisconnected { client: Identity, at: Timestamp },
    AskNpc {
        asker: Identity,
        npc_id: u64,
        transcript: Seq<char>,
        player_distance: u32,
        is_player_armed: bool,
        flashlight_in_face: bool,
        assigned_id: u64,
    },
    ClaimInteraction { director: Identity, id: u64 },
    RenewClaim { director: Identity, id: u64 },
    NpcRespond { director: Identity, npc_id: u64, id: u64, reply: ReplyView },
    FailInteraction { director: Identity, id: u64 },
    SetWorldState { time_of_day: Seq<char>, weather_conditions: Seq<char> },
    UpdateNpcMemory { npc_id: u64, memory: Seq<char> },
    GameTick,
}

/// Whether a call can be made: what the reducer requires.
pub open spec fn allowed(w: World, call: Call) -> bool {
    match call {
        Call::Init { schedule_id, npc_ids } => w.npc.dom().len() == 0 ==> ids_free(w, npc_ids),
        Call::SeedNpcs { ids } => w.npc.dom().len() == 0 ==> ids_free(w, ids),
        Call::IdentityDisconnected { client, at } => w.player.contains_key(client)
            ==> !w.logged_out_player.contains_key(client),
        Call::AskNpc { asker, npc_id, assigned_id, .. } => ask_refusal(w, asker, npc_id) is None
            ==> !w.npc_interaction.contains_key(assigned_id) && !w.npc_utterance.contains_key(
            assigned_id,
        ),
        Call::ClaimInteraction { director, id } => claim_refusal(w, id) is None ==> w.now()
            + CLAIM_TIMEOUT_TICKS <= i64::MAX,
        Call::RenewClaim { director, id } => claim_guard(w, director, id) is None && owns_lock(
            w,
            id,
        ) ==> w.now() + CLAIM_TIMEOUT_TICKS <= i64::MAX,
        Call::NpcRespond { director, npc_id, id, reply } => respond_refusal(
            w,
            director,
            npc_id,
            id,
        ) is None ==> w.npc[npc_id].seq < u32::MAX,
        Call::GameTick => w.now() < i64::MAX,
        _ => true,
    }
}

/// The world after a call. A refused call leaves it as it is.
pub open spec fn step(w: World, call: Call) -> World {
    match call {
        Call::Init { schedule_id, npc_ids } => initialized(w, schedule_id, npc_ids),
        Call::SeedNpcs { ids } => seeded(w, ids),
        Call::RegisterPlayer { client, username, character_class } => registered(
            w,
            client,
            username,
            character_class,
        ),
        Call::UpdatePlayerInput { client, moved } => input_updated(w, client, moved),
        Call::IdentityDisconnected { client, at } => disconnected(w, client, at),
        Call::AskNpc {
            asker,
            npc_id,
            transcript,
            player_distance,
            is_player_armed,
            flashlight_in_face,
            assigned_id,
        } => if ask_refusal(w, asker, npc_id) is Some {
            w
        } else {
            asked(
                w,
                assigned_id,
                asker,
                npc_id,
                transcript,
                player_distance,
                is_player_armed,
                flashlight_in_face,
            )
        },
        Call::ClaimInteraction { director, id } => if claim_refusal(w, id) is Some {
            w
        } else {
            claimed(w, director, id)
        },
        Call::RenewClaim { director, id } => if claim_guard(w, director, id) is Some {
            w
        } else {
            renewed(w, id)
        },
        Call::NpcRespond { director, npc_id, id, reply } => if respond_refusal(
            w,
            director,
            npc_id,
            id,
        ) is Some {
            w
        } else {
            responded(w, npc_id, id, reply)
        },
        Call::FailInteraction { director, id } => if claim_guard(w, director, id) is Some {
            w
        } else {
            failed(w, id)
        },
        Call::SetWorldState { time_of_day, weather_conditions } => environment_set(
            w,
            time_of_day,
            weather_conditions,
        ),
        Call::UpdateNpcMemory { npc_id, memory } => memory_updated(w, npc_id, memory),
        Call::GameTick => ticked(w),
    }
}

/// The world after a series of calls, made in order.
pub open spec fn after(w: World, calls: Seq<Call>) -> World
    decreases calls.len(),
{
    if calls.len() == 0 {
        w
    } else {
        step(after(w, calls.drop_last()), calls.last())
    }
}

/// Whether a series of calls can be made, each one where it stands.
pub open spec fn all_allowed(w: World, calls: Seq<Call>) -> bool
    decreases calls.len(),
{
    calls.len() > 0 ==> {
        &&& all_allowed(w, calls.drop_last())
        &&& allowed(after(w, calls.drop_last()), calls.last())
    }
}

/// How many of the calls are ticks.
pub open spec fn ticks(calls: Seq<Call>) -> nat
    decreases calls.len(),
{
    if calls.len() == 0 {
        0
    } else {
        ticks(calls.drop_last()) + if calls.last() is GameTick {
            1nat
        } else {
            0nat
        }
    }
}

/// Whether a call is made on an interaction: a claim, a heartbeat, a reply or
/// giving up.
pub open spec fn acts_on(call: Call, interaction_id: u64) -> bool {
    match call {
        Call::ClaimInteraction { id, .. } => id == interaction_id,
        Call::RenewClaim { id, .. } => id == interaction_id,
        Call::NpcRespond { id, .. } => id == interaction_id,
        Call::FailInteraction { id, .. } => id == interaction_id,
        _ => false,
    }
}

/// Whether a call is one that the holder of a claim makes on it: a heartbeat, a
/// reply or giving up.
pub open spec fn acts_as_holder(call: Call, holder: Identity, interaction_id: u64) -> bool {
    match call {
        Call::RenewClaim { director, id } => director == holder && id == interaction_id,
        Call::NpcRespond { director, id, .. } => director == holder && id == interaction_id,
        Call::FailInteraction { director, id } => director == holder && id == interaction_id,
        _ => false,
    }
}

/// Whether the holder of a claim makes none of the calls on it.
pub open spec fn holder_is_silent(calls: Seq<Call>, holder: Identity, id: u64) -> bool {
    forall|i: int| 0 <= i < calls.len() ==> !acts_as_holder(#[trigger] calls[i], holder, id)
}

/// Whether a call brings an interaction to its end: an accepted reply, or giving
/// up.
pub open spec fn closes(w: World, call: Call, interaction_id: u64) -> bool {
    match call {
        Call::NpcRespond { director, npc_id, id, reply } => id == interaction_id
            && respond_refusal(w, director, npc_id, id) is None,
        Call::FailInteraction { director, id } => id == interaction_id && claim_guard(
            w,
            director,
            id,
        ) is None,
        _ => false,
    }
}

/// Whether none of the calls files a question under this id.
pub open spec fn none_assigns(calls: Seq<Call>, id: u64) -> bool {
    forall|i: int|
        0 <= i < calls.len() ==> !(#[trigger] calls[i] matches Call::AskNpc { assigned_id, .. }
            && assigned_id == id)
}

/// A holder that is silent throughout is silent before the last call.
pub proof fn lemma_silent_before(calls: Seq<Call>, holder: Identity, id: u64)
    requires
        calls.len() > 0,
        holder_is_silent(calls, holder, id),
    ensures
        holder_is_silent(calls.drop_last(), holder, id),
        !acts_as_holder(calls.last(), holder, id),
{
    let earlier = calls.drop_last();
    assert forall|i: int| 0 <= i < earlier.len() implies !acts_as_holder(
        #[trigger] earlier[i],
        holder,
        id,
    ) by {
        assert(earlier[i] == calls[i]);
    }
    assert(calls.last() == calls[calls.len() - 1]);
}

/// An id that is assigned by none of the calls is assigned by none before the
/// last.
pub proof fn lemma_none_assigns_before(calls: Seq<Call>, id: u64)
    requires
        calls.len() > 0,
        none_assigns(calls, id),
    ensures
        none_assigns(calls.drop_last(), id),
        !(calls.last() matches Call::AskNpc { assigned_id, .. } && assigned_id == id),
{
    let earlier = calls.drop_last();
    assert forall|i: int| 0 <= i < earlier.len() implies !(
    #[trigger] earlier[i] matches Call::AskNpc { assigned_id, .. } && assigned_id == id) by {
        assert(earlier[i] == calls[i]);
    }
    assert(calls.last() == calls[calls.len() - 1]);
}

/// Whether a call is a reply for this NPC that is accepted.
pub open spec fn is_reply_for(w: World, call: Call, npc: u64) -> bool {
    call matches Call::NpcRespond { director, npc_id, id, reply } && npc_id == npc
        && respond_refusal(w, director, npc_id, id) is None
}

/// How many of the calls are accepted replies for this NPC.
pub open spec fn replies(w: World, calls: Seq<Call>, npc: u64) -> nat
    decreases calls.len(),
{
    if calls.len() == 0 {
        0
    } else {
        let earlier = calls.drop_last();
        replies(w, earlier, npc) + if is_reply_for(after(w, earlier), calls.last(), npc) {
            1nat
        } else {
            0nat
        }
    }
}

/// A world whose tables are empty.
pub open spec fn empty_world() -> World {
    World {
        player: Map::empty(),
        logged_out_player: Map::empty(),
        npc: Map::empty(),
        npc_cognition: Map::empty(),
        npc_interaction: Map::empty(),
        npc_utterance: Map::empty(),
        world_state: Map::empty(),
        game_tick_schedule: Map::empty(),
    }
}

} // verus!
