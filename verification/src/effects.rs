//! What each reducer does, said of what the tables hold before and after.
//!
//! These laws name rows, fields and arguments only, so that each can be read on
//! its own.

use crate::common::{CLAIM_TIMEOUT_TICKS, DIALOGUE_CAP, MIN_GAP, TRANSCRIPT_CAP, Vector3};
use crate::database::World;
use crate::director::{
    ask_refusal, asked_just_now, claim_guard, claim_refusal, has_open_question, is_open,
    is_recent, respond_refusal, ReplyView,
};
use crate::history::{
    after, all_allowed, allowed, lemma_none_assigns_before, none_assigns, step, Call,
};
use crate::schema::{NpcInteractionView, NpcView, PlayerView, ScheduleAt};
use crate::soundness::{lemma_words, sound};
use crate::text::capped;
use spacetimedb::{Identity, Timestamp};
use vstd::prelude::*;

verus! {

/// Whether a table holds the same rows under all keys but one.
pub open spec fn others_kept<K, V>(before: Map<K, V>, next: Map<K, V>, key: K) -> bool {
    forall|k: K|
        k != key ==> {
            &&& #[trigger] next.contains_key(k) == before.contains_key(k)
            &&& before.contains_key(k) ==> next[k] == before[k]
        }
}

/// Whether two rows stand for the same NPC: who it is and where it spawned.
pub open spec fn same_person(a: NpcView, b: NpcView) -> bool {
    &&& a.npc_id == b.npc_id
    &&& a.display_name == b.display_name
    &&& a.archetype == b.archetype
    &&& a.position == b.position
}

/// Whether an NPC says, does and feels the same in two rows.
pub open spec fn same_mood(a: NpcView, b: NpcView) -> bool {
    &&& a.dialogue == b.dialogue
    &&& a.animation_trigger == b.animation_trigger
    &&& a.game_action == b.game_action
    &&& a.target_player == b.target_player
    &&& a.trust == b.trust
    &&& a.sanity == b.sanity
    &&& a.seq == b.seq
    &&& a.last_spoke_tick == b.last_spoke_tick
}

/// Whether two rows hold the same question: who asked whom, what, in which
/// circumstances and when.
pub open spec fn same_question(a: NpcInteractionView, b: NpcInteractionView) -> bool {
    &&& a.id == b.id
    &&& a.npc_id == b.npc_id
    &&& a.asker == b.asker
    &&& a.player_distance == b.player_distance
    &&& a.is_player_armed == b.is_player_armed
    &&& a.flashlight_in_face == b.flashlight_in_face
    &&& a.transcript == b.transcript
    &&& a.trust_at_ask == b.trust_at_ask
    &&& a.sanity_at_ask == b.sanity_at_ask
    &&& a.created_tick == b.created_tick
}

/// Whether a text is what a cap leaves of another: its beginning, all of it if it
/// is short enough, and as much as the cap allows if it is not.
pub open spec fn is_cut_to(kept: Seq<char>, text: Seq<char>, cap: int) -> bool {
    &&& kept.len() <= text.len()
    &&& forall|i: int| 0 <= i < kept.len() ==> kept[i] == text[i]
    &&& text.len() <= cap ==> kept.len() == text.len()
    &&& text.len() > cap ==> kept.len() == cap
}

/// Whether a level is where a change leads from another, within 0 and 100.
pub open spec fn is_moved_by(level: i32, from: i32, change: i32) -> bool {
    &&& 0 <= from + change <= 100 ==> level == from + change
    &&& from + change < 0 ==> level == 0
    &&& from + change > 100 ==> level == 100
}

/// The time is what the row under key 0 says, and 0 without one.
pub proof fn law_now_is_on_the_clock(w: World)
    ensures
        w.world_state.contains_key(0) ==> w.now() == w.world_state[0].now_tick,
        !w.world_state.contains_key(0) ==> w.now() == 0,
{
}

/// A text is capped to its beginning.
pub proof fn law_capping_cuts(text: Seq<char>, cap: nat)
    ensures
        is_cut_to(capped(text, cap), text, cap as int),
{
}

/// A question is accepted exactly when the NPC exists, the asker has no question
/// to it that is pending or claimed, the NPC has not spoken within the minimum
/// gap, and the asker has not asked it anything within that gap. Otherwise the
/// first of these that fails is named.
pub proof fn law_which_questions_are_accepted(w: World, asker: Identity, npc_id: u64)
    ensures
        ({
            let open = exists|id: u64| #[trigger]
                w.npc_interaction.contains_key(id) && w.npc_interaction[id].asker == asker
                    && w.npc_interaction[id].npc_id == npc_id && (w.npc_interaction[id].status
                    == "pending"@ || w.npc_interaction[id].status == "claimed"@);
            let asked = exists|id: u64| #[trigger]
                w.npc_interaction.contains_key(id) && w.npc_interaction[id].asker == asker
                    && w.npc_interaction[id].npc_id == npc_id
                    && w.npc_interaction[id].created_tick <= w.now() && w.now()
                    < w.npc_interaction[id].created_tick + MIN_GAP;
            let spoke = w.now() < w.npc[npc_id].last_spoke_tick + MIN_GAP;
            let refusal = ask_refusal(w, asker, npc_id);
            &&& refusal is None <==> w.npc.contains_key(npc_id) && !open && !spoke && !asked
            &&& !w.npc.contains_key(npc_id) ==> refusal == Some("npc not found"@)
            &&& w.npc.contains_key(npc_id) && open ==> refusal == Some(
                "you already have a pending question for this npc"@,
            )
            &&& w.npc.contains_key(npc_id) && !open && spoke ==> refusal == Some(
                "npc just spoke — wait a moment"@,
            )
            &&& w.npc.contains_key(npc_id) && !open && !spoke && asked ==> refusal == Some(
                "you just asked this npc — wait a moment"@,
            )
        }),
{
    let open = exists|id: u64| #[trigger]
        w.npc_interaction.contains_key(id) && w.npc_interaction[id].asker == asker
            && w.npc_interaction[id].npc_id == npc_id && (w.npc_interaction[id].status
            == "pending"@ || w.npc_interaction[id].status == "claimed"@);
    let asked = exists|id: u64| #[trigger]
        w.npc_interaction.contains_key(id) && w.npc_interaction[id].asker == asker
            && w.npc_interaction[id].npc_id == npc_id && w.npc_interaction[id].created_tick
            <= w.now() && w.now() < w.npc_interaction[id].created_tick + MIN_GAP;
    assert(open == has_open_question(w, asker, npc_id)) by {
        if open {
            let id = choose|id: u64| #[trigger]
                w.npc_interaction.contains_key(id) && w.npc_interaction[id].asker == asker
                    && w.npc_interaction[id].npc_id == npc_id && (w.npc_interaction[id].status
                    == "pending"@ || w.npc_interaction[id].status == "claimed"@);
            assert(w.npc_interaction.contains_key(id) && is_open(w.npc_interaction[id]));
        }
        if has_open_question(w, asker, npc_id) {
            let id = choose|id: u64| #[trigger]
                w.npc_interaction.contains_key(id) && w.npc_interaction[id].npc_id == npc_id
                    && w.npc_interaction[id].asker == asker && is_open(w.npc_interaction[id]);
            assert(w.npc_interaction.contains_key(id));
        }
    }
    assert(asked == asked_just_now(w, asker, npc_id)) by {
        if asked {
            let id = choose|id: u64| #[trigger]
                w.npc_interaction.contains_key(id) && w.npc_interaction[id].asker == asker
                    && w.npc_interaction[id].npc_id == npc_id
                    && w.npc_interaction[id].created_tick <= w.now() && w.now()
                    < w.npc_interaction[id].created_tick + MIN_GAP;
            assert(w.npc_interaction.contains_key(id));
        }
        if asked_just_now(w, asker, npc_id) {
            let id = choose|id: u64| #[trigger]
                w.npc_interaction.contains_key(id) && w.npc_interaction[id].npc_id == npc_id
                    && w.npc_interaction[id].asker == asker && is_recent(
                    w.npc_interaction[id].created_tick,
                    w.now(),
                );
            assert(w.npc_interaction.contains_key(id));
        }
    }
}

/// An accepted question is filed as it was asked: the row carries the asker, the
/// NPC, the circumstances that the asker gave and the NPC's levels of the moment,
/// it waits for a director, and the beginning of what was said stands in it and
/// beside it. Nothing else changes. A refused one changes nothing.
pub proof fn law_question_is_filed_as_asked(
    w: World,
    asker: Identity,
    npc_id: u64,
    transcript: Seq<char>,
    player_distance: u32,
    is_player_armed: bool,
    flashlight_in_face: bool,
    assigned_id: u64,
)
    ensures
        ({
            let next = step(
                w,
                Call::AskNpc {
                    asker,
                    npc_id,
                    transcript,
                    player_distance,
                    is_player_armed,
                    flashlight_in_face,
                    assigned_id,
                },
            );
            let row = next.npc_interaction[assigned_id];
            let said = next.npc_utterance[assigned_id];
            &&& ask_refusal(w, asker, npc_id) is Some ==> next == w
            &&& ask_refusal(w, asker, npc_id) is None ==> {
                &&& next.npc_interaction.contains_key(assigned_id)
                &&& row.id == assigned_id
                &&& row.asker == asker
                &&& row.npc_id == npc_id
                &&& row.player_distance == player_distance
                &&& row.is_player_armed == is_player_armed
                &&& row.flashlight_in_face == flashlight_in_face
                &&& row.trust_at_ask == w.npc[npc_id].trust
                &&& row.sanity_at_ask == w.npc[npc_id].sanity
                &&& row.status == "pending"@
                &&& row.claimed_by is None
                &&& row.claimed_tick == 0
                &&& row.created_tick == w.now()
                &&& is_cut_to(row.transcript, transcript, TRANSCRIPT_CAP as int)
                &&& next.npc_utterance.contains_key(assigned_id)
                &&& said.interaction_id == assigned_id
                &&& said.transcript == row.transcript
                &&& others_kept(w.npc_interaction, next.npc_interaction, assigned_id)
                &&& others_kept(w.npc_utterance, next.npc_utterance, assigned_id)
                &&& next.player == w.player
                &&& next.logged_out_player == w.logged_out_player
                &&& next.npc == w.npc
                &&& next.npc_cognition == w.npc_cognition
                &&& next.world_state == w.world_state
                &&& next.game_tick_schedule == w.game_tick_schedule
            }
        }),
{
}

/// A claim is accepted exactly when the interaction exists and is pending, its
/// NPC exists, and the NPC's lock is not held by another interaction: it ran out,
/// or this one owns it. Otherwise the first of these that fails is named.
pub proof fn law_which_claims_are_accepted(w: World, id: u64)
    ensures
        ({
            let row = w.npc_interaction[id];
            let npc = w.npc[row.npc_id];
            let exists_row = w.npc_interaction.contains_key(id);
            let pending = row.status == "pending"@;
            let exists_npc = w.npc.contains_key(row.npc_id);
            let free = npc.busy_until_tick <= w.now() || npc.busy_interaction_id == id;
            let refusal = claim_refusal(w, id);
            &&& refusal is None <==> exists_row && pending && exists_npc && free
            &&& !exists_row ==> refusal == Some("interaction not found"@)
            &&& exists_row && !pending ==> refusal == Some(
                "interaction not pending (lost race / already handled)"@,
            )
            &&& exists_row && pending && !exists_npc ==> refusal == Some("npc not found"@)
            &&& exists_row && pending && exists_npc && !free ==> refusal == Some("npc busy"@)
        }),
{
}

/// In every world that reducers lead to, a pending question about an NPC whose
/// lock has run out or is free can be claimed, whenever it was asked and whatever
/// the NPC said since.
pub proof fn law_waiting_question_can_be_claimed(w: World, id: u64)
    requires
        sound(w),
        w.npc_interaction.contains_key(id),
        w.npc_interaction[id].status == "pending"@,
        w.npc[w.npc_interaction[id].npc_id].busy_until_tick <= w.now(),
    ensures
        claim_refusal(w, id) is None,
{
}

/// An accepted claim names the director and the tick in the row and locks the
/// NPC for the interaction, for a whole window. The question and the NPC's words
/// stay, and nothing else changes. A refused one changes nothing.
pub proof fn law_claim_takes_row_and_lock(w: World, director: Identity, id: u64)
    requires
        allowed(w, Call::ClaimInteraction { director, id }),
    ensures
        ({
            let next = step(w, Call::ClaimInteraction { director, id });
            let row = w.npc_interaction[id];
            let taken = next.npc_interaction[id];
            let npc = next.npc[row.npc_id];
            &&& claim_refusal(w, id) is Some ==> next == w
            &&& claim_refusal(w, id) is None ==> {
                &&& next.npc_interaction.contains_key(id)
                &&& same_question(taken, row)
                &&& taken.status == "claimed"@
                &&& taken.claimed_by == Some(director)
                &&& taken.claimed_tick == w.now()
                &&& others_kept(w.npc_interaction, next.npc_interaction, id)
                &&& next.npc.contains_key(row.npc_id)
                &&& same_person(npc, w.npc[row.npc_id])
                &&& same_mood(npc, w.npc[row.npc_id])
                &&& npc.busy_until_tick == w.now() + CLAIM_TIMEOUT_TICKS
                &&& npc.busy_interaction_id == id
                &&& others_kept(w.npc, next.npc, row.npc_id)
                &&& next.player == w.player
                &&& next.logged_out_player == w.logged_out_player
                &&& next.npc_cognition == w.npc_cognition
                &&& next.npc_utterance == w.npc_utterance
                &&& next.world_state == w.world_state
                &&& next.game_tick_schedule == w.game_tick_schedule
            }
        }),
{
}

/// A director may act on an interaction exactly when it exists, is claimed, and
/// names this director. Otherwise the first of these that fails is named.
pub proof fn law_who_may_act_on_a_claim(w: World, director: Identity, id: u64)
    ensures
        ({
            let row = w.npc_interaction[id];
            let exists_row = w.npc_interaction.contains_key(id);
            let mine = row.status == "claimed"@ && row.claimed_by == Some(director);
            let refusal = claim_guard(w, director, id);
            &&& refusal is None <==> exists_row && mine
            &&& !exists_row ==> refusal == Some("interaction not found"@)
            &&& exists_row && !mine ==> refusal == Some("not your active claim"@)
        }),
{
}

/// An accepted heartbeat moves the claim to the current tick, and the lock to a
/// whole window from now if the interaction owns it. Everything else stays. A
/// refused one changes nothing.
pub proof fn law_heartbeat_moves_claim_and_lock(w: World, director: Identity, id: u64)
    requires
        allowed(w, Call::RenewClaim { director, id }),
    ensures
        ({
            let next = step(w, Call::RenewClaim { director, id });
            let row = w.npc_interaction[id];
            let kept = next.npc_interaction[id];
            let before = w.npc[row.npc_id];
            let npc = next.npc[row.npc_id];
            let owned = w.npc.contains_key(row.npc_id) && before.busy_interaction_id == id;
            &&& claim_guard(w, director, id) is Some ==> next == w
            &&& claim_guard(w, director, id) is None ==> {
                &&& next.npc_interaction.contains_key(id)
                &&& same_question(kept, row)
                &&& kept.status == row.status
                &&& kept.claimed_by == row.claimed_by
                &&& kept.claimed_tick == w.now()
                &&& others_kept(w.npc_interaction, next.npc_interaction, id)
                &&& !owned ==> next.npc == w.npc
                &&& owned ==> {
                    &&& next.npc.contains_key(row.npc_id)
                    &&& same_person(npc, before)
                    &&& same_mood(npc, before)
                    &&& npc.busy_until_tick == w.now() + CLAIM_TIMEOUT_TICKS
                    &&& npc.busy_interaction_id == id
                    &&& others_kept(w.npc, next.npc, row.npc_id)
                }
                &&& next.player == w.player
                &&& next.logged_out_player == w.logged_out_player
                &&& next.npc_cognition == w.npc_cognition
                &&& next.npc_utterance == w.npc_utterance
                &&& next.world_state == w.world_state
                &&& next.game_tick_schedule == w.game_tick_schedule
            }
        }),
{
}

/// A reply is accepted exactly when the director holds the claim and the NPC
/// exists. Otherwise the first of these that fails is named.
pub proof fn law_which_replies_are_accepted(w: World, director: Identity, npc_id: u64, id: u64)
    ensures
        ({
            let row = w.npc_interaction[id];
            let exists_row = w.npc_interaction.contains_key(id);
            let mine = row.status == "claimed"@ && row.claimed_by == Some(director);
            let exists_npc = w.npc.contains_key(npc_id);
            let refusal = respond_refusal(w, director, npc_id, id);
            &&& refusal is None <==> exists_row && mine && exists_npc
            &&& !exists_row ==> refusal == Some("interaction not found"@)
            &&& exists_row && !mine ==> refusal == Some("not your active claim"@)
            &&& exists_row && mine && !exists_npc ==> refusal == Some("npc not found"@)
        }),
{
}

/// An accepted reply is what the NPC says and does next. Its trust and sanity
/// move from where they were by the changes given, within 0 and 100. A trigger or
/// an action that clients know is taken over, any other gives way to `Idle` or
/// `STAY_PUT`. The lock is freed if the interaction owns it, and stays otherwise.
/// The interaction is done, with its question and its claim as they were. Nothing
/// else changes. A refused reply changes nothing.
pub proof fn law_reply_is_spoken(
    w: World,
    director: Identity,
    npc_id: u64,
    id: u64,
    reply: ReplyView,
)
    requires
        allowed(w, Call::NpcRespond { director, npc_id, id, reply }),
    ensures
        ({
            let next = step(w, Call::NpcRespond { director, npc_id, id, reply });
            let row = w.npc_interaction[id];
            let done = next.npc_interaction[id];
            let before = w.npc[npc_id];
            let npc = next.npc[npc_id];
            let trigger = reply.animation_trigger;
            let action = reply.game_action;
            let known_trigger = trigger == "Cower"@ || trigger == "Threaten"@ || trigger == "Nod"@
                || trigger == "Panic"@ || trigger == "Idle"@;
            let known_action = action == "FLEE"@ || action == "FOLLOW"@ || action == "STAY_PUT"@
                || action == "ATTACK"@;
            &&& respond_refusal(w, director, npc_id, id) is Some ==> next == w
            &&& respond_refusal(w, director, npc_id, id) is None ==> {
                &&& next.npc.contains_key(npc_id)
                &&& same_person(npc, before)
                &&& is_moved_by(npc.trust, before.trust, reply.trust_change)
                &&& is_moved_by(npc.sanity, before.sanity, reply.sanity_change)
                &&& is_cut_to(npc.dialogue, reply.dialogue, DIALOGUE_CAP as int)
                &&& known_trigger ==> npc.animation_trigger == trigger
                &&& !known_trigger ==> npc.animation_trigger == "Idle"@
                &&& known_action ==> npc.game_action == action
                &&& !known_action ==> npc.game_action == "STAY_PUT"@
                &&& npc.target_player == reply.target_player
                &&& npc.seq == before.seq + 1
                &&& npc.last_spoke_tick == w.now()
                &&& before.busy_interaction_id == id ==> npc.busy_until_tick == 0
                    && npc.busy_interaction_id == 0
                &&& before.busy_interaction_id != id ==> npc.busy_until_tick
                    == before.busy_until_tick && npc.busy_interaction_id
                    == before.busy_interaction_id
                &&& others_kept(w.npc, next.npc, npc_id)
                &&& next.npc_interaction.contains_key(id)
                &&& same_question(done, row)
                &&& done.status == "done"@
                &&& done.claimed_by == row.claimed_by
                &&& done.claimed_tick == row.claimed_tick
                &&& others_kept(w.npc_interaction, next.npc_interaction, id)
                &&& next.player == w.player
                &&& next.logged_out_player == w.logged_out_player
                &&& next.npc_cognition == w.npc_cognition
                &&& next.npc_utterance == w.npc_utterance
                &&& next.world_state == w.world_state
                &&& next.game_tick_schedule == w.game_tick_schedule
            }
        }),
{
}

/// Giving up leaves the interaction failed, with its question and its claim as
/// they were. The NPC's lock is freed if the interaction owns it, whenever it was
/// asked, claimed or renewed. Everything else stays. A refused call changes
/// nothing.
pub proof fn law_giving_up_frees_the_lock(w: World, director: Identity, id: u64)
    ensures
        ({
            let next = step(w, Call::FailInteraction { director, id });
            let row = w.npc_interaction[id];
            let kept = next.npc_interaction[id];
            let before = w.npc[row.npc_id];
            let npc = next.npc[row.npc_id];
            let owned = w.npc.contains_key(row.npc_id) && before.busy_interaction_id == id;
            &&& claim_guard(w, director, id) is Some ==> next == w
            &&& claim_guard(w, director, id) is None ==> {
                &&& next.npc_interaction.contains_key(id)
                &&& same_question(kept, row)
                &&& kept.status == "failed"@
                &&& kept.claimed_by == row.claimed_by
                &&& kept.claimed_tick == row.claimed_tick
                &&& others_kept(w.npc_interaction, next.npc_interaction, id)
                &&& !owned ==> next.npc == w.npc
                &&& owned ==> {
                    &&& next.npc.contains_key(row.npc_id)
                    &&& same_person(npc, before)
                    &&& same_mood(npc, before)
                    &&& npc.busy_until_tick == 0
                    &&& npc.busy_interaction_id == 0
                    &&& others_kept(w.npc, next.npc, row.npc_id)
                }
                &&& next.player == w.player
                &&& next.logged_out_player == w.logged_out_player
                &&& next.npc_cognition == w.npc_cognition
                &&& next.npc_utterance == w.npc_utterance
                &&& next.world_state == w.world_state
                &&& next.game_tick_schedule == w.game_tick_schedule
            }
        }),
{
}

/// Once the interaction that holds an NPC is answered or given up, every other
/// pending question about that NPC can be claimed at once.
pub proof fn law_next_in_line_can_be_claimed(w: World, call: Call, id: u64, other: u64)
    requires
        sound(w),
        allowed(w, call),
        ends_claim(w, call, id),
        w.npc[w.npc_interaction[id].npc_id].busy_interaction_id == id,
        other != id,
        w.npc_interaction.contains_key(other),
        w.npc_interaction[other].status == "pending"@,
        w.npc_interaction[other].npc_id == w.npc_interaction[id].npc_id,
    ensures
        claim_refusal(step(w, call), other) is None,
{
    assert(step(w, call).npc_interaction.contains_key(other));
}

/// Whether a call is a reply for the NPC that an interaction is about, or giving
/// it up, made by the director that holds it.
pub open spec fn ends_claim(w: World, call: Call, id: u64) -> bool {
    let row = w.npc_interaction[id];
    &&& w.npc_interaction.contains_key(id)
    &&& row.status == "claimed"@
    &&& call matches Call::NpcRespond { director, npc_id, id: which, reply } ==> which == id
        && npc_id == row.npc_id && row.claimed_by == Some(director)
    &&& call matches Call::FailInteraction { director, id: which } ==> which == id
        && row.claimed_by == Some(director)
    &&& call is NpcRespond || call is FailInteraction
}

/// A tick moves the clock by one and leaves the time of day and the weather as
/// they are. Where the clock is gone, it starts at 1, at dusk and in fog, and
/// nothing else happens. Players, minds and schedules are never touched.
pub proof fn law_tick_moves_only_the_clock(w: World)
    requires
        w.now() < i64::MAX,
    ensures
        ({
            let next = step(w, Call::GameTick);
            let before = w.world_state[0];
            let clock = next.world_state[0];
            &&& next.world_state.contains_key(0)
            &&& w.world_state.contains_key(0) ==> {
                &&& clock.id == before.id
                &&& clock.now_tick == before.now_tick + 1
                &&& clock.time_of_day == before.time_of_day
                &&& clock.weather_conditions == before.weather_conditions
            }
            &&& !w.world_state.contains_key(0) ==> {
                &&& clock.id == 0
                &&& clock.now_tick == 1
                &&& clock.time_of_day == "dusk"@
                &&& clock.weather_conditions == "fog"@
                &&& next.npc == w.npc
                &&& next.npc_interaction == w.npc_interaction
                &&& next.npc_utterance == w.npc_utterance
            }
            &&& others_kept(w.world_state, next.world_state, 0)
            &&& next.player == w.player
            &&& next.logged_out_player == w.logged_out_player
            &&& next.npc_cognition == w.npc_cognition
            &&& next.game_tick_schedule == w.game_tick_schedule
        }),
{
}

/// A tick keeps every question as it was asked. A claim that is older than its
/// window is taken back: the row is pending and names nobody. Every other row
/// that is kept stays as it is.
pub proof fn law_tick_takes_back_only_old_claims(w: World, id: u64)
    requires
        w.world_state.contains_key(0),
        w.now() < i64::MAX,
        step(w, Call::GameTick).npc_interaction.contains_key(id),
    ensures
        ({
            let row = w.npc_interaction[id];
            let kept = step(w, Call::GameTick).npc_interaction[id];
            let old = row.status == "claimed"@ && row.claimed_tick + CLAIM_TIMEOUT_TICKS < w.now()
                + 1;
            &&& w.npc_interaction.contains_key(id)
            &&& same_question(kept, row)
            &&& kept.claimed_tick == row.claimed_tick
            &&& old ==> kept.status == "pending"@ && kept.claimed_by is None
            &&& !old ==> kept.status == row.status && kept.claimed_by == row.claimed_by
        }),
{
}

/// A tick loses only interactions that are done or failed, and with each of them
/// its transcript. Every other transcript stays.
pub proof fn law_tick_loses_only_what_is_over(w: World, id: u64)
    requires
        w.world_state.contains_key(0),
        w.now() < i64::MAX,
    ensures
        ({
            let next = step(w, Call::GameTick);
            let lost = w.npc_interaction.contains_key(id) && !next.npc_interaction.contains_key(id);
            &&& lost ==> w.npc_interaction[id].status == "done"@ || w.npc_interaction[id].status
                == "failed"@
            &&& next.npc_utterance.contains_key(id) <==> w.npc_utterance.contains_key(id) && !lost
            &&& next.npc_utterance.contains_key(id) ==> next.npc_utterance[id]
                == w.npc_utterance[id]
        }),
{
    lemma_words();
}

/// A tick leaves every NPC as it is but for its lock. It frees a lock that has
/// run out by the new tick, and one whose owner is a question about this NPC with
/// a claim older than its window. Every other lock stays.
pub proof fn law_tick_frees_only_dead_locks(w: World, npc_id: u64)
    requires
        w.world_state.contains_key(0),
        w.now() < i64::MAX,
    ensures
        ({
            let next = step(w, Call::GameTick);
            let before = w.npc[npc_id];
            let npc = next.npc[npc_id];
            let owner = w.npc_interaction[before.busy_interaction_id];
            let run_out = 0 < before.busy_until_tick <= w.now() + 1;
            let abandoned = w.npc_interaction.contains_key(before.busy_interaction_id)
                && owner.npc_id == npc_id && owner.status == "claimed"@ && owner.claimed_tick
                + CLAIM_TIMEOUT_TICKS < w.now() + 1;
            &&& next.npc.contains_key(npc_id) <==> w.npc.contains_key(npc_id)
            &&& w.npc.contains_key(npc_id) ==> {
                &&& same_person(npc, before)
                &&& same_mood(npc, before)
                &&& run_out || abandoned ==> npc.busy_until_tick == 0 && npc.busy_interaction_id
                    == 0
                &&& !run_out && !abandoned ==> npc.busy_until_tick == before.busy_until_tick
                    && npc.busy_interaction_id == before.busy_interaction_id
            }
        }),
{
}

/// Setting the environment sets the time of day and the weather to what was
/// given, and leaves the clock. Without a world state nothing changes.
pub proof fn law_environment_is_set_as_given(
    w: World,
    time_of_day: Seq<char>,
    weather_conditions: Seq<char>,
)
    ensures
        ({
            let next = step(w, Call::SetWorldState { time_of_day, weather_conditions });
            &&& !w.world_state.contains_key(0) ==> next == w
            &&& w.world_state.contains_key(0) ==> {
                &&& next.world_state.contains_key(0)
                &&& next.world_state[0].time_of_day == time_of_day
                &&& next.world_state[0].weather_conditions == weather_conditions
                &&& next.world_state[0].now_tick == w.world_state[0].now_tick
                &&& next.world_state[0].id == w.world_state[0].id
                &&& others_kept(w.world_state, next.world_state, 0)
                &&& next.player == w.player
                &&& next.logged_out_player == w.logged_out_player
                &&& next.npc == w.npc
                &&& next.npc_cognition == w.npc_cognition
                &&& next.npc_interaction == w.npc_interaction
                &&& next.npc_utterance == w.npc_utterance
                &&& next.game_tick_schedule == w.game_tick_schedule
            }
        }),
{
}

/// The environment lasts: through any calls, ticks among them, the time of day
/// and the weather stay what they were until they are set again.
pub proof fn law_environment_lasts(w: World, calls: Seq<Call>)
    requires
        w.world_state.contains_key(0),
        all_allowed(w, calls),
        forall|i: int| 0 <= i < calls.len() ==> !(#[trigger] calls[i] is SetWorldState),
    ensures
        after(w, calls).world_state.contains_key(0),
        after(w, calls).world_state[0].time_of_day == w.world_state[0].time_of_day,
        after(w, calls).world_state[0].weather_conditions == w.world_state[0].weather_conditions,
    decreases calls.len(),
{
    if calls.len() > 0 {
        let earlier = calls.drop_last();
        assert forall|i: int| 0 <= i < earlier.len() implies !(
        #[trigger] earlier[i] is SetWorldState) by {
            assert(earlier[i] == calls[i]);
        }
        law_environment_lasts(w, earlier);
        assert(calls.last() == calls[calls.len() - 1]);
    }
}

/// A question lasts: through any calls, and for as long as it is kept, its row
/// says who asked whom, what, in which circumstances, at which levels and when,
/// and its transcript stays beside it.
pub proof fn law_question_lasts(w: World, id: u64, calls: Seq<Call>)
    requires
        w.npc_interaction.contains_key(id),
        all_allowed(w, calls),
        none_assigns(calls, id),
    ensures
        after(w, calls).npc_interaction.contains_key(id) ==> {
            &&& same_question(after(w, calls).npc_interaction[id], w.npc_interaction[id])
            &&& w.npc_utterance.contains_key(id) ==> after(w, calls).npc_utterance.contains_key(id)
                && after(w, calls).npc_utterance[id] == w.npc_utterance[id]
        },
    decreases calls.len(),
{
    if calls.len() > 0 {
        lemma_none_assigns_before(calls, id);
        law_question_lasts(w, id, calls.drop_last());
    }
}

/// Writing a memory sets it to what was given, and leaves persona and raw output.
/// Without a mind nothing changes.
pub proof fn law_memory_is_written_as_given(w: World, npc_id: u64, memory: Seq<char>)
    ensures
        ({
            let next = step(w, Call::UpdateNpcMemory { npc_id, memory });
            let before = w.npc_cognition[npc_id];
            let mind = next.npc_cognition[npc_id];
            &&& !w.npc_cognition.contains_key(npc_id) ==> next == w
            &&& w.npc_cognition.contains_key(npc_id) ==> {
                &&& next.npc_cognition.contains_key(npc_id)
                &&& mind.memory == memory
                &&& mind.npc_id == before.npc_id
                &&& mind.persona == before.persona
                &&& mind.last_raw_output == before.last_raw_output
                &&& others_kept(w.npc_cognition, next.npc_cognition, npc_id)
                &&& next.player == w.player
                &&& next.logged_out_player == w.logged_out_player
                &&& next.npc == w.npc
                &&& next.npc_interaction == w.npc_interaction
                &&& next.npc_utterance == w.npc_utterance
                &&& next.world_state == w.world_state
                &&& next.game_tick_schedule == w.game_tick_schedule
            }
        }),
{
}

/// A newcomer has the name and the class given, stands at the trailhead at rest
/// with full health and mana, and wears the color that the number of players in
/// the game selects. Whoever is in the game already changes nothing. A snapshot
/// of the newcomer goes. Nothing else changes.
pub proof fn law_newcomer_joins(
    w: World,
    client: Identity,
    username: Seq<char>,
    character_class: Seq<char>,
)
    ensures
        ({
            let next = step(w, Call::RegisterPlayer { client, username, character_class });
            let row = next.player[client];
            let input = row.input;
            let slot = w.player.dom().len() % 6;
            &&& w.player.contains_key(client) ==> next == w
            &&& !w.player.contains_key(client) ==> {
                &&& next.player.contains_key(client)
                &&& row.identity == client
                &&& row.username == username
                &&& row.character_class == character_class
                &&& row.position.x == 0 && row.position.y == 0x3f80_0000 && row.position.z == 0
                &&& row.rotation.x == 0 && row.rotation.y == 0 && row.rotation.z == 0
                &&& row.health == 100 && row.max_health == 100
                &&& row.mana == 100 && row.max_mana == 100
                &&& row.current_animation == "idle"@
                &&& !row.is_moving && !row.is_running && !row.is_attacking && !row.is_casting
                &&& row.last_input_seq == 0
                &&& !input.forward && !input.backward && !input.left && !input.right
                &&& !input.sprint && !input.jump && !input.attack && !input.cast_spell
                &&& input.sequence == 0
                &&& slot == 0 ==> row.color == "cyan"@
                &&& slot == 1 ==> row.color == "magenta"@
                &&& slot == 2 ==> row.color == "yellow"@
                &&& slot == 3 ==> row.color == "lightgreen"@
                &&& slot == 4 ==> row.color == "orange"@
                &&& slot == 5 ==> row.color == "white"@
                &&& others_kept(w.player, next.player, client)
                &&& !next.logged_out_player.contains_key(client)
                &&& others_kept(w.logged_out_player, next.logged_out_player, client)
                &&& next.npc == w.npc
                &&& next.npc_cognition == w.npc_cognition
                &&& next.npc_interaction == w.npc_interaction
                &&& next.npc_utterance == w.npc_utterance
                &&& next.world_state == w.world_state
                &&& next.game_tick_schedule == w.game_tick_schedule
            }
        }),
{
}

/// A report of the controls puts what the movement rules made of the player in
/// the place of the player's row, under the player's own identity. A client that
/// is not in the game changes nothing, and nothing else changes.
pub proof fn law_moved_player_takes_its_place(w: World, client: Identity, moved: PlayerView)
    ensures
        ({
            let next = step(w, Call::UpdatePlayerInput { client, moved });
            let row = next.player[client];
            &&& !w.player.contains_key(client) ==> next == w
            &&& w.player.contains_key(client) ==> {
                &&& next.player.contains_key(client)
                &&& row.identity == client
                &&& row.username == moved.username
                &&& row.character_class == moved.character_class
                &&& row.position == moved.position
                &&& row.rotation == moved.rotation
                &&& row.health == moved.health && row.max_health == moved.max_health
                &&& row.mana == moved.mana && row.max_mana == moved.max_mana
                &&& row.current_animation == moved.current_animation
                &&& row.is_moving == moved.is_moving && row.is_running == moved.is_running
                &&& row.is_attacking == moved.is_attacking && row.is_casting == moved.is_casting
                &&& row.last_input_seq == moved.last_input_seq
                &&& row.input == moved.input
                &&& row.color == moved.color
                &&& others_kept(w.player, next.player, client)
                &&& next.logged_out_player == w.logged_out_player
                &&& next.npc == w.npc
                &&& next.npc_cognition == w.npc_cognition
                &&& next.npc_interaction == w.npc_interaction
                &&& next.npc_utterance == w.npc_utterance
                &&& next.world_state == w.world_state
                &&& next.game_tick_schedule == w.game_tick_schedule
            }
        }),
{
}

/// A player whose connection is gone leaves the game. What stays is a snapshot
/// with the player's name, class and color and the time of leaving. Anyone else
/// who disconnects changes nothing, and nothing else changes.
pub proof fn law_leaver_is_remembered(w: World, client: Identity, at: Timestamp)
    ensures
        ({
            let next = step(w, Call::IdentityDisconnected { client, at });
            let player = w.player[client];
            let left = next.logged_out_player[client];
            &&& !w.player.contains_key(client) ==> next == w
            &&& w.player.contains_key(client) ==> {
                &&& !next.player.contains_key(client)
                &&& others_kept(w.player, next.player, client)
                &&& next.logged_out_player.contains_key(client)
                &&& left.identity == client
                &&& left.username == player.username
                &&& left.character_class == player.character_class
                &&& left.color == player.color
                &&& left.last_seen == at
                &&& others_kept(w.logged_out_player, next.logged_out_player, client)
                &&& next.npc == w.npc
                &&& next.npc_cognition == w.npc_cognition
                &&& next.npc_interaction == w.npc_interaction
                &&& next.npc_utterance == w.npc_utterance
                &&& next.world_state == w.world_state
                &&& next.game_tick_schedule == w.game_tick_schedule
            }
        }),
{
}

/// Whether an NPC has met nobody yet: it is at peace, has said nothing, and
/// nobody holds it.
pub open spec fn has_met_nobody(npc: NpcView) -> bool {
    &&& npc.dialogue.len() == 0
    &&& npc.animation_trigger == "Idle"@
    &&& npc.game_action == "STAY_PUT"@
    &&& npc.target_player is None
    &&& npc.trust == 50
    &&& npc.sanity == 70
    &&& npc.seq == 0
    &&& npc.last_spoke_tick == 0
    &&& npc.busy_until_tick == 0
    &&& npc.busy_interaction_id == 0
}

/// Whether a world has an NPC of this name, kind and place under an id, which has
/// met nobody yet, and a mind with this persona and nothing else in it.
pub open spec fn has_stranger(
    w: World,
    id: u64,
    name: Seq<char>,
    archetype: Seq<char>,
    at: Vector3,
    persona: Seq<char>,
) -> bool {
    &&& w.npc.contains_key(id)
    &&& w.npc[id].npc_id == id
    &&& w.npc[id].display_name == name
    &&& w.npc[id].archetype == archetype
    &&& w.npc[id].position == at
    &&& has_met_nobody(w.npc[id])
    &&& w.npc_cognition.contains_key(id)
    &&& w.npc_cognition[id].npc_id == id
    &&& w.npc_cognition[id].persona == persona
    &&& w.npc_cognition[id].memory.len() == 0
    &&& w.npc_cognition[id].last_raw_output.len() == 0
}

/// Whether a world has the forest roster under the given ids, and no other NPC.
pub open spec fn has_roster(w: World, ids: [u64; 3]) -> bool {
    &&& has_stranger(
        w,
        ids@[0],
        "Mara"@,
        "survivor"@,
        Vector3 { x: 0x4190_0000, y: 0x3f80_0000, z: 0xc140_0000 },
        "You are Mara, the lost expedition's medic. Traumatized by what happened to the team. You distrust armed strangers and recoil from a light in your face. You know where the billionaire's camp was, but you fear the cultists and won't reveal it until you trust the player. You are exhausted, grieving, and guarded."@,
    )
    &&& has_stranger(
        w,
        ids@[1],
        "Eli"@,
        "survivor"@,
        Vector3 { x: 0xc1b0_0000, y: 0x3f80_0000, z: 0x4100_0000 },
        "You are Eli, the expedition's guide. Paranoid, your sanity is fraying after days alone in the forest. You will FOLLOW a player who earns your trust, but you PANIC at a flashlight in your face. You jump at shadows and second-guess every choice."@,
    )
    &&& has_stranger(
        w,
        ids@[2],
        "Brother Vael"@,
        "cultist"@,
        Vector3 { x: 0x40a0_0000, y: 0x3f80_0000, z: 0x4208_0000 },
        "You are Brother Vael, a zealot of the forest cult. You hide the cult's role in the expedition's disappearance. You THREATEN when trust is low and speak in veiled, ominous scripture. Your allegiance shifts only under very high trust — and even then you guard the cult's deepest secret."@,
    )
    &&& forall|k: u64| #[trigger]
        w.npc.contains_key(k) ==> k == ids@[0] || k == ids@[1] || k == ids@[2]
}

/// Whether minds under all ids but the given ones are the same in two worlds.
pub open spec fn other_minds_kept(before: World, next: World, ids: [u64; 3]) -> bool {
    forall|k: u64|
        k != ids@[0] && k != ids@[1] && k != ids@[2] ==> {
            &&& #[trigger] next.npc_cognition.contains_key(k) == before.npc_cognition.contains_key(
                k,
            )
            &&& before.npc_cognition.contains_key(k) ==> next.npc_cognition[k]
                == before.npc_cognition[k]
        }
}

/// Seeding gives a world without NPCs the roster, and leaves any other world as
/// it is. Other minds and all other tables stay.
pub proof fn law_seeding_brings_the_roster(w: World, ids: [u64; 3])
    requires
        w.valid(),
        allowed(w, Call::SeedNpcs { ids }),
    ensures
        ({
            let next = step(w, Call::SeedNpcs { ids });
            let empty = forall|k: u64| !#[trigger] w.npc.contains_key(k);
            &&& !empty ==> next == w
            &&& empty ==> {
                &&& has_roster(next, ids)
                &&& other_minds_kept(w, next, ids)
                &&& next.player == w.player
                &&& next.logged_out_player == w.logged_out_player
                &&& next.npc_interaction == w.npc_interaction
                &&& next.npc_utterance == w.npc_utterance
                &&& next.world_state == w.world_state
                &&& next.game_tick_schedule == w.game_tick_schedule
            }
        }),
{
    lemma_empty_or_not(w.npc);
}

/// Coming up gives a world what it lacks: a clock at tick 0, at dusk and in fog,
/// a tick every second, and the roster. What it has of these stays, and so does
/// everything else.
pub proof fn law_init_brings_what_is_lacking(w: World, schedule_id: u64, npc_ids: [u64; 3])
    requires
        w.valid(),
        allowed(w, Call::Init { schedule_id, npc_ids }),
    ensures
        ({
            let next = step(w, Call::Init { schedule_id, npc_ids });
            let clock = next.world_state[0];
            let no_npc = forall|k: u64| !#[trigger] w.npc.contains_key(k);
            let no_schedule = forall|k: u64| !#[trigger] w.game_tick_schedule.contains_key(k);
            &&& w.world_state.contains_key(0) ==> next.world_state == w.world_state
            &&& !w.world_state.contains_key(0) ==> {
                &&& next.world_state.contains_key(0)
                &&& clock.id == 0
                &&& clock.now_tick == 0
                &&& clock.time_of_day == "dusk"@
                &&& clock.weather_conditions == "fog"@
                &&& others_kept(w.world_state, next.world_state, 0)
            }
            &&& !no_schedule ==> next.game_tick_schedule == w.game_tick_schedule
            &&& no_schedule ==> {
                &&& next.game_tick_schedule.contains_key(schedule_id)
                &&& next.game_tick_schedule[schedule_id].scheduled_id == schedule_id
                &&& next.game_tick_schedule[schedule_id].scheduled_at == ScheduleAt::Interval(
                    1_000_000,
                )
                &&& others_kept(w.game_tick_schedule, next.game_tick_schedule, schedule_id)
            }
            &&& !no_npc ==> next.npc == w.npc && next.npc_cognition == w.npc_cognition
            &&& no_npc ==> has_roster(next, npc_ids) && other_minds_kept(w, next, npc_ids)
            &&& next.player == w.player
            &&& next.logged_out_player == w.logged_out_player
            &&& next.npc_interaction == w.npc_interaction
            &&& next.npc_utterance == w.npc_utterance
        }),
{
    lemma_empty_or_not(w.npc);
    lemma_empty_or_not(w.game_tick_schedule);
}

proof fn lemma_empty_or_not<V>(rows: Map<u64, V>)
    requires
        rows.dom().finite(),
    ensures
        rows.dom().len() == 0 <==> (forall|k: u64| !#[trigger] rows.contains_key(k)),
{
    if rows.dom().len() == 0 {
        rows.dom().lemma_len0_is_empty();
    } else {
        assert(rows.contains_key(rows.dom().choose()));
    }
}

} // verus!
