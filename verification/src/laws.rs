//! Laws that relate reducers to each other.

use crate::common::{
    CLAIM_TIMEOUT_TICKS, DIALOGUE_CAP, INTERACTION_PRUNE_BATCH, INTERACTION_PRUNE_CAP, MIN_GAP,
    TRANSCRIPT_CAP,
};
use crate::database::World;
use crate::director::{
    ask_refusal, asked, asked_just_now, claim_guard, claim_refusal, claimed, freed, holds_claim,
    is_open, owns_lock, renewed, replied, respond_refusal, responded, ReplyView,
};
use crate::history::{
    acts_on, after, all_allowed, allowed, closes, holder_is_silent, is_reply_for,
    lemma_none_assigns_before, lemma_silent_before, none_assigns, replies, step, ticks, Call,
};
use crate::players::{disconnected, registered};
use crate::roster::{initialized, seeded, with_clock, with_schedule};
use crate::schema::{NpcInteractionView, NpcView};
use crate::soundness::lemma_words;
use crate::text::capped;
use crate::tick::{
    after_expiry, after_prune, after_reclaim, clock_moved, finished_ids, is_finished, is_pruned,
    is_stale, prune_quota, ticked,
};
use spacetimedb::{Identity, Timestamp};
use vstd::prelude::*;

verus! {

proof fn lemma_valid_tick(w: World)
    requires
        w.valid(),
        w.now() < i64::MAX,
    ensures
        ticked(w).valid(),
{
    if w.world_state.contains_key(0) {
        let now = (w.now() + 1) as i64;
        let r = after_reclaim(clock_moved(w), now);
        let e = after_expiry(r, now);
        let p = after_prune(e);
        assert(r.npc_interaction.dom() =~= w.npc_interaction.dom());
        assert(r.npc.dom() =~= w.npc.dom());
        assert(e.npc.dom() =~= w.npc.dom());
        let pruned = Set::new(|id: u64| is_pruned(e, id));
        assert(p.npc_interaction.dom() =~= e.npc_interaction.dom().difference(pruned));
        assert(p.npc_utterance.dom() =~= e.npc_utterance.dom().difference(pruned));
        assert(p.npc_interaction.dom().finite());
        assert(p.npc_utterance.dom().finite());
    }
}

/// Every reducer leads from what tables can hold to what tables can hold.
pub proof fn law_valid_step(w: World, call: Call)
    requires
        w.valid(),
        allowed(w, call),
    ensures
        step(w, call).valid(),
{
    match call {
        Call::GameTick => lemma_valid_tick(w),
        _ => {},
    }
}

proof fn lemma_valid_history(w: World, calls: Seq<Call>)
    requires
        w.valid(),
        all_allowed(w, calls),
    ensures
        after(w, calls).valid(),
    decreases calls.len(),
{
    if calls.len() > 0 {
        lemma_valid_history(w, calls.drop_last());
        law_valid_step(after(w, calls.drop_last()), calls.last());
    }
}

/// The clock counts ticks: each one moves it by one, and nothing else does.
pub proof fn law_clock_counts_ticks(w: World, calls: Seq<Call>)
    requires
        all_allowed(w, calls),
    ensures
        after(w, calls).now() == w.now() + ticks(calls),
        w.world_state.contains_key(0) || ticks(calls) > 0 ==> after(
            w,
            calls,
        ).world_state.contains_key(0),
    decreases calls.len(),
{
    if calls.len() > 0 {
        law_clock_counts_ticks(w, calls.drop_last());
    }
}

/// Of two directors that race for one interaction exactly one wins: once a claim
/// is accepted, the next one is refused, and only the first director holds it.
pub proof fn law_one_claim_wins(w: World, first: Identity, second: Identity, id: u64)
    requires
        claim_refusal(w, id) is None,
    ensures
        holds_claim(claimed(w, first, id), first, id),
        claim_refusal(claimed(w, first, id), id) == Some(
            "interaction not pending (lost race / already handled)"@,
        ),
        second != first ==> !holds_claim(claimed(w, first, id), second, id),
{
    lemma_words();
}

/// A claim that was just made or renewed holds for a whole window without a
/// heartbeat, whatever else happens meanwhile.
pub proof fn law_claim_holds_for_its_window(
    w: World,
    director: Identity,
    id: u64,
    calls: Seq<Call>,
)
    requires
        holds_claim(w, director, id),
        w.npc_interaction[id].claimed_tick == w.now(),
        all_allowed(w, calls),
        holder_is_silent(calls, director, id),
        ticks(calls) <= CLAIM_TIMEOUT_TICKS,
    ensures
        after(w, calls).npc_interaction.contains_key(id),
        after(w, calls).npc_interaction[id] == w.npc_interaction[id],
        holds_claim(after(w, calls), director, id),
    decreases calls.len(),
{
    lemma_words();
    if calls.len() > 0 {
        let earlier = calls.drop_last();
        lemma_silent_before(calls, director, id);
        law_claim_holds_for_its_window(w, director, id, earlier);
        law_clock_counts_ticks(w, earlier);
    }
}

/// A claim without a heartbeat is taken back at the first tick after its
/// window: the interaction waits again, nobody holds it, and whoever held it is
/// refused.
pub proof fn law_silent_claim_is_taken_back(
    w: World,
    director: Identity,
    id: u64,
    calls: Seq<Call>,
)
    requires
        holds_claim(w, director, id),
        w.npc_interaction[id].claimed_tick == w.now(),
        all_allowed(w, calls),
        holder_is_silent(calls, director, id),
        ticks(calls) == CLAIM_TIMEOUT_TICKS,
        after(w, calls).now() < i64::MAX,
    ensures
        ({
            let late = step(after(w, calls), Call::GameTick);
            &&& late.npc_interaction.contains_key(id)
            &&& late.npc_interaction[id] == NpcInteractionView {
                status: "pending"@,
                claimed_by: None,
                ..w.npc_interaction[id]
            }
            &&& forall|d: Identity| claim_guard(late, d, id) == Some("not your active claim"@)
        }),
{
    lemma_words();
    law_claim_holds_for_its_window(w, director, id, calls);
    law_clock_counts_ticks(w, calls);
}

/// The lock of an NPC stays as it is until its window runs out, unless the
/// holder of the claim that owns it acts.
pub proof fn law_lock_holds_for_its_window(
    w: World,
    director: Identity,
    id: u64,
    calls: Seq<Call>,
)
    requires
        w.valid(),
        holds_claim(w, director, id),
        w.npc_interaction[id].claimed_tick == w.now(),
        owns_lock(w, id),
        w.npc[w.npc_interaction[id].npc_id].busy_until_tick == w.now() + CLAIM_TIMEOUT_TICKS,
        all_allowed(w, calls),
        holder_is_silent(calls, director, id),
        ticks(calls) < CLAIM_TIMEOUT_TICKS,
    ensures
        ({
            let npc_id = w.npc_interaction[id].npc_id;
            let npc = after(w, calls).npc[npc_id];
            &&& after(w, calls).npc.contains_key(npc_id)
            &&& npc.busy_interaction_id == id
            &&& npc.busy_until_tick == w.npc[npc_id].busy_until_tick
            &&& npc.busy_until_tick > after(w, calls).now()
        }),
    decreases calls.len(),
{
    lemma_words();
    law_clock_counts_ticks(w, calls);
    if calls.len() > 0 {
        let earlier = calls.drop_last();
        let before = after(w, earlier);
        lemma_silent_before(calls, director, id);
        law_lock_holds_for_its_window(w, director, id, earlier);
        law_claim_holds_for_its_window(w, director, id, earlier);
        law_clock_counts_ticks(w, earlier);
        lemma_valid_history(w, earlier);
        assert(before.npc.dom().contains(w.npc_interaction[id].npc_id));
        assert(before.npc.dom().len() > 0);
    }
}

/// A heartbeat starts a claim anew: it then holds for a whole window, and so
/// does the lock that it owns.
pub proof fn law_heartbeat_keeps_claim(w: World, director: Identity, id: u64, calls: Seq<Call>)
    requires
        w.valid(),
        holds_claim(w, director, id),
        owns_lock(w, id) ==> w.now() + CLAIM_TIMEOUT_TICKS <= i64::MAX,
        all_allowed(renewed(w, id), calls),
        holder_is_silent(calls, director, id),
        ticks(calls) <= CLAIM_TIMEOUT_TICKS,
    ensures
        ({
            let later = after(renewed(w, id), calls);
            let npc_id = w.npc_interaction[id].npc_id;
            &&& holds_claim(later, director, id)
            &&& owns_lock(w, id) && ticks(calls) < CLAIM_TIMEOUT_TICKS ==> owns_lock(later, id)
                && later.npc[npc_id].busy_until_tick > later.now()
        }),
{
    let start = renewed(w, id);
    assert(start.valid());
    law_claim_holds_for_its_window(start, director, id, calls);
    if owns_lock(w, id) && ticks(calls) < CLAIM_TIMEOUT_TICKS {
        law_lock_holds_for_its_window(start, director, id, calls);
    }
}

/// While a claim is fresh, no other interaction about the same NPC can be
/// claimed: from the claim until its window runs out, whatever others do
/// meanwhile.
pub proof fn law_lock_excludes_others(
    w: World,
    director: Identity,
    id: u64,
    calls: Seq<Call>,
    other: u64,
)
    requires
        w.valid(),
        claim_refusal(w, id) is None,
        w.now() + CLAIM_TIMEOUT_TICKS <= i64::MAX,
        all_allowed(claimed(w, director, id), calls),
        holder_is_silent(calls, director, id),
        ticks(calls) < CLAIM_TIMEOUT_TICKS,
        other != id,
        after(claimed(w, director, id), calls).npc_interaction.contains_key(other),
        after(claimed(w, director, id), calls).npc_interaction[other].npc_id
            == w.npc_interaction[id].npc_id,
    ensures
        claim_refusal(after(claimed(w, director, id), calls), other) is Some,
{
    let start = claimed(w, director, id);
    assert(start.valid());
    law_lock_holds_for_its_window(start, director, id, calls);
}

/// An interaction that came to its end is out of reach: it cannot be claimed,
/// and no director can renew, answer or give it up.
pub proof fn law_finished_is_out_of_reach(w: World, id: u64)
    requires
        w.npc_interaction.contains_key(id),
        is_finished(w.npc_interaction[id]),
    ensures
        claim_refusal(w, id) is Some,
        forall|d: Identity| claim_guard(w, d, id) is Some,
        forall|d: Identity, npc_id: u64| respond_refusal(w, d, npc_id, id) is Some,
{
    lemma_words();
}

/// An interaction that came to its end stays as it is for as long as it is
/// kept.
pub proof fn law_finished_stays(w: World, id: u64, calls: Seq<Call>)
    requires
        w.npc_interaction.contains_key(id),
        is_finished(w.npc_interaction[id]),
        all_allowed(w, calls),
        none_assigns(calls, id),
    ensures
        after(w, calls).npc_interaction.contains_key(id) ==> after(w, calls).npc_interaction[id]
            == w.npc_interaction[id],
    decreases calls.len(),
{
    lemma_words();
    if calls.len() > 0 {
        let earlier = calls.drop_last();
        lemma_none_assigns_before(calls, id);
        law_finished_stays(w, id, earlier);
    }
}

/// A reply is applied once: after it, every further claim, heartbeat or reply on
/// the same interaction is refused, whatever happens meanwhile.
pub proof fn law_reply_is_applied_once(
    w: World,
    director: Identity,
    npc_id: u64,
    id: u64,
    reply: ReplyView,
    calls: Seq<Call>,
)
    requires
        respond_refusal(w, director, npc_id, id) is None,
        all_allowed(responded(w, npc_id, id, reply), calls),
        none_assigns(calls, id),
    ensures
        ({
            let later = after(responded(w, npc_id, id, reply), calls);
            &&& claim_refusal(later, id) is Some
            &&& forall|d: Identity| claim_guard(later, d, id) is Some
            &&& forall|d: Identity, k: u64| respond_refusal(later, d, k, id) is Some
        }),
{
    let start = responded(w, npc_id, id, reply);
    let later = after(start, calls);
    law_finished_stays(start, id, calls);
    if later.npc_interaction.contains_key(id) {
        law_finished_is_out_of_reach(later, id);
    }
}

/// A director whose claim was taken back can no longer act on it, so that a late
/// reply is not applied.
pub proof fn law_late_reply_is_refused(w: World, director: Identity, id: u64)
    requires
        w.world_state.contains_key(0),
        w.now() < i64::MAX,
        holds_claim(w, director, id),
        w.now() + 1 - w.npc_interaction[id].claimed_tick > CLAIM_TIMEOUT_TICKS,
    ensures
        claim_guard(ticked(w), director, id) == Some("not your active claim"@),
        forall|npc_id: u64| respond_refusal(ticked(w), director, npc_id, id) is Some,
{
    lemma_words();
}

/// What clients see an NPC say and do.
pub open spec fn same_words(a: NpcView, b: NpcView) -> bool {
    &&& a.npc_id == b.npc_id
    &&& a.display_name == b.display_name
    &&& a.archetype == b.archetype
    &&& a.position == b.position
    &&& a.dialogue == b.dialogue
    &&& a.animation_trigger == b.animation_trigger
    &&& a.game_action == b.game_action
    &&& a.target_player == b.target_player
    &&& a.trust == b.trust
    &&& a.sanity == b.sanity
    &&& a.seq == b.seq
    &&& a.last_spoke_tick == b.last_spoke_tick
}

/// Only an accepted reply changes what an NPC says and does. In particular a
/// question does not.
pub proof fn law_only_replies_speak(w: World, call: Call, npc_id: u64)
    requires
        w.valid(),
        allowed(w, call),
        w.npc.contains_key(npc_id),
    ensures
        step(w, call).npc.contains_key(npc_id),
        !is_reply_for(w, call, npc_id) ==> same_words(w.npc[npc_id], step(w, call).npc[npc_id]),
        is_reply_for(w, call, npc_id) ==> step(w, call).npc[npc_id].seq == w.npc[npc_id].seq + 1,
{
    lemma_words();
    assert(w.npc.dom().contains(npc_id));
    assert(w.npc.dom().len() > 0);
}

/// The sequence number of an NPC counts the replies that were accepted for it.
pub proof fn law_seq_counts_replies(w: World, calls: Seq<Call>, npc_id: u64)
    requires
        w.valid(),
        all_allowed(w, calls),
        w.npc.contains_key(npc_id),
    ensures
        after(w, calls).npc.contains_key(npc_id),
        after(w, calls).npc[npc_id].seq == w.npc[npc_id].seq + replies(w, calls, npc_id),
    decreases calls.len(),
{
    if calls.len() > 0 {
        let earlier = calls.drop_last();
        law_seq_counts_replies(w, earlier, npc_id);
        lemma_valid_history(w, earlier);
        law_only_replies_speak(after(w, earlier), calls.last(), npc_id);
    }
}

/// An open question is never lost: every reducer keeps it, whatever its age,
/// with its asker, its NPC and what was said. It stays open until it is
/// answered or given up.
pub proof fn law_open_question_is_kept(w: World, call: Call, id: u64)
    requires
        allowed(w, call),
        w.npc_interaction.contains_key(id),
        is_open(w.npc_interaction[id]),
    ensures
        ({
            let kept = step(w, call).npc_interaction[id];
            let row = w.npc_interaction[id];
            &&& step(w, call).npc_interaction.contains_key(id)
            &&& is_open(kept) <==> !closes(w, call, id)
            &&& kept.npc_id == row.npc_id
            &&& kept.asker == row.asker
            &&& kept.transcript == row.transcript
            &&& kept.created_tick == row.created_tick
            &&& w.npc_utterance.contains_key(id) ==> step(w, call).npc_utterance.contains_key(id)
                && step(w, call).npc_utterance[id] == w.npc_utterance[id]
        }),
{
    lemma_words();
}

/// After a tick no lock is overdue: a lock that is held lies in the future.
pub proof fn law_no_lock_is_overdue(w: World, npc_id: u64)
    requires
        w.world_state.contains_key(0),
        w.now() < i64::MAX,
        w.npc.contains_key(npc_id),
    ensures
        ticked(w).npc.contains_key(npc_id),
        ticked(w).npc[npc_id].busy_until_tick <= 0 || ticked(w).npc[npc_id].busy_until_tick
            > ticked(w).now(),
{
}

/// Seeding twice is seeding once.
pub proof fn law_seeding_is_idempotent(w: World, ids: [u64; 3], again: [u64; 3])
    requires
        w.valid(),
    ensures
        seeded(seeded(w, ids), again) == seeded(w, ids),
{
    let s = seeded(w, ids);
    if w.npc.dom().len() == 0 {
        assert(s.npc.dom().contains(ids@[2]));
        assert(s.npc.dom().len() > 0);
    }
}

/// Coming up twice is coming up once.
pub proof fn law_init_is_idempotent(
    w: World,
    schedule_id: u64,
    npc_ids: [u64; 3],
    other_schedule_id: u64,
    other_npc_ids: [u64; 3],
)
    requires
        w.valid(),
    ensures
        initialized(initialized(w, schedule_id, npc_ids), other_schedule_id, other_npc_ids)
            == initialized(w, schedule_id, npc_ids),
{
    let s = with_schedule(with_clock(w), schedule_id);
    let i = initialized(w, schedule_id, npc_ids);
    if w.game_tick_schedule.dom().len() == 0 {
        assert(s.game_tick_schedule.dom().contains(schedule_id));
        assert(s.game_tick_schedule.dom().len() > 0);
    }
    assert(i.game_tick_schedule == s.game_tick_schedule);
    law_seeding_is_idempotent(s, npc_ids, other_npc_ids);
    assert(with_schedule(with_clock(i), other_schedule_id) == i);
}

/// Registering twice is registering once.
pub proof fn law_registering_is_idempotent(
    w: World,
    id: Identity,
    username: Seq<char>,
    character_class: Seq<char>,
    other_username: Seq<char>,
    other_class: Seq<char>,
)
    ensures
        registered(
            registered(w, id, username, character_class),
            id,
            other_username,
            other_class,
        ) == registered(w, id, username, character_class),
{
}

/// A player who leaves is kept as logged out, with name, class and color. One
/// who comes back is in the game again and no longer logged out.
pub proof fn law_leaving_and_coming_back(
    w: World,
    id: Identity,
    at: Timestamp,
    username: Seq<char>,
    character_class: Seq<char>,
)
    requires
        w.player.contains_key(id),
    ensures
        ({
            let left = disconnected(w, id, at);
            let back = registered(left, id, username, character_class);
            &&& !left.player.contains_key(id)
            &&& left.logged_out_player.contains_key(id)
            &&& left.logged_out_player[id].username == w.player[id].username
            &&& left.logged_out_player[id].character_class == w.player[id].character_class
            &&& left.logged_out_player[id].color == w.player[id].color
            &&& left.logged_out_player[id].last_seen == at
            &&& back.player.contains_key(id)
            &&& back.player[id].username == username
            &&& back.player[id].character_class == character_class
            &&& !back.logged_out_player.contains_key(id)
        }),
{
}

/// What one client does leaves every other player's rows alone.
pub proof fn law_clients_do_not_touch_each_other(w: World, call: Call, other: Identity)
    requires
        allowed(w, call),
        !(call matches Call::RegisterPlayer { client, .. } && client == other),
        !(call matches Call::UpdatePlayerInput { client, .. } && client == other),
        !(call matches Call::IdentityDisconnected { client, .. } && client == other),
    ensures
        step(w, call).player.contains_key(other) == w.player.contains_key(other),
        w.player.contains_key(other) ==> step(w, call).player[other] == w.player[other],
        step(w, call).logged_out_player.contains_key(other)
            == w.logged_out_player.contains_key(other),
        w.logged_out_player.contains_key(other) ==> step(w, call).logged_out_player[other]
            == w.logged_out_player[other],
{
}

/// An asker with an open question for an NPC cannot ask it another one.
pub proof fn law_one_question_at_a_time(
    w: World,
    id: u64,
    asker: Identity,
    npc_id: u64,
    transcript: Seq<char>,
    player_distance: u32,
    is_player_armed: bool,
    flashlight_in_face: bool,
)
    requires
        ask_refusal(w, asker, npc_id) is None,
    ensures
        ask_refusal(
            asked(
                w,
                id,
                asker,
                npc_id,
                transcript,
                player_distance,
                is_player_armed,
                flashlight_in_face,
            ),
            asker,
            npc_id,
        ) == Some("you already have a pending question for this npc"@),
{
    let a = asked(
        w,
        id,
        asker,
        npc_id,
        transcript,
        player_distance,
        is_player_armed,
        flashlight_in_face,
    );
    assert(a.npc_interaction.contains_key(id));
}

proof fn lemma_row_is_kept(w: World, id: u64, calls: Seq<Call>)
    requires
        w.npc_interaction.contains_key(id),
        all_allowed(w, calls),
        none_assigns(calls, id),
    ensures
        after(w, calls).npc_interaction.contains_key(id) ==> {
            let kept = after(w, calls).npc_interaction[id];
            &&& kept.npc_id == w.npc_interaction[id].npc_id
            &&& kept.asker == w.npc_interaction[id].asker
            &&& kept.created_tick == w.npc_interaction[id].created_tick
        },
    decreases calls.len(),
{
    if calls.len() > 0 {
        let earlier = calls.drop_last();
        lemma_none_assigns_before(calls, id);
        lemma_row_is_kept(w, id, earlier);
    }
}

/// Two accepted questions of one asker to one NPC lie the minimum gap apart:
/// after the first, and whatever becomes of it, the asker's next one is refused
/// until enough ticks have passed, for as long as the first is kept.
pub proof fn law_gap_between_questions(
    w: World,
    id: u64,
    asker: Identity,
    npc_id: u64,
    transcript: Seq<char>,
    player_distance: u32,
    is_player_armed: bool,
    flashlight_in_face: bool,
    calls: Seq<Call>,
)
    requires
        ask_refusal(w, asker, npc_id) is None,
        ({
            let a = asked(
                w,
                id,
                asker,
                npc_id,
                transcript,
                player_distance,
                is_player_armed,
                flashlight_in_face,
            );
            &&& all_allowed(a, calls)
            &&& none_assigns(calls, id)
            &&& ticks(calls) < MIN_GAP
            &&& after(a, calls).npc_interaction.contains_key(id)
        }),
    ensures
        ask_refusal(
            after(
                asked(
                    w,
                    id,
                    asker,
                    npc_id,
                    transcript,
                    player_distance,
                    is_player_armed,
                    flashlight_in_face,
                ),
                calls,
            ),
            asker,
            npc_id,
        ) is Some,
{
    let a = asked(
        w,
        id,
        asker,
        npc_id,
        transcript,
        player_distance,
        is_player_armed,
        flashlight_in_face,
    );
    lemma_row_is_kept(a, id, calls);
    law_clock_counts_ticks(a, calls);
    assert(after(a, calls).npc_interaction.contains_key(id));
    assert(asked_just_now(after(a, calls), asker, npc_id));
}

/// An NPC that spoke is left in peace: until enough ticks have passed, nobody's
/// question to it is accepted.
pub proof fn law_peace_after_a_reply(
    w: World,
    director: Identity,
    npc_id: u64,
    id: u64,
    reply: ReplyView,
    calls: Seq<Call>,
    asker: Identity,
)
    requires
        w.valid(),
        respond_refusal(w, director, npc_id, id) is None,
        all_allowed(responded(w, npc_id, id, reply), calls),
        ticks(calls) < MIN_GAP,
    ensures
        ask_refusal(after(responded(w, npc_id, id, reply), calls), asker, npc_id) is Some,
{
    let start = responded(w, npc_id, id, reply);
    assert(start.valid());
    lemma_spoke_recently(start, calls, npc_id);
}

proof fn lemma_spoke_recently(w: World, calls: Seq<Call>, npc_id: u64)
    requires
        w.valid(),
        w.npc.contains_key(npc_id),
        w.npc[npc_id].last_spoke_tick == w.now(),
        all_allowed(w, calls),
    ensures
        after(w, calls).npc.contains_key(npc_id),
        after(w, calls).now() - after(w, calls).npc[npc_id].last_spoke_tick <= ticks(calls),
    decreases calls.len(),
{
    if calls.len() > 0 {
        let earlier = calls.drop_last();
        lemma_spoke_recently(w, earlier, npc_id);
        lemma_valid_history(w, earlier);
        law_only_replies_speak(after(w, earlier), calls.last(), npc_id);
        law_clock_counts_ticks(w, earlier);
        law_clock_counts_ticks(w, calls);
    }
}

/// The whole loop. A question that is accepted for an NPC that nobody holds can
/// be claimed by any director, and that director's reply is accepted: the NPC
/// says it, its sequence number grows by one, the question is done, its
/// transcript is kept, and the NPC is free again.
pub proof fn law_question_gets_its_answer(
    w: World,
    id: u64,
    asker: Identity,
    npc_id: u64,
    transcript: Seq<char>,
    player_distance: u32,
    is_player_armed: bool,
    flashlight_in_face: bool,
    director: Identity,
    reply: ReplyView,
)
    requires
        w.valid(),
        ask_refusal(w, asker, npc_id) is None,
        w.npc[npc_id].busy_until_tick <= w.now(),
        w.npc[npc_id].seq < u32::MAX,
    ensures
        ({
            let a = asked(
                w,
                id,
                asker,
                npc_id,
                transcript,
                player_distance,
                is_player_armed,
                flashlight_in_face,
            );
            let c = claimed(a, director, id);
            let r = responded(c, npc_id, id, reply);
            &&& claim_refusal(a, id) is None
            &&& respond_refusal(c, director, npc_id, id) is None
            &&& r.npc[npc_id] == freed(replied(w.npc[npc_id], id, reply, w.now()))
            &&& r.npc[npc_id].dialogue == capped(reply.dialogue, DIALOGUE_CAP as nat)
            &&& r.npc[npc_id].target_player == reply.target_player
            &&& r.npc[npc_id].seq == w.npc[npc_id].seq + 1
            &&& r.npc[npc_id].busy_until_tick == 0
            &&& r.npc_interaction[id].status == "done"@
            &&& r.npc_interaction[id].asker == asker
            &&& r.npc_utterance[id].transcript == capped(transcript, TRANSCRIPT_CAP as nat)
        }),
{
    lemma_words();
}

/// The members of a set that fewer than `n` members are below.
spec fn lowest(ids: Set<u64>, n: nat) -> Set<u64> {
    ids.filter(|id: u64| ids.filter(|other: u64| other < id).len() < n)
}

proof fn lemma_lowest_len(ids: Set<u64>, n: nat)
    requires
        ids.finite(),
    ensures
        lowest(ids, n).finite(),
        lowest(ids, n).len() == if n <= ids.len() {
            n
        } else {
            ids.len()
        },
    decreases ids.len(),
{
    if ids.len() == 0 {
        ids.lemma_len0_is_empty();
        assert(lowest(ids, n) =~= Set::empty());
    } else {
        let top = highest(ids);
        lemma_highest(ids);
        let rest = ids.remove(top);
        lemma_lowest_len(rest, n);
        assert(ids.filter(|other: u64| other < top) =~= rest);
        assert forall|id: u64| rest.contains(id) implies ids.filter(|other: u64| other < id)
            == rest.filter(|other: u64| other < id) by {
            assert(ids.filter(|other: u64| other < id) =~= rest.filter(|other: u64| other < id));
        }
        if ids.len() <= n {
            assert(lowest(ids, n) =~= lowest(rest, n).insert(top));
        } else {
            assert(lowest(ids, n) =~= lowest(rest, n));
        }
    }
}

/// The highest member of a set.
spec fn highest(ids: Set<u64>) -> u64 {
    choose|top: u64| ids.contains(top) && forall|id: u64| ids.contains(id) ==> id <= top
}

proof fn lemma_highest(ids: Set<u64>)
    requires
        ids.finite(),
        ids.len() > 0,
    ensures
        ids.contains(highest(ids)),
        forall|id: u64| ids.contains(id) ==> id <= highest(ids),
    decreases ids.len(),
{
    let one = ids.choose();
    let rest = ids.remove(one);
    if rest.len() == 0 {
        rest.lemma_len0_is_empty();
        assert forall|id: u64| ids.contains(id) implies id <= one by {
            if id != one {
                assert(rest.contains(id));
            }
        }
        assert(ids.contains(one));
    } else {
        lemma_highest(rest);
        let below = highest(rest);
        let top = if one > below {
            one
        } else {
            below
        };
        assert(ids.contains(top));
        assert forall|id: u64| ids.contains(id) implies id <= top by {
            if id != one {
                assert(rest.contains(id));
            }
        }
    }
}

/// What a tick prunes: as many interactions as the quota says, or all finished
/// ones if there are fewer. No more than a batch goes, and if there are enough
/// finished ones, a batch is enough to come down to the cap.
pub proof fn law_tick_prunes_to_its_quota(w: World)
    requires
        w.valid(),
        w.world_state.contains_key(0),
        w.now() < i64::MAX,
    ensures
        ({
            let before = w.npc_interaction.dom().len();
            let left = ticked(w).npc_interaction.dom().len();
            let finished = finished_ids(w).len();
            &&& left == before - if prune_quota(w) <= finished {
                prune_quota(w)
            } else {
                finished
            }
            &&& left + INTERACTION_PRUNE_BATCH >= before
            &&& before <= INTERACTION_PRUNE_CAP ==> left == before
            &&& INTERACTION_PRUNE_CAP < before <= INTERACTION_PRUNE_CAP + INTERACTION_PRUNE_BATCH
                && before - INTERACTION_PRUNE_CAP <= finished ==> left == INTERACTION_PRUNE_CAP
        }),
{
    lemma_words();
    let now = (w.now() + 1) as i64;
    let e = after_expiry(after_reclaim(clock_moved(w), now), now);
    let p = after_prune(e);
    assert(e.npc_interaction.dom() =~= w.npc_interaction.dom());
    assert(finished_ids(e) =~= finished_ids(w));
    assert(finished_ids(w).finite());
    let pruned = Set::new(|id: u64| is_pruned(e, id));
    assert(pruned =~= lowest(finished_ids(w), prune_quota(w)));
    lemma_lowest_len(finished_ids(w), prune_quota(w));
    assert(p.npc_interaction.dom() =~= e.npc_interaction.dom().difference(pruned));
    assert(pruned.subset_of(w.npc_interaction.dom()));
    lemma_difference_len(w.npc_interaction.dom(), pruned);
}

/// How many interactions a tick prunes: none up to the cap. Beyond it, no more
/// than are over the cap, than a batch holds and than are done or failed, and as
/// many as one of these three allows.
pub proof fn law_how_many_a_tick_prunes(w: World)
    requires
        w.valid(),
        w.world_state.contains_key(0),
        w.now() < i64::MAX,
    ensures
        ({
            let before = w.npc_interaction.dom();
            let left = step(w, Call::GameTick).npc_interaction.dom();
            let over = before.filter(
                |id: u64|
                    w.npc_interaction[id].status == "done"@ || w.npc_interaction[id].status
                        == "failed"@,
            ).len();
            let gone = before.len() - left.len();
            &&& left.subset_of(before)
            &&& left.finite()
            &&& before.len() <= INTERACTION_PRUNE_CAP ==> left == before
            &&& before.len() > INTERACTION_PRUNE_CAP ==> {
                &&& 0 <= gone <= over
                &&& left.len() >= INTERACTION_PRUNE_CAP
                &&& gone <= INTERACTION_PRUNE_BATCH
                &&& gone == over || left.len() == INTERACTION_PRUNE_CAP || gone
                    == INTERACTION_PRUNE_BATCH
            }
        }),
{
    lemma_words();
    let now = (w.now() + 1) as i64;
    let e = after_expiry(after_reclaim(clock_moved(w), now), now);
    let p = after_prune(e);
    assert(e.npc_interaction.dom() =~= w.npc_interaction.dom());
    assert(finished_ids(e) =~= finished_ids(w));
    assert(finished_ids(w) =~= w.npc_interaction.dom().filter(
        |id: u64|
            w.npc_interaction[id].status == "done"@ || w.npc_interaction[id].status == "failed"@,
    ));
    assert(finished_ids(w).finite());
    let pruned = Set::new(|id: u64| is_pruned(e, id));
    assert(pruned =~= lowest(finished_ids(w), prune_quota(w)));
    lemma_lowest_len(finished_ids(w), prune_quota(w));
    assert(p.npc_interaction.dom() =~= e.npc_interaction.dom().difference(pruned));
    assert(pruned.subset_of(w.npc_interaction.dom()));
    lemma_difference_len(w.npc_interaction.dom(), pruned);
    if w.npc_interaction.dom().len() <= INTERACTION_PRUNE_CAP {
        pruned.lemma_len0_is_empty();
        assert(p.npc_interaction.dom() =~= w.npc_interaction.dom());
    }
}

proof fn lemma_difference_len(all: Set<u64>, part: Set<u64>)
    requires
        all.finite(),
        part.finite(),
        part.subset_of(all),
    ensures
        all.difference(part).len() == all.len() - part.len(),
    decreases part.len(),
{
    if part.len() == 0 {
        part.lemma_len0_is_empty();
        assert(all.difference(part) =~= all);
    } else {
        let one = part.choose();
        lemma_difference_len(all.remove(one), part.remove(one));
        assert(all.remove(one).difference(part.remove(one)) =~= all.difference(part));
    }
}

/// A tick prunes the oldest first: of two finished interactions, if one is
/// pruned and the other stays, the one that stays has the higher id.
pub proof fn law_oldest_are_pruned_first(w: World, gone: u64, kept: u64)
    requires
        w.valid(),
        w.world_state.contains_key(0),
        w.now() < i64::MAX,
        w.npc_interaction.contains_key(gone),
        !ticked(w).npc_interaction.contains_key(gone),
        w.npc_interaction.contains_key(kept),
        w.npc_interaction[kept].status == "done"@ || w.npc_interaction[kept].status == "failed"@,
        ticked(w).npc_interaction.contains_key(kept),
    ensures
        w.npc_interaction[gone].status == "done"@ || w.npc_interaction[gone].status == "failed"@,
        gone < kept,
        !ticked(w).npc_utterance.contains_key(gone),
{
    lemma_words();
    let now = (w.now() + 1) as i64;
    let e = after_expiry(after_reclaim(clock_moved(w), now), now);
    assert(finished_ids(e) =~= finished_ids(w));
    assert(is_pruned(e, gone));
    assert(!is_pruned(e, kept));
    if kept < gone {
        let under_kept = finished_ids(e).filter(|other: u64| other < kept);
        let under_gone = finished_ids(e).filter(|other: u64| other < gone);
        assert(e.npc_interaction.dom() =~= w.npc_interaction.dom());
        assert(finished_ids(e).finite());
        assert(under_kept.subset_of(under_gone));
        vstd::set_lib::lemma_len_subset(under_kept, under_gone);
    }
}

/// Finished interactions come down to the cap: after a tick there are no more
/// than the cap of them, or a batch fewer than before.
pub proof fn law_finished_come_down_to_the_cap(w: World)
    requires
        w.valid(),
        w.world_state.contains_key(0),
        w.now() < i64::MAX,
    ensures
        ({
            let before = finished_ids(w).len();
            let left = finished_ids(ticked(w)).len();
            left <= INTERACTION_PRUNE_CAP || left + INTERACTION_PRUNE_BATCH <= before
        }),
{
    lemma_words();
    let now = (w.now() + 1) as i64;
    let e = after_expiry(after_reclaim(clock_moved(w), now), now);
    let p = after_prune(e);
    assert(e.npc_interaction.dom() =~= w.npc_interaction.dom());
    assert(finished_ids(e) =~= finished_ids(w));
    assert(finished_ids(w).finite());
    let pruned = Set::new(|id: u64| is_pruned(e, id));
    assert(pruned =~= lowest(finished_ids(w), prune_quota(w)));
    lemma_lowest_len(finished_ids(w), prune_quota(w));
    assert(finished_ids(p) =~= finished_ids(w).difference(pruned));
    lemma_difference_len(finished_ids(w), pruned);
    vstd::set_lib::lemma_len_subset(finished_ids(w), w.npc_interaction.dom());
}

/// A lock has an owner. Between ticks it changes only if the interaction that
/// owns it is acted on, or if it has run out and another claim takes it. A tick
/// frees it only if it has run out, or if its owner's claim is stale.
pub proof fn law_lock_moves_with_its_owner(w: World, call: Call, npc_id: u64)
    requires
        w.valid(),
        allowed(w, call),
        w.npc.contains_key(npc_id),
    ensures
        ({
            let npc = w.npc[npc_id];
            let next = step(w, call).npc[npc_id];
            let owner = npc.busy_interaction_id;
            ||| next.busy_until_tick == npc.busy_until_tick && next.busy_interaction_id == owner
            ||| acts_on(call, owner)
            ||| call is ClaimInteraction && npc.busy_until_tick <= w.now()
            ||| call is GameTick && npc.busy_until_tick <= step(w, call).now()
            ||| call is GameTick && w.npc_interaction.contains_key(owner) && is_stale(
                w.npc_interaction[owner],
                step(w, call).now(),
            )
        }),
{
    lemma_words();
    assert(w.npc.dom().contains(npc_id));
    assert(w.npc.dom().len() > 0);
}

} // verus!
