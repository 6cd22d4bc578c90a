//! What every world keeps that reducers lead to.

use crate::common::{CLAIM_TIMEOUT_TICKS, DIALOGUE_CAP, TRANSCRIPT_CAP};
use crate::database::World;
use crate::director::{is_open, known_action, known_animation};
use crate::history::{
    after, all_allowed, allowed, empty_world, lemma_none_assigns_before, none_assigns, step, Call,
};
use crate::roster::{ids_free, initialized, seeded, with_clock, with_schedule};
use crate::schema::{NpcInteractionView, NpcView};
use crate::tick::{
    after_expiry, after_prune, after_reclaim, clock_moved, is_finished, is_pruned, ticked,
};
use spacetimedb::Identity;
use vstd::prelude::*;

verus! {

/// What holds of every NPC: levels are between 0 and 100, clients know its
/// animation and its action, what it says is short, it has not spoken in the
/// future, its lock does not reach further than a claim does, and a lock that is
/// free has no owner.
pub open spec fn npc_sound(npc: NpcView, now: i64) -> bool {
    &&& 0 <= npc.trust <= 100
    &&& 0 <= npc.sanity <= 100
    &&& known_animation(npc.animation_trigger)
    &&& known_action(npc.game_action)
    &&& npc.dialogue.len() <= DIALOGUE_CAP
    &&& 0 <= npc.last_spoke_tick <= now
    &&& 0 <= npc.busy_until_tick <= now + CLAIM_TIMEOUT_TICKS
    &&& npc.busy_until_tick == 0 ==> npc.busy_interaction_id == 0
}

/// What holds of every interaction: its status is one of four, it names a
/// director from its claim on and none while it waits, what was said is short, the levels noted
/// are between 0 and 100, and nothing of it lies in the future.
pub open spec fn interaction_sound(row: NpcInteractionView, now: i64) -> bool {
    &&& is_open(row) || is_finished(row)
    &&& row.status == "claimed"@ ==> row.claimed_by is Some
    &&& row.status == "pending"@ ==> row.claimed_by is None
    &&& is_finished(row) ==> row.claimed_by is Some
    &&& row.transcript.len() <= TRANSCRIPT_CAP
    &&& 0 <= row.trust_at_ask <= 100
    &&& 0 <= row.sanity_at_ask <= 100
    &&& 0 <= row.created_tick <= now
    &&& 0 <= row.claimed_tick <= now
}

/// Whether two interactions are the same or differ in asker or NPC.
pub open spec fn unless_same_question(a: NpcInteractionView, b: NpcInteractionView) -> bool {
    a.asker == b.asker && a.npc_id == b.npc_id ==> a.id == b.id
}

/// Whether the lock of an NPC runs out when the claim does that owns it.
pub open spec fn lock_matches_claim(w: World, npc_id: u64) -> bool {
    let npc = w.npc[npc_id];
    let row = w.npc_interaction[npc.busy_interaction_id];
    npc.busy_until_tick > 0 && w.npc_interaction.contains_key(npc.busy_interaction_id)
        && row.npc_id == npc_id && row.status == "claimed"@ ==> npc.busy_until_tick
        == row.claimed_tick + CLAIM_TIMEOUT_TICKS
}

/// What every world keeps that reducers lead to.
pub open spec fn sound(w: World) -> bool {
    &&& w.valid()
    // There is one world state at most, and time does not run below zero.
    &&& forall|k: u32| #[trigger] w.world_state.contains_key(k) ==> k == 0
    &&& w.now() >= 0
    &&& forall|k: u64| #[trigger]
        w.npc.contains_key(k) ==> npc_sound(w.npc[k], w.now()) && lock_matches_claim(w, k)
    // Every NPC has a mind, and every mind an NPC.
    &&& w.npc_cognition.dom() == w.npc.dom()
    &&& forall|k: u64| #[trigger]
        w.npc_interaction.contains_key(k) ==> {
            &&& interaction_sound(w.npc_interaction[k], w.now())
            &&& w.npc.contains_key(w.npc_interaction[k].npc_id)
        }
    // A transcript goes with every interaction, and says what was asked.
    &&& w.npc_utterance.dom() == w.npc_interaction.dom()
    &&& forall|k: u64| #[trigger]
        w.npc_utterance.contains_key(k) ==> w.npc_utterance[k].transcript
            == w.npc_interaction[k].transcript
    // An asker has one open question for an NPC at most.
    &&& forall|a: u64, b: u64| #[trigger]
        w.npc_interaction.contains_key(a) && #[trigger] w.npc_interaction.contains_key(b)
            && is_open(w.npc_interaction[a]) && is_open(w.npc_interaction[b])
            ==> unless_same_question(w.npc_interaction[a], w.npc_interaction[b])
    // Nobody is in the game and logged out at once.
    &&& forall|k: Identity| #[trigger]
        w.player.contains_key(k) ==> !w.logged_out_player.contains_key(k)
}

/// The four statuses are different words.
pub proof fn lemma_words()
    ensures
        "pending"@ != "claimed"@,
        "pending"@ != "done"@,
        "pending"@ != "failed"@,
        "claimed"@ != "done"@,
        "claimed"@ != "failed"@,
        "done"@ != "failed"@,
{
    reveal_strlit("pending");
    reveal_strlit("claimed");
    reveal_strlit("done");
    reveal_strlit("failed");
    assert("pending"@[0] == 'p');
    assert("claimed"@[0] == 'c');
    assert("done"@[0] == 'd');
    assert("failed"@[0] == 'f');
}

/// A world whose tables are empty is sound.
pub proof fn law_empty_sound()
    ensures
        sound(empty_world()),
{
    let w = empty_world();
    assert(w.npc_cognition.dom() =~= w.npc.dom());
    assert(w.npc_utterance.dom() =~= w.npc_interaction.dom());
}

proof fn lemma_sound_tick(w: World)
    requires
        sound(w),
        w.now() < i64::MAX,
    ensures
        sound(ticked(w)),
{
    lemma_words();
    if w.world_state.contains_key(0) {
        let now = (w.now() + 1) as i64;
        let r = after_reclaim(clock_moved(w), now);
        let e = after_expiry(r, now);
        let p = after_prune(e);
        assert(r.npc_interaction.dom() =~= w.npc_interaction.dom());
        assert(r.npc.dom() =~= w.npc.dom());
        assert(e.npc.dom() =~= w.npc.dom());
        let pruned = Set::new(|id: u64| is_pruned(e, id));
        assert(p.npc_interaction.dom() =~= e.npc_interaction.dom().difference(pruned));
        assert(p.npc_utterance.dom() =~= e.npc_utterance.dom().difference(pruned));
        assert(p.npc_interaction.dom().finite());
        assert(p.npc_utterance.dom().finite());
        assert(p.npc_utterance.dom() =~= p.npc_interaction.dom());
    }
}

proof fn lemma_sound_seed(w: World, ids: [u64; 3])
    requires
        sound(w),
        w.npc.dom().len() == 0 ==> ids_free(w, ids),
    ensures
        sound(seeded(w, ids)),
{
    let next = seeded(w, ids);
    assert(next.npc_cognition.dom() =~= next.npc.dom());
}

proof fn lemma_sound_init(w: World, schedule_id: u64, npc_ids: [u64; 3])
    requires
        sound(w),
        w.npc.dom().len() == 0 ==> ids_free(w, npc_ids),
    ensures
        sound(initialized(w, schedule_id, npc_ids)),
{
    let started = with_schedule(with_clock(w), schedule_id);
    assert(sound(started));
    lemma_sound_seed(started, npc_ids);
}

proof fn lemma_sound_ask(w: World, call: Call)
    requires
        sound(w),
        allowed(w, call),
        call is AskNpc,
    ensures
        sound(step(w, call)),
{
    lemma_words();
    let next = step(w, call);
    assert(next.npc_utterance.dom() =~= next.npc_interaction.dom());
}

proof fn lemma_sound_claim(w: World, call: Call)
    requires
        sound(w),
        allowed(w, call),
        call is ClaimInteraction || call is RenewClaim,
    ensures
        sound(step(w, call)),
{
    lemma_words();
    let next = step(w, call);
    assert(next.npc_cognition.dom() =~= next.npc.dom());
    assert(next.npc_utterance.dom() =~= next.npc_interaction.dom());
}

proof fn lemma_sound_close(w: World, call: Call)
    requires
        sound(w),
        allowed(w, call),
        call is NpcRespond || call is FailInteraction,
    ensures
        sound(step(w, call)),
{
    lemma_words();
    let next = step(w, call);
    assert(next.npc_cognition.dom() =~= next.npc.dom());
    assert(next.npc_utterance.dom() =~= next.npc_interaction.dom());
}

/// Every reducer keeps a world sound.
pub proof fn law_sound_step(w: World, call: Call)
    requires
        sound(w),
        allowed(w, call),
    ensures
        sound(step(w, call)),
{
    match call {
        Call::Init { schedule_id, npc_ids } => lemma_sound_init(w, schedule_id, npc_ids),
        Call::SeedNpcs { ids } => lemma_sound_seed(w, ids),
        Call::AskNpc { .. } => lemma_sound_ask(w, call),
        Call::ClaimInteraction { .. } => lemma_sound_claim(w, call),
        Call::RenewClaim { .. } => lemma_sound_claim(w, call),
        Call::NpcRespond { .. } => lemma_sound_close(w, call),
        Call::FailInteraction { .. } => lemma_sound_close(w, call),
        Call::UpdateNpcMemory { .. } => {
            assert(step(w, call).npc_cognition.dom() =~= w.npc_cognition.dom());
        },
        Call::GameTick => lemma_sound_tick(w),
        _ => {},
    }
}

/// Every world that calls lead to from empty tables is sound.
pub proof fn law_sound_history(calls: Seq<Call>)
    requires
        all_allowed(empty_world(), calls),
    ensures
        sound(after(empty_world(), calls)),
    decreases calls.len(),
{
    if calls.len() == 0 {
        law_empty_sound();
    } else {
        law_sound_history(calls.drop_last());
        law_sound_step(after(empty_world(), calls.drop_last()), calls.last());
    }
}

/// Where no question is filed under id 0, the owner 0 says that a lock is free,
/// and a free lock has the owner 0.
pub proof fn law_owner_zero_means_free(calls: Seq<Call>, npc_id: u64)
    requires
        all_allowed(empty_world(), calls),
        none_assigns(calls, 0),
        after(empty_world(), calls).npc.contains_key(npc_id),
    ensures
        after(empty_world(), calls).npc[npc_id].busy_interaction_id == 0 <==> after(
            empty_world(),
            calls,
        ).npc[npc_id].busy_until_tick == 0,
{
    law_sound_history(calls);
    lemma_owner_zero(calls);
}

proof fn lemma_owner_zero(calls: Seq<Call>)
    requires
        all_allowed(empty_world(), calls),
        none_assigns(calls, 0),
    ensures
        !after(empty_world(), calls).npc_interaction.contains_key(0),
        forall|k: u64| #[trigger]
            after(empty_world(), calls).npc.contains_key(k) ==> (after(
                empty_world(),
                calls,
            ).npc[k].busy_interaction_id == 0 ==> after(empty_world(), calls).npc[k].busy_until_tick
                == 0),
    decreases calls.len(),
{
    if calls.len() > 0 {
        let earlier = calls.drop_last();
        lemma_none_assigns_before(calls, 0);
        lemma_owner_zero(earlier);
    }
}

} // verus!
