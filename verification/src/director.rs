//! Interactions: a player asks, a director claims, answers or gives up.

use crate::common::{CLAIM_TIMEOUT_TICKS, DIALOGUE_CAP, MIN_GAP, TRANSCRIPT_CAP};
use crate::database::{cur_tick, Database, World};
use crate::identity::{is_identity, same_identity};
use crate::schema::{
    NpcInteraction, NpcInteractionView, NpcUtterance, NpcUtteranceView, NpcView,
};
use crate::table::listed;
use crate::text::{cap_chars, capped, reads};
use spacetimedb::Identity;
use vstd::prelude::*;

verus! {

/// Whether an interaction still waits for its answer.
pub open spec fn is_open(row: NpcInteractionView) -> bool {
    row.status == "pending"@ || row.status == "claimed"@
}

/// Whether this asker has an open question for this NPC.
pub open spec fn has_open_question(w: World, asker: Identity, npc_id: u64) -> bool {
    exists|id: u64| #[trigger]
        w.npc_interaction.contains_key(id) && w.npc_interaction[id].npc_id == npc_id
            && w.npc_interaction[id].asker == asker && is_open(w.npc_interaction[id])
}

/// Whether a tick lies less than the minimum gap back. One that is still to come
/// does not.
pub open spec fn is_recent(tick: i64, now: i64) -> bool {
    0 <= now - tick < MIN_GAP
}

/// Whether this asker asked this NPC something less than the minimum gap ago.
pub open spec fn asked_just_now(w: World, asker: Identity, npc_id: u64) -> bool {
    exists|id: u64| #[trigger]
        w.npc_interaction.contains_key(id) && w.npc_interaction[id].npc_id == npc_id
            && w.npc_interaction[id].asker == asker && is_recent(
            w.npc_interaction[id].created_tick,
            w.now(),
        )
}

/// Why a question is refused, if it is.
pub open spec fn ask_refusal(w: World, asker: Identity, npc_id: u64) -> Option<Seq<char>> {
    if !w.npc.contains_key(npc_id) {
        Some("npc not found"@)
    } else if has_open_question(w, asker, npc_id) {
        Some("you already have a pending question for this npc"@)
    } else if w.now() - w.npc[npc_id].last_spoke_tick < MIN_GAP {
        Some("npc just spoke — wait a moment"@)
    } else if asked_just_now(w, asker, npc_id) {
        Some("you just asked this npc — wait a moment"@)
    } else {
        None
    }
}

/// The world after a question was taken in under `id`: it waits in the mailbox,
/// and its transcript stands beside it.
pub open spec fn asked(
    w: World,
    id: u64,
    asker: Identity,
    npc_id: u64,
    transcript: Seq<char>,
    player_distance: u32,
    is_player_armed: bool,
    flashlight_in_face: bool,
) -> World {
    let kept = capped(transcript, TRANSCRIPT_CAP as nat);
    World {
        npc_interaction: w.npc_interaction.insert(
            id,
            NpcInteractionView {
                id,
                npc_id,
                asker,
                status: "pending"@,
                claimed_by: None,
                player_distance,
                is_player_armed,
                flashlight_in_face,
                transcript: kept,
                trust_at_ask: w.npc[npc_id].trust,
                sanity_at_ask: w.npc[npc_id].sanity,
                created_tick: w.now(),
                claimed_tick: 0,
            },
        ),
        npc_utterance: w.npc_utterance.insert(
            id,
            NpcUtteranceView { interaction_id: id, transcript: kept },
        ),
        ..w
    }
}

/// Why a claim is refused, if it is.
pub open spec fn claim_refusal(w: World, id: u64) -> Option<Seq<char>> {
    if !w.npc_interaction.contains_key(id) {
        Some("interaction not found"@)
    } else if w.npc_interaction[id].status != "pending"@ {
        Some("interaction not pending (lost race / already handled)"@)
    } else if !w.npc.contains_key(w.npc_interaction[id].npc_id) {
        Some("npc not found"@)
    } else if locked_against(w, w.npc_interaction[id].npc_id, id) {
        Some("npc busy"@)
    } else {
        None
    }
}

/// Whether an NPC is locked, and by another interaction than this one.
pub open spec fn locked_against(w: World, npc_id: u64, id: u64) -> bool {
    w.npc[npc_id].busy_until_tick > w.now() && w.npc[npc_id].busy_interaction_id != id
}

/// The world after a director claimed an interaction: the row names the
/// director, and the NPC is locked for it.
pub open spec fn claimed(w: World, director: Identity, id: u64) -> World {
    let row = w.npc_interaction[id];
    World {
        npc_interaction: w.npc_interaction.insert(
            id,
            NpcInteractionView {
                status: "claimed"@,
                claimed_by: Some(director),
                claimed_tick: w.now(),
                ..row
            },
        ),
        npc: w.npc.insert(
            row.npc_id,
            NpcView {
                busy_until_tick: (w.now() + CLAIM_TIMEOUT_TICKS) as i64,
                busy_interaction_id: id,
                ..w.npc[row.npc_id]
            },
        ),
        ..w
    }
}

/// Whether a director holds the claim on an interaction.
pub open spec fn holds_claim(w: World, director: Identity, id: u64) -> bool {
    &&& w.npc_interaction.contains_key(id)
    &&& w.npc_interaction[id].status == "claimed"@
    &&& w.npc_interaction[id].claimed_by == Some(director)
}

/// Why a director may not act on an interaction, if it may not.
pub open spec fn claim_guard(w: World, director: Identity, id: u64) -> Option<Seq<char>> {
    if !w.npc_interaction.contains_key(id) {
        Some("interaction not found"@)
    } else if !holds_claim(w, director, id) {
        Some("not your active claim"@)
    } else {
        None
    }
}

/// Whether an interaction owns the lock of the NPC that it is about.
pub open spec fn owns_lock(w: World, id: u64) -> bool {
    let npc_id = w.npc_interaction[id].npc_id;
    w.npc.contains_key(npc_id) && w.npc[npc_id].busy_interaction_id == id
}

/// An NPC whose lock is free.
pub open spec fn freed(npc: NpcView) -> NpcView {
    NpcView { busy_until_tick: 0, busy_interaction_id: 0, ..npc }
}

/// The NPCs after the lock of one of them was freed, if the interaction owns
/// that lock.
pub open spec fn with_lock_freed(npc: Map<u64, NpcView>, npc_id: u64, id: u64) -> Map<
    u64,
    NpcView,
> {
    if npc.contains_key(npc_id) && npc[npc_id].busy_interaction_id == id {
        npc.insert(npc_id, freed(npc[npc_id]))
    } else {
        npc
    }
}

/// The world after the holder of a claim renewed it: the claim starts anew, and
/// so does the lock, if the interaction owns it.
pub open spec fn renewed(w: World, id: u64) -> World {
    let row = w.npc_interaction[id];
    World {
        npc_interaction: w.npc_interaction.insert(
            id,
            NpcInteractionView { claimed_tick: w.now(), ..row },
        ),
        npc: if owns_lock(w, id) {
            w.npc.insert(
                row.npc_id,
                NpcView {
                    busy_until_tick: (w.now() + CLAIM_TIMEOUT_TICKS) as i64,
                    ..w.npc[row.npc_id]
                },
            )
        } else {
            w.npc
        },
        ..w
    }
}

/// The animation triggers that clients know.
pub open spec fn known_animation(trigger: Seq<char>) -> bool {
    trigger == "Cower"@ || trigger == "Threaten"@ || trigger == "Nod"@ || trigger == "Panic"@
        || trigger == "Idle"@
}

/// The game actions that clients know.
pub open spec fn known_action(action: Seq<char>) -> bool {
    action == "FLEE"@ || action == "FOLLOW"@ || action == "STAY_PUT"@ || action == "ATTACK"@
}

/// A level moved by a delta, kept between 0 and 100.
pub open spec fn moved_level(level: int, delta: int) -> int {
    if level + delta < 0 {
        0
    } else if level + delta > 100 {
        100
    } else {
        level + delta
    }
}

/// What a director answers for an NPC.
#[verifier::ext_equal]
pub struct ReplyView {
    pub dialogue: Seq<char>,
    pub animation_trigger: Seq<char>,
    pub game_action: Seq<char>,
    pub target_player: Option<Identity>,
    pub trust_change: i32,
    pub sanity_change: i32,
}

/// An NPC after a reply. Unknown triggers and actions give way to `Idle` and
/// `STAY_PUT`. The lock is freed if the interaction owns it.
pub open spec fn replied(npc: NpcView, id: u64, reply: ReplyView, now: i64) -> NpcView {
    let spoken = NpcView {
        trust: moved_level(npc.trust as int, reply.trust_change as int) as i32,
        sanity: moved_level(npc.sanity as int, reply.sanity_change as int) as i32,
        dialogue: capped(reply.dialogue, DIALOGUE_CAP as nat),
        animation_trigger: if known_animation(reply.animation_trigger) {
            reply.animation_trigger
        } else {
            "Idle"@
        },
        game_action: if known_action(reply.game_action) {
            reply.game_action
        } else {
            "STAY_PUT"@
        },
        target_player: reply.target_player,
        seq: (npc.seq + 1) as u32,
        last_spoke_tick: now,
        ..npc
    };
    if npc.busy_interaction_id == id {
        freed(spoken)
    } else {
        spoken
    }
}

/// Why a reply is refused, if it is.
pub open spec fn respond_refusal(w: World, director: Identity, npc_id: u64, id: u64) -> Option<
    Seq<char>,
> {
    if claim_guard(w, director, id) is Some {
        claim_guard(w, director, id)
    } else if !w.npc.contains_key(npc_id) {
        Some("npc not found"@)
    } else {
        None
    }
}

/// The world after a reply: the NPC speaks, the interaction is done.
pub open spec fn responded(w: World, npc_id: u64, id: u64, reply: ReplyView) -> World {
    World {
        npc: w.npc.insert(npc_id, replied(w.npc[npc_id], id, reply, w.now())),
        npc_interaction: w.npc_interaction.insert(
            id,
            NpcInteractionView { status: "done"@, ..w.npc_interaction[id] },
        ),
        ..w
    }
}

/// The world after the holder of a claim gave up: the interaction has failed,
/// and the lock that goes with it is free.
pub open spec fn failed(w: World, id: u64) -> World {
    let row = w.npc_interaction[id];
    World {
        npc_interaction: w.npc_interaction.insert(
            id,
            NpcInteractionView { status: "failed"@, ..row },
        ),
        npc: with_lock_freed(w.npc, row.npc_id, id),
        ..w
    }
}

/// Whether this asker has an open question for this NPC.
fn open_question(db: &Database, asker: Identity, npc_id: u64) -> (b: bool)
    requires
        db.wf(),
    ensures
        b == has_open_question(db@, asker, npc_id),
{
    let rows = db.npc_interaction.rows();
    let mut i: usize = 0;
    while i < rows.len()
        invariant
            i <= rows.len(),
            forall|j: int|
                0 <= j < rows.len() ==> {
                    &&& db@.npc_interaction.contains_key((#[trigger] rows@[j]@).id)
                    &&& db@.npc_interaction[rows@[j]@.id] == rows@[j]@
                },
            forall|j: int|
                0 <= j < i ==> !((#[trigger] rows@[j]@).npc_id == npc_id && rows@[j]@.asker
                    == asker && is_open(rows@[j]@)),
        decreases rows.len() - i,
    {
        let row = &rows[i];
        if row.npc_id == npc_id && same_identity(&row.asker, &asker) && (reads(
            &row.status,
            "pending",
        ) || reads(&row.status, "claimed")) {
            assert(db@.npc_interaction.contains_key(rows@[i as int]@.id));
            return true;
        }
        i += 1;
    }
    assert forall|id: u64| #[trigger] db@.npc_interaction.contains_key(id) implies !(
    db@.npc_interaction[id].npc_id == npc_id && db@.npc_interaction[id].asker == asker && is_open(
        db@.npc_interaction[id],
    )) by {
        assert(listed(rows@, id));
        let j = choose|j: int| 0 <= j < rows@.len() && (#[trigger] rows@[j]@).id == id;
        assert(rows@[j]@.id == id);
    }
    false
}

/// Whether this asker asked this NPC something less than the minimum gap ago.
fn recent_question(db: &Database, asker: Identity, npc_id: u64, now: i64) -> (b: bool)
    requires
        db.wf(),
        now == db@.now(),
    ensures
        b == asked_just_now(db@, asker, npc_id),
{
    let rows = db.npc_interaction.rows();
    let mut i: usize = 0;
    while i < rows.len()
        invariant
            i <= rows.len(),
            now == db@.now(),
            forall|j: int|
                0 <= j < rows.len() ==> {
                    &&& db@.npc_interaction.contains_key((#[trigger] rows@[j]@).id)
                    &&& db@.npc_interaction[rows@[j]@.id] == rows@[j]@
                },
            forall|j: int|
                0 <= j < i ==> !((#[trigger] rows@[j]@).npc_id == npc_id && rows@[j]@.asker
                    == asker && is_recent(rows@[j]@.created_tick, now)),
        decreases rows.len() - i,
    {
        let row = &rows[i];
        let age: i128 = now as i128 - row.created_tick as i128;
        if row.npc_id == npc_id && same_identity(&row.asker, &asker) && 0 <= age && age
            < MIN_GAP as i128 {
            assert(db@.npc_interaction.contains_key(rows@[i as int]@.id));
            return true;
        }
        i += 1;
    }
    assert forall|id: u64| #[trigger] db@.npc_interaction.contains_key(id) implies !(
    db@.npc_interaction[id].npc_id == npc_id && db@.npc_interaction[id].asker == asker && is_recent(
        db@.npc_interaction[id].created_tick,
        now,
    )) by {
        assert(listed(rows@, id));
        let j = choose|j: int| 0 <= j < rows@.len() && (#[trigger] rows@[j]@).id == id;
        assert(rows@[j]@.id == id);
    }
    false
}

/// Why a question is refused, if it is.
pub fn refuse_question(db: &Database, asker: Identity, npc_id: u64) -> (reason: Option<String>)
    requires
        db.wf(),
    ensures
        match ask_refusal(db@, asker, npc_id) {
            Some(why) => reason matches Some(r) && r@ == why,
            None => reason is None,
        },
{
    let now = cur_tick(db);
    let npc = match db.npc.find(&npc_id) {
        Some(npc) => npc,
        None => {
            return Some("npc not found".to_string());
        },
    };
    if open_question(db, asker, npc_id) {
        return Some("you already have a pending question for this npc".to_string());
    }
    if now as i128 - (npc.last_spoke_tick as i128) < MIN_GAP as i128 {
        return Some("npc just spoke — wait a moment".to_string());
    }
    if recent_question(db, asker, npc_id, now) {
        return Some("you just asked this npc — wait a moment".to_string());
    }
    None
}

/// A player speaks to an NPC. The question is refused if the NPC does not
/// exist, if the asker has an open question for it, if it spoke just now, or if
/// the asker asked it something just now.
/// Otherwise the question waits under the id that the store assigned, with the
/// NPC's current trust and sanity noted. The NPC itself does not change.
pub fn ask_npc(
    db: &mut Database,
    asker: Identity,
    npc_id: u64,
    transcript: String,
    player_distance: u32,
    is_player_armed: bool,
    flashlight_in_face: bool,
    assigned_id: u64,
) -> (res: Result<(), String>)
    requires
        old(db).wf(),
        ask_refusal(old(db)@, asker, npc_id) is None ==> !old(db)@.npc_interaction.contains_key(
            assigned_id,
        ) && !old(db)@.npc_utterance.contains_key(assigned_id),
    ensures
        final(db).wf(),
        final(db).origin() == old(db).origin(),
        match ask_refusal(old(db)@, asker, npc_id) {
            Some(reason) => {
                &&& res matches Err(e) && e@ == reason
                &&& *final(db) == *old(db)
            },
            None => {
                &&& res is Ok
                &&& final(db)@ == asked(
                    old(db)@,
                    assigned_id,
                    asker,
                    npc_id,
                    transcript@,
                    player_distance,
                    is_player_armed,
                    flashlight_in_face,
                )
            },
        },
{
    match refuse_question(db, asker, npc_id) {
        Some(reason) => {
            return Err(reason);
        },
        None => {},
    }
    let now = cur_tick(db);
    let npc = db.npc.find(&npc_id).unwrap();
    let transcript = cap_chars(transcript, TRANSCRIPT_CAP);
    db.npc_interaction.insert(
        NpcInteraction {
            id: assigned_id,
            npc_id,
            asker,
            status: "pending".to_string(),
            claimed_by: None,
            player_distance,
            is_player_armed,
            flashlight_in_face,
            transcript: transcript.clone(),
            trust_at_ask: npc.trust,
            sanity_at_ask: npc.sanity,
            created_tick: now,
            claimed_tick: 0,
        },
    );
    db.npc_utterance.insert(NpcUtterance { interaction_id: assigned_id, transcript });
    Ok(())
}

/// Why a claim is refused, if it is.
pub fn refuse_claim(db: &Database, interaction_id: u64) -> (reason: Option<String>)
    requires
        db.wf(),
    ensures
        match claim_refusal(db@, interaction_id) {
            Some(why) => reason matches Some(r) && r@ == why,
            None => reason is None,
        },
{
    let interaction = match db.npc_interaction.find(&interaction_id) {
        Some(row) => row,
        None => {
            return Some("interaction not found".to_string());
        },
    };
    if !reads(&interaction.status, "pending") {
        return Some("interaction not pending (lost race / already handled)".to_string());
    }
    let npc = match db.npc.find(&interaction.npc_id) {
        Some(npc) => npc,
        None => {
            return Some("npc not found".to_string());
        },
    };
    if npc.busy_until_tick > cur_tick(db) && npc.busy_interaction_id != interaction_id {
        return Some("npc busy".to_string());
    }
    None
}

/// Why a director may not act on an interaction, if it may not.
pub fn refuse_holder(db: &Database, director: Identity, interaction_id: u64) -> (reason: Option<
    String,
>)
    requires
        db.wf(),
    ensures
        match claim_guard(db@, director, interaction_id) {
            Some(why) => reason matches Some(r) && r@ == why,
            None => reason is None,
        },
{
    match db.npc_interaction.find(&interaction_id) {
        Some(row) => if reads(&row.status, "claimed") && is_identity(&row.claimed_by, &director) {
            None
        } else {
            Some("not your active claim".to_string())
        },
        None => Some("interaction not found".to_string()),
    }
}

/// Why a reply is refused, if it is.
pub fn refuse_reply(db: &Database, director: Identity, npc_id: u64, interaction_id: u64) -> (reason:
    Option<String>)
    requires
        db.wf(),
    ensures
        match respond_refusal(db@, director, npc_id, interaction_id) {
            Some(why) => reason matches Some(r) && r@ == why,
            None => reason is None,
        },
{
    match refuse_holder(db, director, interaction_id) {
        Some(why) => Some(why),
        None => if db.npc.contains(&npc_id) {
            None
        } else {
            Some("npc not found".to_string())
        },
    }
}

/// A director claims an interaction. Of the directors that race for one row
/// exactly one wins, and no interaction is claimed while another one holds the
/// NPC's lock.
pub fn claim_interaction(db: &mut Database, director: Identity, interaction_id: u64) -> (res:
    Result<(), String>)
    requires
        old(db).wf(),
        claim_refusal(old(db)@, interaction_id) is None ==> old(db)@.now() + CLAIM_TIMEOUT_TICKS
            <= i64::MAX,
    ensures
        final(db).wf(),
        final(db).origin() == old(db).origin(),
        match claim_refusal(old(db)@, interaction_id) {
            Some(reason) => {
                &&& res matches Err(e) && e@ == reason
                &&& *final(db) == *old(db)
            },
            None => {
                &&& res is Ok
                &&& final(db)@ == claimed(old(db)@, director, interaction_id)
            },
        },
{
    match refuse_claim(db, interaction_id) {
        Some(reason) => {
            return Err(reason);
        },
        None => {},
    }
    let now = cur_tick(db);
    let mut interaction = db.npc_interaction.find(&interaction_id).unwrap();
    let mut npc = db.npc.find(&interaction.npc_id).unwrap();
    interaction.status = "claimed".to_string();
    interaction.claimed_by = Some(director);
    interaction.claimed_tick = now;
    db.npc_interaction.update(interaction);

    npc.busy_until_tick = now + CLAIM_TIMEOUT_TICKS;
    npc.busy_interaction_id = interaction_id;
    db.npc.update(npc);
    Ok(())
}

/// The heartbeat of a director that still works on its claim: the claim and the
/// lock that goes with it last for another full window.
pub fn renew_claim(db: &mut Database, director: Identity, interaction_id: u64) -> (res: Result<
    (),
    String,
>)
    requires
        old(db).wf(),
        claim_guard(old(db)@, director, interaction_id) is None && owns_lock(
            old(db)@,
            interaction_id,
        ) ==> old(db)@.now() + CLAIM_TIMEOUT_TICKS <= i64::MAX,
    ensures
        final(db).wf(),
        final(db).origin() == old(db).origin(),
        match claim_guard(old(db)@, director, interaction_id) {
            Some(reason) => {
                &&& res matches Err(e) && e@ == reason
                &&& *final(db) == *old(db)
            },
            None => {
                &&& res is Ok
                &&& final(db)@ == renewed(old(db)@, interaction_id)
            },
        },
{
    let now = cur_tick(db);
    match refuse_holder(db, director, interaction_id) {
        Some(reason) => {
            return Err(reason);
        },
        None => {},
    }
    let mut interaction = db.npc_interaction.find(&interaction_id).unwrap();
    let npc_id = interaction.npc_id;
    interaction.claimed_tick = now;
    db.npc_interaction.update(interaction);
    match db.npc.find(&npc_id) {
        Some(mut npc) => {
            if npc.busy_interaction_id == interaction_id {
                npc.busy_until_tick = now + CLAIM_TIMEOUT_TICKS;
                db.npc.update(npc);
            }
        },
        None => {},
    }
    Ok(())
}

/// Frees the lock of an NPC, if the interaction owns that lock.
pub(crate) fn free_lock(db: &mut Database, npc_id: u64, interaction_id: u64)
    requires
        old(db).wf(),
    ensures
        final(db).wf(),
        final(db).origin() == old(db).origin(),
        final(db)@ == (World {
            npc: with_lock_freed(old(db)@.npc, npc_id, interaction_id),
            ..old(db)@
        }),
{
    match db.npc.find(&npc_id) {
        Some(mut npc) => {
            if npc.busy_interaction_id == interaction_id {
                npc.busy_until_tick = 0;
                npc.busy_interaction_id = 0;
                db.npc.update(npc);
            }
        },
        None => {},
    }
}

/// The level that a delta leads to, between 0 and 100.
fn move_level(level: i32, delta: i32) -> (moved: i32)
    ensures
        moved == moved_level(level as int, delta as int),
        0 <= moved <= 100,
{
    let sum: i64 = level as i64 + delta as i64;
    if sum < 0 {
        0
    } else if sum > 100 {
        100
    } else {
        sum as i32
    }
}

/// A director answers for an NPC, for an interaction that it holds the claim
/// on. The NPC speaks, its trust and sanity move between 0 and 100, its
/// sequence number grows by one, and the interaction is done.
pub fn npc_respond(
    db: &mut Database,
    director: Identity,
    npc_id: u64,
    interaction_id: u64,
    dialogue: String,
    animation_trigger: String,
    game_action: String,
    target_player: Option<Identity>,
    trust_change: i32,
    sanity_change: i32,
) -> (res: Result<(), String>)
    requires
        old(db).wf(),
        respond_refusal(old(db)@, director, npc_id, interaction_id) is None
            ==> old(db)@.npc[npc_id].seq < u32::MAX,
    ensures
        final(db).wf(),
        final(db).origin() == old(db).origin(),
        match respond_refusal(old(db)@, director, npc_id, interaction_id) {
            Some(reason) => {
                &&& res matches Err(e) && e@ == reason
                &&& *final(db) == *old(db)
            },
            None => {
                &&& res is Ok
                &&& final(db)@ == responded(
                    old(db)@,
                    npc_id,
                    interaction_id,
                    ReplyView {
                        dialogue: dialogue@,
                        animation_trigger: animation_trigger@,
                        game_action: game_action@,
                        target_player,
                        trust_change,
                        sanity_change,
                    },
                )
            },
        },
{
    let now = cur_tick(db);
    match refuse_reply(db, director, npc_id, interaction_id) {
        Some(reason) => {
            return Err(reason);
        },
        None => {},
    }
    let mut interaction = db.npc_interaction.find(&interaction_id).unwrap();
    let mut npc = db.npc.find(&npc_id).unwrap();
    let animation_trigger = if reads(&animation_trigger, "Cower") || reads(
        &animation_trigger,
        "Threaten",
    ) || reads(&animation_trigger, "Nod") || reads(&animation_trigger, "Panic") || reads(
        &animation_trigger,
        "Idle",
    ) {
        animation_trigger
    } else {
        "Idle".to_string()
    };
    let game_action = if reads(&game_action, "FLEE") || reads(&game_action, "FOLLOW") || reads(
        &game_action,
        "STAY_PUT",
    ) || reads(&game_action, "ATTACK") {
        game_action
    } else {
        "STAY_PUT".to_string()
    };
    npc.trust = move_level(npc.trust, trust_change);
    npc.sanity = move_level(npc.sanity, sanity_change);
    npc.dialogue = cap_chars(dialogue, DIALOGUE_CAP);
    npc.animation_trigger = animation_trigger;
    npc.game_action = game_action;
    npc.target_player = target_player;
    npc.seq = npc.seq + 1;
    npc.last_spoke_tick = now;
    if npc.busy_interaction_id == interaction_id {
        npc.busy_until_tick = 0;
        npc.busy_interaction_id = 0;
    }
    db.npc.update(npc);

    interaction.status = "done".to_string();
    db.npc_interaction.update(interaction);
    Ok(())
}

/// A director gives up an interaction that it holds the claim on.
pub fn fail_interaction(db: &mut Database, director: Identity, interaction_id: u64) -> (res: Result<
    (),
    String,
>)
    requires
        old(db).wf(),
    ensures
        final(db).wf(),
        final(db).origin() == old(db).origin(),
        match claim_guard(old(db)@, director, interaction_id) {
            Some(reason) => {
                &&& res matches Err(e) && e@ == reason
                &&& *final(db) == *old(db)
            },
            None => {
                &&& res is Ok
                &&& final(db)@ == failed(old(db)@, interaction_id)
            },
        },
{
    match refuse_holder(db, director, interaction_id) {
        Some(reason) => {
            return Err(reason);
        },
        None => {},
    }
    let mut interaction = db.npc_interaction.find(&interaction_id).unwrap();
    let npc_id = interaction.npc_id;
    interaction.status = "failed".to_string();
    db.npc_interaction.update(interaction);
    free_lock(db, npc_id, interaction_id);
    Ok(())
}

} // verus!
