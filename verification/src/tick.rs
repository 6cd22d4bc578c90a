//! The tick: the clock, and the housekeeping that goes with it.

use crate::common::{CLAIM_TIMEOUT_TICKS, INTERACTION_PRUNE_BATCH, INTERACTION_PRUNE_CAP};
use crate::database::{Database, World};
use crate::director::{free_lock, freed};
use crate::schema::{
    NpcInteraction, NpcInteractionView, NpcView, WorldState, WorldStateView,
};
use crate::table::{keys_distinct, listed, Row};
use crate::text::reads;
use vstd::prelude::*;

verus! {

/// The world state that a new or a healed world has.
pub open spec fn dusk(tick: i64) -> WorldStateView {
    WorldStateView { id: 0, now_tick: tick, time_of_day: "dusk"@, weather_conditions: "fog"@ }
}

/// Whether a claim has gone without a heartbeat for longer than it holds.
pub open spec fn is_stale(row: NpcInteractionView, now: i64) -> bool {
    row.status == "claimed"@ && now - row.claimed_tick > CLAIM_TIMEOUT_TICKS
}

/// An interaction whose claim was taken back: it waits again.
pub open spec fn reclaimed(row: NpcInteractionView) -> NpcInteractionView {
    NpcInteractionView { status: "pending"@, claimed_by: None, ..row }
}

/// Whether the lock of an NPC belongs to an interaction about this NPC whose
/// claim is stale.
pub open spec fn lock_is_stale(w: World, npc_id: u64, now: i64) -> bool {
    let owner = w.npc[npc_id].busy_interaction_id;
    &&& w.npc_interaction.contains_key(owner)
    &&& w.npc_interaction[owner].npc_id == npc_id
    &&& is_stale(w.npc_interaction[owner], now)
}

/// The world after stale claims were taken back, with the locks they own.
pub open spec fn after_reclaim(w: World, now: i64) -> World {
    World {
        npc_interaction: Map::new(
            |id: u64| w.npc_interaction.contains_key(id),
            |id: u64|
                if is_stale(w.npc_interaction[id], now) {
                    reclaimed(w.npc_interaction[id])
                } else {
                    w.npc_interaction[id]
                },
        ),
        npc: Map::new(
            |k: u64| w.npc.contains_key(k),
            |k: u64|
                if lock_is_stale(w, k, now) {
                    freed(w.npc[k])
                } else {
                    w.npc[k]
                },
        ),
        ..w
    }
}

/// Whether the lock of an NPC has run out.
pub open spec fn lock_expired(npc: NpcView, now: i64) -> bool {
    npc.busy_until_tick > 0 && now >= npc.busy_until_tick
}

/// The world after locks that ran out were freed.
pub open spec fn after_expiry(w: World, now: i64) -> World {
    World {
        npc: Map::new(
            |k: u64| w.npc.contains_key(k),
            |k: u64|
                if lock_expired(w.npc[k], now) {
                    freed(w.npc[k])
                } else {
                    w.npc[k]
                },
        ),
        ..w
    }
}

/// Whether an interaction has come to its end.
pub open spec fn is_finished(row: NpcInteractionView) -> bool {
    row.status == "done"@ || row.status == "failed"@
}

/// The interactions that have come to their end.
pub open spec fn finished_ids(w: World) -> Set<u64> {
    w.npc_interaction.dom().filter(|id: u64| is_finished(w.npc_interaction[id]))
}

/// How many interactions a tick may prune: as many as there are beyond the cap,
/// but no more than a batch.
pub open spec fn prune_quota(w: World) -> nat {
    let count = w.npc_interaction.dom().len();
    if count <= INTERACTION_PRUNE_CAP {
        0
    } else if count - INTERACTION_PRUNE_CAP <= INTERACTION_PRUNE_BATCH {
        (count - INTERACTION_PRUNE_CAP) as nat
    } else {
        INTERACTION_PRUNE_BATCH as nat
    }
}

/// Whether a tick prunes this interaction: it is finished, and fewer finished
/// ones than the quota have a lower id.
pub open spec fn is_pruned(w: World, id: u64) -> bool {
    &&& finished_ids(w).contains(id)
    &&& finished_ids(w).filter(|other: u64| other < id).len() < prune_quota(w)
}

/// The world after the oldest finished interactions were pruned, with their
/// transcripts.
pub open spec fn after_prune(w: World) -> World {
    World {
        npc_interaction: w.npc_interaction.remove_keys(Set::new(|id: u64| is_pruned(w, id))),
        npc_utterance: w.npc_utterance.remove_keys(Set::new(|id: u64| is_pruned(w, id))),
        ..w
    }
}

/// The world with its clock moved on by one tick.
pub open spec fn clock_moved(w: World) -> World {
    World {
        world_state: w.world_state.insert(
            0,
            WorldStateView { now_tick: (w.now() + 1) as i64, ..w.world_state[0] },
        ),
        ..w
    }
}

/// The world after a tick.
pub open spec fn ticked(w: World) -> World {
    if !w.world_state.contains_key(0) {
        World { world_state: w.world_state.insert(0, dusk(1)), ..w }
    } else {
        let now = (w.now() + 1) as i64;
        after_prune(after_expiry(after_reclaim(clock_moved(w), now), now))
    }
}

/// Takes back stale claims.
fn reclaim_stale(db: &mut Database, now: i64)
    requires
        old(db).wf(),
    ensures
        final(db).wf(),
        final(db).origin() == old(db).origin(),
        final(db)@ == after_reclaim(old(db)@, now),
{
    let ghost w = db@;
    let mut stale: Vec<NpcInteraction> = Vec::new();
    {
        let rows = db.npc_interaction.rows();
        let mut i: usize = 0;
        while i < rows.len()
            invariant
                i <= rows.len(),
                w == db@,
                forall|j: int|
                    0 <= j < rows.len() ==> {
                        &&& w.npc_interaction.contains_key((#[trigger] rows@[j]@).id)
                        &&& w.npc_interaction[rows@[j]@.id] == rows@[j]@
                    },
                forall|t: int|
                    0 <= t < stale.len() ==> {
                        &&& w.npc_interaction.contains_key((#[trigger] stale@[t]@).id)
                        &&& w.npc_interaction[stale@[t]@.id] == stale@[t]@
                        &&& is_stale(stale@[t]@, now)
                    },
                forall|j: int|
                    0 <= j < i && is_stale(#[trigger] rows@[j]@, now) ==> listed(
                        stale@,
                        rows@[j]@.id,
                    ),
            decreases rows.len() - i,
        {
            let row = &rows[i];
            if reads(&row.status, "claimed") && now as i128 - (row.claimed_tick as i128)
                > CLAIM_TIMEOUT_TICKS as i128 {
                let ghost before = stale@;
                stale.push(row.clone());
                proof {
                    assert forall|k: u64| listed(before, k) implies listed(stale@, k) by {
                        let t = choose|t: int|
                            0 <= t < before.len() && (#[trigger] before[t]@).id == k;
                        assert(stale@[t] == before[t]);
                        assert(<NpcInteraction as Row>::key(stale@[t]@) == k);
                    }
                    assert(stale@[before.len() as int]@ == rows@[i as int]@);
                    assert(<NpcInteraction as Row>::key(stale@[before.len() as int]@)
                        == rows@[i as int]@.id);
                }
            }
            i += 1;
        }
        assert forall|id: u64| #[trigger]
            w.npc_interaction.contains_key(id) && is_stale(
                w.npc_interaction[id],
                now,
            ) implies listed(stale@, id) by {
            assert(listed(rows@, id));
            let j = choose|j: int| 0 <= j < rows@.len() && (#[trigger] rows@[j]@).id == id;
            assert(is_stale(rows@[j]@, now));
        }
    }
    let mut s: usize = 0;
    while s < stale.len()
        invariant
            s <= stale.len(),
            db.wf(),
            db.origin() == old(db).origin(),
            forall|t: int|
                0 <= t < stale.len() ==> {
                    &&& w.npc_interaction.contains_key((#[trigger] stale@[t]@).id)
                    &&& w.npc_interaction[stale@[t]@.id] == stale@[t]@
                    &&& is_stale(stale@[t]@, now)
                },
            db@ == (World { npc_interaction: db@.npc_interaction, npc: db@.npc, ..w }),
            db@.npc_interaction.dom() == w.npc_interaction.dom(),
            forall|id: u64| #[trigger]
                w.npc_interaction.contains_key(id) ==> db@.npc_interaction[id] == if listed(
                    stale@.take(s as int),
                    id,
                ) {
                    reclaimed(w.npc_interaction[id])
                } else {
                    w.npc_interaction[id]
                },
            db@.npc.dom() == w.npc.dom(),
            forall|k: u64| #[trigger]
                w.npc.contains_key(k) ==> db@.npc[k] == if listed(
                    stale@.take(s as int),
                    w.npc[k].busy_interaction_id,
                ) && w.npc_interaction[w.npc[k].busy_interaction_id].npc_id == k {
                    freed(w.npc[k])
                } else {
                    w.npc[k]
                },
        decreases stale.len() - s,
    {
        let ghost before = db@;
        let ghost done = stale@.take(s as int);
        let ghost more = stale@.take(s as int + 1);
        let mut row = stale[s].clone();
        let id = row.id;
        let npc_id = row.npc_id;
        row.status = "pending".to_string();
        row.claimed_by = None;
        assert(w.npc_interaction.contains_key(stale@[s as int]@.id));
        assert(db@.npc_interaction.dom().contains(id));
        db.npc_interaction.update(row);
        free_lock(db, npc_id, id);
        proof {
            assert(more =~= done.push(stale@[s as int]));
            assert forall|k: u64| listed(more, k) <==> (k == id || listed(done, k)) by {
                if listed(done, k) {
                    let t = choose|t: int| 0 <= t < done.len() && (#[trigger] done[t]@).id == k;
                    assert(more[t] == done[t]);
                    assert(<NpcInteraction as Row>::key(more[t]@) == k);
                }
                if listed(more, k) {
                    let t = choose|t: int| 0 <= t < more.len() && (#[trigger] more[t]@).id == k;
                    if t < done.len() {
                        assert(<NpcInteraction as Row>::key(done[t]@) == k);
                    }
                }
                assert(<NpcInteraction as Row>::key(more[s as int]@) == id);
            }
            assert(db@.npc_interaction.dom() =~= w.npc_interaction.dom());
            assert(db@.npc.dom() =~= w.npc.dom());
            assert forall|k: u64| #[trigger] w.npc.contains_key(k) implies db@.npc[k]
                == if listed(more, w.npc[k].busy_interaction_id)
                && w.npc_interaction[w.npc[k].busy_interaction_id].npc_id == k {
                freed(w.npc[k])
            } else {
                w.npc[k]
            } by {
                assert(before.npc.dom().contains(k));
            }
        }
        s += 1;
    }
    proof {
        assert(stale@.take(stale.len() as int) =~= stale@);
        assert forall|id: u64| w.npc_interaction.contains_key(id) implies (listed(stale@, id)
            <==> is_stale(w.npc_interaction[id], now)) by {
            if listed(stale@, id) {
                let t = choose|t: int| 0 <= t < stale@.len() && (#[trigger] stale@[t]@).id == id;
                assert(is_stale(stale@[t]@, now));
            }
        }
        assert forall|id: u64| listed(stale@, id) implies w.npc_interaction.contains_key(id) by {
            let t = choose|t: int| 0 <= t < stale@.len() && (#[trigger] stale@[t]@).id == id;
            assert(is_stale(stale@[t]@, now));
        }
        let target = after_reclaim(w, now);
        assert(db@.npc_interaction =~= target.npc_interaction);
        assert(db@.npc =~= target.npc);
    }
}

/// Frees locks that ran out.
fn free_expired(db: &mut Database, now: i64)
    requires
        old(db).wf(),
    ensures
        final(db).wf(),
        final(db).origin() == old(db).origin(),
        final(db)@ == after_expiry(old(db)@, now),
{
    let ghost w = db@;
    let mut expired: Vec<u64> = Vec::new();
    {
        let rows = db.npc.rows();
        let mut i: usize = 0;
        while i < rows.len()
            invariant
                i <= rows.len(),
                w == db@,
                forall|j: int|
                    0 <= j < rows.len() ==> {
                        &&& w.npc.contains_key((#[trigger] rows@[j]@).npc_id)
                        &&& w.npc[rows@[j]@.npc_id] == rows@[j]@
                    },
                forall|t: int|
                    0 <= t < expired.len() ==> w.npc.contains_key(#[trigger] expired@[t])
                        && lock_expired(w.npc[expired@[t]], now),
                forall|j: int|
                    0 <= j < i && lock_expired(#[trigger] rows@[j]@, now) ==> expired@.contains(
                        rows@[j]@.npc_id,
                    ),
            decreases rows.len() - i,
        {
            let row = &rows[i];
            if row.busy_until_tick > 0 && now >= row.busy_until_tick {
                let ghost before = expired@;
                expired.push(row.npc_id);
                proof {
                    assert forall|k: u64| before.contains(k) implies expired@.contains(k) by {
                        let t = choose|t: int| 0 <= t < before.len() && before[t] == k;
                        assert(expired@[t] == k);
                    }
                    assert(expired@[before.len() as int] == rows@[i as int]@.npc_id);
                }
            }
            i += 1;
        }
        assert forall|k: u64| #[trigger]
            w.npc.contains_key(k) && lock_expired(w.npc[k], now) implies expired@.contains(k) by {
            assert(listed(rows@, k));
            let j = choose|j: int| 0 <= j < rows@.len() && (#[trigger] rows@[j]@).npc_id == k;
            assert(lock_expired(rows@[j]@, now));
        }
    }
    let mut s: usize = 0;
    while s < expired.len()
        invariant
            s <= expired.len(),
            db.wf(),
            db.origin() == old(db).origin(),
            forall|t: int|
                0 <= t < expired.len() ==> w.npc.contains_key(#[trigger] expired@[t])
                    && lock_expired(w.npc[expired@[t]], now),
            db@ == (World { npc: db@.npc, ..w }),
            db@.npc.dom() == w.npc.dom(),
            forall|k: u64| #[trigger]
                w.npc.contains_key(k) ==> db@.npc[k] == if expired@.take(s as int).contains(k) {
                    freed(w.npc[k])
                } else {
                    w.npc[k]
                },
        decreases expired.len() - s,
    {
        let npc_id = expired[s];
        let ghost done = expired@.take(s as int);
        let ghost more = expired@.take(s as int + 1);
        assert(w.npc.contains_key(expired@[s as int]));
        assert(db@.npc.dom().contains(npc_id));
        match db.npc.find(&npc_id) {
            Some(mut npc) => {
                npc.busy_until_tick = 0;
                npc.busy_interaction_id = 0;
                db.npc.update(npc);
            },
            None => {},
        }
        proof {
            assert(more =~= done.push(npc_id));
            assert forall|k: u64| more.contains(k) <==> (k == npc_id || done.contains(k)) by {
                if done.contains(k) {
                    let t = choose|t: int| 0 <= t < done.len() && done[t] == k;
                    assert(more[t] == k);
                }
                assert(more[s as int] == npc_id);
            }
            assert(db@.npc.dom() =~= w.npc.dom());
        }
        s += 1;
    }
    proof {
        assert(expired@.take(expired.len() as int) =~= expired@);
        assert(db@.npc =~= after_expiry(w, now).npc) by {
            assert forall|k: u64| w.npc.contains_key(k) implies (expired@.contains(k)
                <==> lock_expired(w.npc[k], now)) by {}
        }
    }
}

/// Whether the numbers ascend, none twice.
spec fn ascending(ids: Seq<u64>) -> bool {
    forall|i: int, j: int| 0 <= i < j < ids.len() ==> ids[i] < ids[j]
}

/// In ascending numbers, the place of one says how many are lower.
proof fn lemma_rank(ids: Seq<u64>, i: int)
    requires
        ascending(ids),
        0 <= i < ids.len(),
    ensures
        ids.to_set().filter(|other: u64| other < ids[i]).len() == i,
{
    let lower = ids.take(i);
    assert(lower.no_duplicates());
    lower.unique_seq_to_set();
    assert(ids.to_set().filter(|other: u64| other < ids[i]) =~= lower.to_set()) by {
        assert forall|k: u64| ids.contains(k) && k < ids[i] implies lower.contains(k) by {
            let t = choose|t: int| 0 <= t < ids.len() && ids[t] == k;
            assert(t < i);
            assert(lower[t] == k);
        }
        assert forall|k: u64| lower.contains(k) implies ids.contains(k) && k < ids[i] by {
            let t = choose|t: int| 0 <= t < lower.len() && lower[t] == k;
            assert(ids[t] == k);
        }
    }
}

/// Puts a number in its place among ascending ones.
fn insert_ascending(ids: &mut Vec<u64>, id: u64)
    requires
        ascending(old(ids)@),
        !old(ids)@.contains(id),
    ensures
        ascending(final(ids)@),
        final(ids)@.to_set() == old(ids)@.to_set().insert(id),
{
    let mut at: usize = 0;
    while at < ids.len() && ids[at] < id
        invariant
            at <= ids.len(),
            forall|j: int| 0 <= j < at ==> ids@[j] < id,
        decreases ids.len() - at,
    {
        at += 1;
    }
    let ghost before = ids@;
    assert(at < before.len() ==> before[at as int] != id);
    ids.insert(at, id);
    proof {
        let after = ids@;
        assert(after =~= before.insert(at as int, id));
        assert(after.to_set() =~= before.to_set().insert(id)) by {
            assert forall|k: u64| before.contains(k) implies after.contains(k) by {
                let t = choose|t: int| 0 <= t < before.len() && before[t] == k;
                assert(after[if t < at { t } else { t + 1 }] == k);
            }
            assert(after[at as int] == id);
            assert forall|k: u64| after.contains(k) && k != id implies before.contains(k) by {
                let t = choose|t: int| 0 <= t < after.len() && after[t] == k;
                assert(before[if t < at { t } else { t - 1 }] == k);
            }
        }
    }
}

/// The finished interactions, oldest first.
fn finished_in_order(db: &Database) -> (ids: Vec<u64>)
    requires
        db.wf(),
    ensures
        ascending(ids@),
        ids@.to_set() == finished_ids(db@),
{
    let rows = db.npc_interaction.rows();
    let mut ids: Vec<u64> = Vec::new();
    let mut i: usize = 0;
    assert(ids@.to_set() =~= Set::empty());
    while i < rows.len()
        invariant
            i <= rows.len(),
            keys_distinct(rows@),
            ascending(ids@),
            forall|id: u64| #[trigger]
                ids@.to_set().contains(id) <==> exists|j: int|
                    0 <= j < i && (#[trigger] rows@[j]@).id == id && is_finished(rows@[j]@),
        decreases rows.len() - i,
    {
        let row = &rows[i];
        if reads(&row.status, "done") || reads(&row.status, "failed") {
            let ghost before = ids@;
            assert(!ids@.contains(row.id)) by {
                if ids@.contains(row.id) {
                    assert(ids@.to_set().contains(row.id));
                    let j = choose|j: int|
                        0 <= j < i && (#[trigger] rows@[j]@).id == row.id && is_finished(
                            rows@[j]@,
                        );
                    assert(<NpcInteraction as Row>::key(rows@[j]@) != <NpcInteraction as Row>::key(
                        rows@[i as int]@,
                    ));
                }
            }
            insert_ascending(&mut ids, row.id);
            assert forall|id: u64| #[trigger]
                ids@.to_set().contains(id) <==> exists|j: int|
                    0 <= j < i + 1 && (#[trigger] rows@[j]@).id == id && is_finished(rows@[j]@) by {
                if before.to_set().contains(id) {
                    let j = choose|j: int|
                        0 <= j < i && (#[trigger] rows@[j]@).id == id && is_finished(rows@[j]@);
                    assert(0 <= j < i + 1 && rows@[j]@.id == id && is_finished(rows@[j]@));
                }
                if id == row.id {
                    assert(rows@[i as int]@.id == id && is_finished(rows@[i as int]@));
                }
            }
        }
        i += 1;
    }
    proof {
        assert(ids@.to_set() =~= finished_ids(db@)) by {
            assert forall|id: u64| finished_ids(db@).contains(id) implies ids@.to_set().contains(
                id,
            ) by {
                assert(listed(rows@, id));
                let j = choose|j: int| 0 <= j < rows@.len() && (#[trigger] rows@[j]@).id == id;
                assert(rows@[j]@.id == id && is_finished(rows@[j]@));
            }
            assert forall|id: u64| ids@.to_set().contains(id) implies finished_ids(db@).contains(
                id,
            ) by {
                let j = choose|j: int|
                    0 <= j < rows.len() && (#[trigger] rows@[j]@).id == id && is_finished(
                        rows@[j]@,
                    );
                assert(db@.npc_interaction.contains_key(rows@[j]@.id));
            }
        }
    }
    ids
}

/// Prunes the oldest finished interactions, with their transcripts.
fn prune_finished(db: &mut Database)
    requires
        old(db).wf(),
    ensures
        final(db).wf(),
        final(db).origin() == old(db).origin(),
        final(db)@ == after_prune(old(db)@),
{
    let ghost w = db@;
    let count = db.npc_interaction.count();
    if count <= INTERACTION_PRUNE_CAP {
        proof {
            assert(after_prune(w).npc_interaction =~= w.npc_interaction);
            assert(after_prune(w).npc_utterance =~= w.npc_utterance);
        }
        return;
    }
    let ids = finished_in_order(db);
    let mut quota: usize = count - INTERACTION_PRUNE_CAP;
    if quota > INTERACTION_PRUNE_BATCH {
        quota = INTERACTION_PRUNE_BATCH;
    }
    if quota > ids.len() {
        quota = ids.len();
    }
    let mut d: usize = 0;
    while d < quota
        invariant
            d <= quota <= ids.len(),
            db.wf(),
            db.origin() == old(db).origin(),
            db@ == (World {
                npc_interaction: w.npc_interaction.remove_keys(ids@.take(d as int).to_set()),
                npc_utterance: w.npc_utterance.remove_keys(ids@.take(d as int).to_set()),
                ..w
            }),
        decreases quota - d,
    {
        let id = ids[d];
        let ghost done = ids@.take(d as int);
        let ghost more = ids@.take(d as int + 1);
        db.npc_interaction.delete(id);
        db.npc_utterance.delete(id);
        proof {
            assert(more =~= done.push(id));
            assert(more.to_set() =~= done.to_set().insert(id)) by {
                assert forall|k: u64| done.contains(k) implies more.contains(k) by {
                    let t = choose|t: int| 0 <= t < done.len() && done[t] == k;
                    assert(more[t] == k);
                }
                assert(more[d as int] == id);
            }
            assert(w.npc_interaction.remove_keys(more.to_set()) =~= w.npc_interaction.remove_keys(
                done.to_set(),
            ).remove(id));
            assert(w.npc_utterance.remove_keys(more.to_set()) =~= w.npc_utterance.remove_keys(
                done.to_set(),
            ).remove(id));
        }
        d += 1;
    }
    proof {
        assert(ids@.take(quota as int).to_set() =~= Set::new(|id: u64| is_pruned(w, id))) by {
            assert forall|id: u64| is_pruned(w, id) implies ids@.take(quota as int).contains(id) by {
                assert(ids@.to_set().contains(id));
                let i = choose|i: int| 0 <= i < ids@.len() && ids@[i] == id;
                lemma_rank(ids@, i);
                assert(ids@.take(quota as int)[i] == id);
            }
            assert forall|id: u64| ids@.take(quota as int).contains(id) implies is_pruned(w, id) by {
                let i = choose|i: int| 0 <= i < quota && ids@.take(quota as int)[i] == id;
                assert(ids@[i] == id);
                assert(ids@.to_set().contains(id));
                lemma_rank(ids@, i);
            }
        }
    }
}

/// The tick, once a second. It advances the clock, and heals it if it is gone.
/// It takes back claims without a heartbeat, frees locks that ran out, and
/// prunes finished interactions beyond the cap.
pub fn game_tick(db: &mut Database)
    requires
        old(db).wf(),
        old(db)@.now() < i64::MAX,
    ensures
        final(db).wf(),
        final(db).origin() == old(db).origin(),
        final(db)@ == ticked(old(db)@),
{
    let mut ws = match db.world_state.find(&0) {
        Some(ws) => ws,
        None => {
            db.world_state.insert(
                WorldState {
                    id: 0,
                    now_tick: 1,
                    time_of_day: "dusk".to_string(),
                    weather_conditions: "fog".to_string(),
                },
            );
            return;
        },
    };
    ws.now_tick = ws.now_tick + 1;
    let now = ws.now_tick;
    db.world_state.update(ws);
    reclaim_stale(db, now);
    free_expired(db, now);
    prune_finished(db);
}

} // verus!
