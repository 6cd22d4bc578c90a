use lost_expedition::table::Table;
use lost_expedition::{cur_tick, game_tick, init, Database, NpcInteraction, NpcUtterance};
use spacetimedb::Identity;

fn row(id: u64, status: &str) -> NpcInteraction {
    NpcInteraction {
        id,
        npc_id: 1,
        asker: Identity::from_byte_array([id as u8; 32]),
        status: status.to_string(),
        claimed_by: None,
        player_distance: 0,
        is_player_armed: false,
        flashlight_in_face: false,
        transcript: format!("speech {id}"),
        trust_at_ask: 50,
        sanity_at_ask: 70,
        created_tick: 0,
        claimed_tick: 0,
    }
}

/// A world with the given interactions, and a transcript for each.
fn world(rows: Vec<NpcInteraction>) -> Database {
    let mut db = Database::new();
    init(&mut db, 1, [1, 2, 3]).unwrap();
    let said = rows
        .iter()
        .map(|r| NpcUtterance { interaction_id: r.id, transcript: r.transcript.clone() })
        .collect();
    db.npc_interaction = Table::load(rows).unwrap();
    db.npc_utterance = Table::load(said).unwrap();
    db
}

fn ids(db: &Database) -> Vec<u64> {
    let mut ids: Vec<u64> = db.npc_interaction.rows().iter().map(|r| r.id).collect();
    let mut said: Vec<u64> = db.npc_utterance.rows().iter().map(|r| r.interaction_id).collect();
    ids.sort();
    said.sort();
    assert_eq!(ids, said);
    ids
}

#[test]
fn the_clock_counts_ticks_and_heals() {
    let mut db = Database::new();
    game_tick(&mut db);
    let ws = db.world_state.find(&0).unwrap();
    assert_eq!(ws.now_tick, 1);
    assert_eq!(ws.time_of_day, "dusk");
    assert_eq!(ws.weather_conditions, "fog");
    game_tick(&mut db);
    game_tick(&mut db);
    assert_eq!(cur_tick(&db), 3);
    assert_eq!(db.world_state.count(), 1);
}

#[test]
fn a_healing_tick_does_no_housekeeping() {
    let mut db = world((1..=70).map(|id| row(id, "done")).collect());
    db.world_state = Table::new();
    game_tick(&mut db);
    assert_eq!(cur_tick(&db), 1);
    assert_eq!(db.npc_interaction.count(), 70);
}

#[test]
fn nothing_is_pruned_up_to_the_cap() {
    let mut db = world((1..=60).map(|id| row(id, "done")).collect());
    game_tick(&mut db);
    assert_eq!(ids(&db), (1..=60).collect::<Vec<u64>>());
}

#[test]
fn the_oldest_finished_go_first() {
    let mut rows: Vec<NpcInteraction> = (1..=65)
        .rev()
        .map(|id| {
            row(
                id,
                match id {
                    1 | 3 => "pending",
                    4 => "claimed",
                    _ if id % 2 == 0 => "done",
                    _ => "failed",
                },
            )
        })
        .collect();
    rows.swap(3, 40);
    let mut db = world(rows);
    game_tick(&mut db);
    let expected: Vec<u64> = (1..=65).filter(|id| ![2, 5, 6, 7, 8].contains(id)).collect();
    assert_eq!(ids(&db), expected);
}

#[test]
fn a_tick_prunes_a_batch_at_most() {
    let mut db = world((1..=100).map(|id| row(id, "failed")).collect());
    game_tick(&mut db);
    assert_eq!(ids(&db), (21..=100).collect::<Vec<u64>>());
    game_tick(&mut db);
    assert_eq!(ids(&db), (41..=100).collect::<Vec<u64>>());
    game_tick(&mut db);
    assert_eq!(db.npc_interaction.count(), 60);
}

#[test]
fn open_questions_are_never_pruned() {
    let mut db = world(
        (1..=90).map(|id| row(id, if id == 90 { "done" } else { "pending" })).collect(),
    );
    game_tick(&mut db);
    assert_eq!(ids(&db), (1..=89).collect::<Vec<u64>>());
    game_tick(&mut db);
    assert_eq!(db.npc_interaction.count(), 89);
}

#[test]
fn stale_claims_free_only_the_locks_they_own() {
    let director = Some(Identity::from_byte_array([9; 32]));
    let claimed = |id: u64, npc_id: u64, at: i64| NpcInteraction {
        npc_id,
        claimed_by: director,
        claimed_tick: at,
        ..row(id, "claimed")
    };
    let mut db = world(vec![claimed(1, 1, 0), claimed(2, 1, 30), claimed(3, 2, 0)]);
    let mut ws = db.world_state.find(&0).unwrap();
    ws.now_tick = 60;
    db.world_state.update(ws);
    let mut mara = db.npc.find(&1).unwrap();
    mara.busy_until_tick = 90;
    mara.busy_interaction_id = 2;
    db.npc.update(mara.clone());
    let mut eli = db.npc.find(&2).unwrap();
    eli.busy_until_tick = 200;
    eli.busy_interaction_id = 3;
    db.npc.update(eli);
    game_tick(&mut db);
    let statuses: Vec<String> =
        [1, 2, 3].iter().map(|id| db.npc_interaction.find(id).unwrap().status).collect();
    assert_eq!(statuses, ["pending", "claimed", "pending"]);
    assert_eq!(db.npc_interaction.find(&1).unwrap().claimed_by, None);
    assert_eq!(db.npc_interaction.find(&2).unwrap().claimed_by, director);
    assert_eq!(db.npc.find(&1).unwrap(), mara);
    let eli = db.npc.find(&2).unwrap();
    assert_eq!((eli.busy_until_tick, eli.busy_interaction_id), (0, 0));
}

#[test]
fn locks_end_when_they_run_out() {
    let mut db = world(vec![]);
    let mut mara = db.npc.find(&1).unwrap();
    mara.busy_until_tick = 2;
    mara.busy_interaction_id = 44;
    db.npc.update(mara);
    game_tick(&mut db);
    assert_eq!(db.npc.find(&1).unwrap().busy_until_tick, 2);
    game_tick(&mut db);
    let mara = db.npc.find(&1).unwrap();
    assert_eq!((mara.busy_until_tick, mara.busy_interaction_id), (0, 0));
}
