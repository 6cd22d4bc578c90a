use lost_expedition::table::{Change, Table};
use lost_expedition::{
    ask_npc, claim_interaction, cur_tick, fail_interaction, game_tick, init, npc_respond,
    refuse_claim, refuse_holder, refuse_question, refuse_reply, renew_claim, Database, Npc,
};
use spacetimedb::Identity;

const MARA: u64 = 1;
const ELI: u64 = 2;

fn someone(n: u8) -> Identity {
    Identity::from_byte_array([n; 32])
}

fn err(reason: &str) -> Result<(), String> {
    Err(reason.to_string())
}

fn ticks(db: &mut Database, n: usize) {
    for _ in 0..n {
        game_tick(db);
    }
}

/// A world two ticks after it came up, where NPCs can be asked.
fn world() -> Database {
    let mut db = Database::new();
    init(&mut db, 1, [MARA, ELI, 3]).unwrap();
    ticks(&mut db, 2);
    db
}

fn ask(db: &mut Database, asker: u8, npc_id: u64, id: u64) -> Result<(), String> {
    ask_npc(
        db,
        someone(asker),
        npc_id,
        "Where is the camp?".to_string(),
        3.5f32.to_bits(),
        true,
        false,
        id,
    )
}

fn respond(db: &mut Database, director: u8, npc_id: u64, id: u64) -> Result<(), String> {
    npc_respond(
        db,
        someone(director),
        npc_id,
        id,
        "Leave me.".to_string(),
        "Cower".to_string(),
        "FLEE".to_string(),
        Some(someone(1)),
        -20,
        -15,
    )
}

fn npc(db: &Database, id: u64) -> Npc {
    db.npc.find(&id).unwrap()
}

fn status(db: &Database, id: u64) -> String {
    db.npc_interaction.find(&id).unwrap().status
}

#[test]
fn a_question_waits_with_its_transcript() {
    let mut db = world();
    let before = npc(&db, MARA);
    assert_eq!(ask(&mut db, 1, MARA, 10), Ok(()));
    let row = db.npc_interaction.find(&10).unwrap();
    assert_eq!(row.npc_id, MARA);
    assert_eq!(row.asker, someone(1));
    assert_eq!(row.status, "pending");
    assert_eq!(row.claimed_by, None);
    assert_eq!(f32::from_bits(row.player_distance), 3.5);
    assert!(row.is_player_armed && !row.flashlight_in_face);
    assert_eq!(row.transcript, "Where is the camp?");
    assert_eq!((row.trust_at_ask, row.sanity_at_ask), (50, 70));
    assert_eq!((row.created_tick, row.claimed_tick), (2, 0));
    assert_eq!(db.npc_utterance.find(&10).unwrap().transcript, "Where is the camp?");
    assert_eq!(npc(&db, MARA), before);
}

#[test]
fn a_long_transcript_is_capped() {
    let mut db = world();
    let speech = "ü".repeat(401);
    ask_npc(&mut db, someone(1), MARA, speech, 0, false, false, 10).unwrap();
    assert_eq!(db.npc_interaction.find(&10).unwrap().transcript, "ü".repeat(400));
    assert_eq!(db.npc_utterance.find(&10).unwrap().transcript, "ü".repeat(400));
}

#[test]
fn asking_nobody_is_refused() {
    let mut db = world();
    assert_eq!(ask(&mut db, 1, 99, 10), err("npc not found"));
    assert_eq!(db.npc_interaction.count(), 0);
    assert_eq!(db.npc_utterance.count(), 0);
}

#[test]
fn one_question_at_a_time() {
    let refused = err("you already have a pending question for this npc");
    let mut db = world();
    ask(&mut db, 1, MARA, 10).unwrap();
    assert_eq!(ask(&mut db, 1, MARA, 11), refused);
    claim_interaction(&mut db, someone(8), 10).unwrap();
    assert_eq!(ask(&mut db, 1, MARA, 11), refused);
    assert_eq!(ask(&mut db, 1, ELI, 12), Ok(()));
    assert_eq!(ask(&mut db, 2, MARA, 13), Ok(()));
}

#[test]
fn questions_of_one_asker_lie_a_gap_apart() {
    let refused = err("you just asked this npc — wait a moment");
    let mut db = world();
    ask(&mut db, 1, MARA, 10).unwrap();
    claim_interaction(&mut db, someone(8), 10).unwrap();
    fail_interaction(&mut db, someone(8), 10).unwrap();
    assert_eq!(ask(&mut db, 1, MARA, 14), refused);
    assert_eq!(db.npc_interaction.count(), 1);
    assert_eq!(db.npc_utterance.count(), 1);
    assert_eq!(ask(&mut db, 2, MARA, 15), Ok(()));
    assert_eq!(ask(&mut db, 1, ELI, 16), Ok(()));
    ticks(&mut db, 1);
    assert_eq!(ask(&mut db, 1, MARA, 14), refused);
    ticks(&mut db, 1);
    assert_eq!(ask(&mut db, 1, MARA, 14), Ok(()));
}

#[test]
fn an_npc_that_spoke_is_left_in_peace() {
    let refused = err("npc just spoke — wait a moment");
    let mut db = Database::new();
    init(&mut db, 1, [MARA, ELI, 3]).unwrap();
    assert_eq!(ask(&mut db, 1, MARA, 10), refused);
    ticks(&mut db, 1);
    assert_eq!(ask(&mut db, 1, MARA, 10), refused);
    ticks(&mut db, 1);
    assert_eq!(ask(&mut db, 1, MARA, 10), Ok(()));
    claim_interaction(&mut db, someone(8), 10).unwrap();
    respond(&mut db, 8, MARA, 10).unwrap();
    assert_eq!(ask(&mut db, 2, MARA, 11), refused);
    ticks(&mut db, 1);
    assert_eq!(ask(&mut db, 2, MARA, 11), refused);
    ticks(&mut db, 1);
    assert_eq!(ask(&mut db, 2, MARA, 11), Ok(()));
}

#[test]
fn a_claim_locks_the_row_and_the_npc() {
    let mut db = world();
    ask(&mut db, 1, MARA, 10).unwrap();
    assert_eq!(claim_interaction(&mut db, someone(8), 10), Ok(()));
    let row = db.npc_interaction.find(&10).unwrap();
    assert_eq!(row.status, "claimed");
    assert_eq!(row.claimed_by, Some(someone(8)));
    assert_eq!(row.claimed_tick, 2);
    assert_eq!(npc(&db, MARA).busy_until_tick, 62);
    assert_eq!(npc(&db, MARA).busy_interaction_id, 10);
}

#[test]
fn of_two_racing_directors_one_wins() {
    let mut db = world();
    ask(&mut db, 1, MARA, 10).unwrap();
    assert_eq!(claim_interaction(&mut db, someone(8), 10), Ok(()));
    assert_eq!(
        claim_interaction(&mut db, someone(9), 10),
        err("interaction not pending (lost race / already handled)")
    );
    assert_eq!(db.npc_interaction.find(&10).unwrap().claimed_by, Some(someone(8)));
}

#[test]
fn claims_are_refused_without_row_or_npc() {
    let mut db = world();
    assert_eq!(claim_interaction(&mut db, someone(8), 10), err("interaction not found"));
    ask(&mut db, 1, MARA, 10).unwrap();
    db.npc.delete(MARA);
    assert_eq!(claim_interaction(&mut db, someone(8), 10), err("npc not found"));
}

#[test]
fn a_busy_npc_excludes_other_questions_for_its_window() {
    let mut db = world();
    ask(&mut db, 1, MARA, 10).unwrap();
    ask(&mut db, 2, MARA, 11).unwrap();
    ask(&mut db, 2, ELI, 12).unwrap();
    claim_interaction(&mut db, someone(8), 10).unwrap();
    assert_eq!(claim_interaction(&mut db, someone(9), 11), err("npc busy"));
    assert_eq!(claim_interaction(&mut db, someone(9), 12), Ok(()));
    ticks(&mut db, 59);
    assert_eq!(claim_interaction(&mut db, someone(9), 11), err("npc busy"));
    ticks(&mut db, 1);
    assert_eq!(claim_interaction(&mut db, someone(9), 11), Ok(()));
}

#[test]
fn a_silent_claim_is_taken_back_after_its_window() {
    let mut db = world();
    ask(&mut db, 1, MARA, 10).unwrap();
    claim_interaction(&mut db, someone(8), 10).unwrap();
    ticks(&mut db, 60);
    assert_eq!(status(&db, 10), "claimed");
    assert_eq!(npc(&db, MARA).busy_until_tick, 0);
    ticks(&mut db, 1);
    assert_eq!(status(&db, 10), "pending");
    assert_eq!(db.npc_interaction.find(&10).unwrap().claimed_by, None);
    assert_eq!(respond(&mut db, 8, MARA, 10), err("not your active claim"));
    assert_eq!(renew_claim(&mut db, someone(8), 10), err("not your active claim"));
    assert_eq!(npc(&db, MARA).seq, 0);
    assert_eq!(claim_interaction(&mut db, someone(9), 10), Ok(()));
}

#[test]
fn a_heartbeat_keeps_the_claim_and_the_lock() {
    let mut db = world();
    ask(&mut db, 1, MARA, 10).unwrap();
    claim_interaction(&mut db, someone(8), 10).unwrap();
    ticks(&mut db, 40);
    assert_eq!(renew_claim(&mut db, someone(8), 10), Ok(()));
    assert_eq!(db.npc_interaction.find(&10).unwrap().claimed_tick, 42);
    assert_eq!(npc(&db, MARA).busy_until_tick, 102);
    assert_eq!(npc(&db, MARA).busy_interaction_id, 10);
    ticks(&mut db, 59);
    assert_eq!(status(&db, 10), "claimed");
    assert_eq!(npc(&db, MARA).busy_interaction_id, 10);
    assert_eq!(respond(&mut db, 8, MARA, 10), Ok(()));
}

#[test]
fn a_heartbeat_leaves_a_lock_that_another_owns() {
    let mut db = world();
    ask(&mut db, 1, MARA, 10).unwrap();
    ask(&mut db, 2, MARA, 11).unwrap();
    claim_interaction(&mut db, someone(8), 10).unwrap();
    ticks(&mut db, 60);
    claim_interaction(&mut db, someone(9), 11).unwrap();
    let locked = npc(&db, MARA);
    assert_eq!(renew_claim(&mut db, someone(8), 10), Ok(()));
    assert_eq!(npc(&db, MARA), locked);
    assert_eq!(locked.busy_interaction_id, 11);
}

#[test]
fn only_the_holder_may_act() {
    let mut db = world();
    ask(&mut db, 1, MARA, 10).unwrap();
    let refused = err("not your active claim");
    assert_eq!(renew_claim(&mut db, someone(8), 10), refused);
    assert_eq!(respond(&mut db, 8, MARA, 10), refused);
    assert_eq!(fail_interaction(&mut db, someone(8), 10), refused);
    claim_interaction(&mut db, someone(8), 10).unwrap();
    assert_eq!(renew_claim(&mut db, someone(9), 10), refused);
    assert_eq!(respond(&mut db, 9, MARA, 10), refused);
    assert_eq!(fail_interaction(&mut db, someone(9), 10), refused);
    let missing = err("interaction not found");
    assert_eq!(renew_claim(&mut db, someone(8), 77), missing);
    assert_eq!(respond(&mut db, 8, MARA, 77), missing);
    assert_eq!(fail_interaction(&mut db, someone(8), 77), missing);
    assert_eq!(respond(&mut db, 8, 99, 10), err("npc not found"));
    assert_eq!(status(&db, 10), "claimed");
}

#[test]
fn a_question_from_a_later_tick_does_not_count() {
    let mut db = world();
    ticks(&mut db, 3);
    ask(&mut db, 1, MARA, 10).unwrap();
    claim_interaction(&mut db, someone(8), 10).unwrap();
    fail_interaction(&mut db, someone(8), 10).unwrap();
    let mut row = db.npc_interaction.find(&10).unwrap();
    row.created_tick = 1000;
    db.npc_interaction.update(row);
    assert_eq!(ask(&mut db, 1, MARA, 11), Ok(()));
}

#[test]
fn a_refused_question_needs_no_fresh_id() {
    let mut db = world();
    ask(&mut db, 1, MARA, 10).unwrap();
    assert_eq!(
        ask(&mut db, 1, MARA, 10),
        err("you already have a pending question for this npc")
    );
    assert_eq!(db.npc_interaction.count(), 1);
}

#[test]
fn refusals_are_known_beforehand() {
    let mut db = world();
    assert_eq!(refuse_question(&db, someone(1), 99), Some("npc not found".to_string()));
    assert_eq!(refuse_question(&db, someone(1), MARA), None);
    assert_eq!(refuse_claim(&db, 10), Some("interaction not found".to_string()));
    ask(&mut db, 1, MARA, 10).unwrap();
    ask(&mut db, 2, MARA, 11).unwrap();
    assert_eq!(refuse_claim(&db, 10), None);
    assert_eq!(refuse_holder(&db, someone(8), 10), Some("not your active claim".to_string()));
    claim_interaction(&mut db, someone(8), 10).unwrap();
    assert_eq!(refuse_claim(&db, 11), Some("npc busy".to_string()));
    assert_eq!(refuse_holder(&db, someone(8), 10), None);
    assert_eq!(refuse_holder(&db, someone(8), 77), Some("interaction not found".to_string()));
    assert_eq!(refuse_reply(&db, someone(8), MARA, 10), None);
    assert_eq!(refuse_reply(&db, someone(8), 99, 10), Some("npc not found".to_string()));
    assert_eq!(
        refuse_reply(&db, someone(9), 99, 10),
        Some("not your active claim".to_string())
    );
}

#[test]
fn a_part_of_the_world_is_enough() {
    let mut db = world();
    ask(&mut db, 1, MARA, 10).unwrap();
    ask(&mut db, 2, ELI, 11).unwrap();
    let mut part = Database::new();
    part.world_state = Table::load(vec![db.world_state.find(&0).unwrap()]).unwrap();
    part.npc = Table::load(vec![npc(&db, MARA)]).unwrap();
    part.npc_interaction = Table::load(vec![db.npc_interaction.find(&10).unwrap()]).unwrap();
    assert_eq!(claim_interaction(&mut part, someone(8), 10), Ok(()));
    assert_eq!(claim_interaction(&mut db, someone(8), 10), Ok(()));
    assert_eq!(npc(&part, MARA), npc(&db, MARA));
    assert_eq!(part.npc_interaction.find(&10), db.npc_interaction.find(&10));
    assert_eq!(part.npc.count(), 1);
    assert_eq!(part.npc_interaction.count(), 1);
    assert_eq!(part.npc.into_changes().len(), 1);
    assert_eq!(part.npc_interaction.into_changes().len(), 1);
}

#[test]
fn changes_made_in_the_store_complete_the_call() {
    let mut db = world();
    ask(&mut db, 1, MARA, 10).unwrap();
    ask(&mut db, 2, ELI, 11).unwrap();
    let mut store = Table::load(vec![npc(&db, MARA), npc(&db, ELI), npc(&db, 3)]).unwrap();
    let mut part = Database::new();
    part.world_state = Table::load(vec![db.world_state.find(&0).unwrap()]).unwrap();
    part.npc = Table::load(vec![npc(&db, MARA)]).unwrap();
    part.npc_interaction = Table::load(vec![db.npc_interaction.find(&10).unwrap()]).unwrap();
    claim_interaction(&mut part, someone(8), 10).unwrap();
    claim_interaction(&mut db, someone(8), 10).unwrap();
    for change in part.npc.into_changes() {
        match change {
            Change::Insert(row) => store.insert(row),
            Change::Update(row) => store.update(row),
            Change::Delete(key) => assert!(store.delete(key)),
        }
    }
    assert_eq!(store.count(), 3);
    for id in [MARA, ELI, 3] {
        assert_eq!(store.find(&id), db.npc.find(&id));
    }
}

#[test]
fn a_question_gets_its_answer() {
    let mut db = world();
    ask(&mut db, 1, MARA, 10).unwrap();
    claim_interaction(&mut db, someone(8), 10).unwrap();
    ticks(&mut db, 3);
    assert_eq!(respond(&mut db, 8, MARA, 10), Ok(()));
    let mara = npc(&db, MARA);
    assert_eq!(mara.dialogue, "Leave me.");
    assert_eq!(mara.animation_trigger, "Cower");
    assert_eq!(mara.game_action, "FLEE");
    assert_eq!(mara.target_player, Some(someone(1)));
    assert_eq!((mara.trust, mara.sanity), (30, 55));
    assert_eq!(mara.seq, 1);
    assert_eq!(mara.last_spoke_tick, 5);
    assert_eq!((mara.busy_until_tick, mara.busy_interaction_id), (0, 0));
    assert_eq!(mara.display_name, "Mara");
    assert_eq!(status(&db, 10), "done");
    assert_eq!(db.npc_utterance.find(&10).unwrap().transcript, "Where is the camp?");
}

#[test]
fn a_reply_is_applied_once() {
    let mut db = world();
    ask(&mut db, 1, MARA, 10).unwrap();
    claim_interaction(&mut db, someone(8), 10).unwrap();
    respond(&mut db, 8, MARA, 10).unwrap();
    let answered = npc(&db, MARA);
    let refused = err("not your active claim");
    assert_eq!(respond(&mut db, 8, MARA, 10), refused);
    assert_eq!(renew_claim(&mut db, someone(8), 10), refused);
    assert_eq!(fail_interaction(&mut db, someone(8), 10), refused);
    assert_eq!(
        claim_interaction(&mut db, someone(8), 10),
        err("interaction not pending (lost race / already handled)")
    );
    assert_eq!(npc(&db, MARA), answered);
}

#[test]
fn unknown_triggers_and_actions_give_way() {
    for (trigger, action, shown, done) in [
        ("Cower", "FLEE", "Cower", "FLEE"),
        ("Threaten", "FOLLOW", "Threaten", "FOLLOW"),
        ("Nod", "STAY_PUT", "Nod", "STAY_PUT"),
        ("Panic", "ATTACK", "Panic", "ATTACK"),
        ("Idle", "flee", "Idle", "STAY_PUT"),
        ("Dance", "", "Idle", "STAY_PUT"),
    ] {
        let mut db = world();
        ask(&mut db, 1, MARA, 10).unwrap();
        claim_interaction(&mut db, someone(8), 10).unwrap();
        npc_respond(
            &mut db,
            someone(8),
            MARA,
            10,
            "é".repeat(305),
            trigger.to_string(),
            action.to_string(),
            None,
            0,
            0,
        )
        .unwrap();
        let mara = npc(&db, MARA);
        assert_eq!(mara.animation_trigger, shown);
        assert_eq!(mara.game_action, done);
        assert_eq!(mara.dialogue, "é".repeat(300));
        assert_eq!((mara.trust, mara.sanity), (50, 70));
    }
}

#[test]
fn levels_stay_between_zero_and_a_hundred() {
    for (trust_change, sanity_change, trust, sanity) in [
        (60, 31, 100, 100),
        (-51, -70, 0, 0),
        (50, 30, 100, 100),
        (49, -69, 99, 1),
        (i32::MAX, i32::MIN, 100, 0),
        (i32::MIN, i32::MAX, 0, 100),
    ] {
        let mut db = world();
        ask(&mut db, 1, MARA, 10).unwrap();
        claim_interaction(&mut db, someone(8), 10).unwrap();
        npc_respond(
            &mut db,
            someone(8),
            MARA,
            10,
            String::new(),
            "Nod".to_string(),
            "FOLLOW".to_string(),
            None,
            trust_change,
            sanity_change,
        )
        .unwrap();
        assert_eq!((npc(&db, MARA).trust, npc(&db, MARA).sanity), (trust, sanity));
    }
}

#[test]
fn a_reply_for_another_npc_leaves_locks_it_does_not_own() {
    let mut db = world();
    ask(&mut db, 1, MARA, 10).unwrap();
    ask(&mut db, 1, ELI, 11).unwrap();
    claim_interaction(&mut db, someone(8), 10).unwrap();
    claim_interaction(&mut db, someone(9), 11).unwrap();
    respond(&mut db, 8, ELI, 10).unwrap();
    assert_eq!(npc(&db, ELI).dialogue, "Leave me.");
    assert_eq!(npc(&db, ELI).busy_interaction_id, 11);
    assert_eq!(npc(&db, MARA).busy_interaction_id, 10);
    assert_eq!(npc(&db, MARA).seq, 0);
    assert_eq!(status(&db, 10), "done");
}

#[test]
fn giving_up_frees_the_npc() {
    let mut db = world();
    ask(&mut db, 1, MARA, 10).unwrap();
    ask(&mut db, 2, MARA, 11).unwrap();
    claim_interaction(&mut db, someone(8), 10).unwrap();
    assert_eq!(fail_interaction(&mut db, someone(8), 10), Ok(()));
    assert_eq!(status(&db, 10), "failed");
    assert_eq!((npc(&db, MARA).busy_until_tick, npc(&db, MARA).busy_interaction_id), (0, 0));
    assert_eq!(npc(&db, MARA).seq, 0);
    assert_eq!(claim_interaction(&mut db, someone(9), 11), Ok(()));
}

#[test]
fn the_sequence_number_counts_replies() {
    let mut db = world();
    for n in 0..5u64 {
        ask(&mut db, 1, MARA, 10 + n).unwrap();
        claim_interaction(&mut db, someone(8), 10 + n).unwrap();
        if n != 2 {
            respond(&mut db, 8, MARA, 10 + n).unwrap();
        } else {
            fail_interaction(&mut db, someone(8), 10 + n).unwrap();
        }
        ticks(&mut db, 2);
    }
    assert_eq!(npc(&db, MARA).seq, 4);
    assert_eq!(npc(&db, ELI).seq, 0);
    assert_eq!(cur_tick(&db), 12);
}
