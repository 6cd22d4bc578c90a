use lost_expedition::{
    ask_npc, claim_interaction, cur_tick, fail_interaction, game_tick, identity_disconnected,
    init, npc_respond, register_player, renew_claim, Database,
};
use spacetimedb::{Identity, Timestamp};

fn someone(n: u64) -> Identity {
    Identity::from_byte_array([n as u8; 32])
}

fn check(db: &Database) {
    let now = cur_tick(db);
    assert!(db.world_state.count() <= 1);
    for npc in db.npc.rows() {
        assert!((0..=100).contains(&npc.trust) && (0..=100).contains(&npc.sanity));
        assert!(["Cower", "Threaten", "Nod", "Panic", "Idle"]
            .contains(&npc.animation_trigger.as_str()));
        assert!(["FLEE", "FOLLOW", "STAY_PUT", "ATTACK"].contains(&npc.game_action.as_str()));
        assert!(npc.dialogue.chars().count() <= 300);
        assert!((0..=now).contains(&npc.last_spoke_tick));
        assert!((0..=now + 60).contains(&npc.busy_until_tick));
        assert_eq!(npc.busy_until_tick == 0, npc.busy_interaction_id == 0);
        assert!(db.npc_cognition.contains(&npc.npc_id));
    }
    assert_eq!(db.npc.count(), db.npc_cognition.count());
    assert_eq!(db.npc_interaction.count(), db.npc_utterance.count());
    let open = |s: &str| s == "pending" || s == "claimed";
    for row in db.npc_interaction.rows() {
        assert!(open(&row.status) || row.status == "done" || row.status == "failed");
        assert_eq!(row.status == "pending", row.claimed_by.is_none());
        assert_eq!(db.npc_utterance.find(&row.id).unwrap().transcript, row.transcript);
        assert!(db.npc.contains(&row.npc_id));
        assert!((0..=now).contains(&row.created_tick) && (0..=now).contains(&row.claimed_tick));
        let twins = db
            .npc_interaction
            .rows()
            .iter()
            .filter(|r| r.asker == row.asker && r.npc_id == row.npc_id && open(&r.status))
            .count();
        assert!(twins <= 1);
    }
    for player in db.player.rows() {
        assert!(!db.logged_out_player.contains(&player.identity));
    }
}

#[test]
fn every_world_keeps_what_it_promises() {
    let mut db = Database::new();
    check(&db);
    init(&mut db, 1, [1, 2, 3]).unwrap();
    let mut seed: u64 = 42;
    let mut next_id: u64 = 1;
    let mut replies = [0u32; 4];
    for _ in 0..3000 {
        seed = seed.wrapping_mul(6364136223846793005).wrapping_add(1442695040888963407);
        let r = seed >> 33;
        let who = someone(r % 5);
        let director = someone(50 + r % 2);
        let npc_id = 1 + r % 4;
        let id = next_id.saturating_sub(1 + r % 12);
        let change = (r % 301) as i32 - 150;
        match (r / 7) % 9 {
            0 | 1 => {
                if ask_npc(&mut db, who, npc_id, "x".repeat(500), 0, false, true, next_id).is_ok()
                {
                    next_id += 1;
                }
            }
            2 | 3 => {
                let _ = claim_interaction(&mut db, director, id);
            }
            4 => {
                let about = db.npc_interaction.find(&id).map_or(npc_id, |row| row.npc_id);
                let done = npc_respond(
                    &mut db,
                    director,
                    about,
                    id,
                    "y".repeat(400),
                    "Shrug".to_string(),
                    "ATTACK".to_string(),
                    Some(who),
                    change,
                    -change,
                );
                if done.is_ok() {
                    replies[about as usize] += 1;
                }
            }
            5 => {
                let _ = renew_claim(&mut db, director, id);
            }
            6 => {
                let _ = fail_interaction(&mut db, director, id);
            }
            7 => {
                register_player(&mut db, who, "n".to_string(), "c".to_string());
                if r % 3 == 0 {
                    identity_disconnected(
                        &mut db,
                        who,
                        Timestamp::from_micros_since_unix_epoch(r as i64),
                    );
                }
            }
            _ => game_tick(&mut db),
        }
        check(&db);
    }
    assert!(next_id > 20);
    for npc_id in 1..=3u64 {
        assert_eq!(db.npc.find(&npc_id).unwrap().seq, replies[npc_id as usize]);
    }
}
