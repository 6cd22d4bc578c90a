use lost_expedition::roster::{ELI, MARA, TICK_MICROS, VAEL};
use lost_expedition::{
    cur_tick, init, seed_npcs, set_world_state, update_npc_memory, Database, ScheduleAt, Vector3,
};

fn at(x: f32, y: f32, z: f32) -> Vector3 {
    Vector3 { x: x.to_bits(), y: y.to_bits(), z: z.to_bits() }
}

#[test]
fn the_world_comes_up_at_dusk() {
    let mut db = Database::new();
    assert_eq!(cur_tick(&db), 0);
    assert_eq!(init(&mut db, 5, [1, 2, 3]), Ok(()));
    let ws = db.world_state.find(&0).unwrap();
    assert_eq!(ws.now_tick, 0);
    assert_eq!(ws.time_of_day, "dusk");
    assert_eq!(ws.weather_conditions, "fog");
    assert_eq!(db.game_tick_schedule.count(), 1);
    let schedule = db.game_tick_schedule.find(&5).unwrap();
    assert_eq!(schedule.scheduled_at, ScheduleAt::Interval(1_000_000));
    assert_eq!(TICK_MICROS, 1_000_000);
    assert_eq!(db.npc.count(), 3);
}

#[test]
fn the_roster_has_three_strangers() {
    let mut db = Database::new();
    seed_npcs(&mut db, [11, 12, 13]);
    let expected = [
        (11, "Mara", "survivor", at(18.0, 1.0, -12.0), MARA),
        (12, "Eli", "survivor", at(-22.0, 1.0, 8.0), ELI),
        (13, "Brother Vael", "cultist", at(5.0, 1.0, 34.0), VAEL),
    ];
    assert_eq!(db.npc.count(), 3);
    assert_eq!(db.npc_cognition.count(), 3);
    for (id, name, archetype, position, persona) in expected {
        let npc = db.npc.find(&id).unwrap();
        assert_eq!(npc.display_name, name);
        assert_eq!(npc.archetype, archetype);
        assert_eq!(npc.position, position);
        assert_eq!(npc.dialogue, "");
        assert_eq!(npc.animation_trigger, "Idle");
        assert_eq!(npc.game_action, "STAY_PUT");
        assert_eq!(npc.target_player, None);
        assert_eq!((npc.trust, npc.sanity, npc.seq), (50, 70, 0));
        assert_eq!((npc.last_spoke_tick, npc.busy_until_tick, npc.busy_interaction_id), (0, 0, 0));
        let mind = db.npc_cognition.find(&id).unwrap();
        assert_eq!(mind.persona, persona);
        assert_eq!(mind.memory, "");
        assert_eq!(mind.last_raw_output, "");
    }
    assert!(MARA.starts_with("You are Mara, the lost expedition's medic. Traumatized"));
    assert!(ELI.ends_with("You jump at shadows and second-guess every choice."));
    assert!(VAEL.contains("very high trust — and even then you guard"));
}

#[test]
fn seeding_twice_is_seeding_once() {
    let mut db = Database::new();
    seed_npcs(&mut db, [1, 2, 3]);
    seed_npcs(&mut db, [4, 5, 6]);
    assert_eq!(db.npc.count(), 3);
    assert_eq!(db.npc_cognition.count(), 3);
    assert!(db.npc.contains(&1) && !db.npc.contains(&4));
}

#[test]
fn coming_up_twice_is_coming_up_once() {
    let mut db = Database::new();
    init(&mut db, 5, [1, 2, 3]).unwrap();
    set_world_state(&mut db, "dawn".to_string(), "storm".to_string());
    init(&mut db, 6, [4, 5, 6]).unwrap();
    assert_eq!(db.npc.count(), 3);
    assert_eq!(db.game_tick_schedule.count(), 1);
    assert!(db.game_tick_schedule.contains(&5));
    assert_eq!(db.world_state.find(&0).unwrap().time_of_day, "dawn");
}

#[test]
fn setting_the_environment_leaves_the_clock() {
    let mut db = Database::new();
    set_world_state(&mut db, "day".to_string(), "rain".to_string());
    assert_eq!(db.world_state.count(), 0);
    init(&mut db, 1, [1, 2, 3]).unwrap();
    set_world_state(&mut db, "night".to_string(), "rain".to_string());
    let ws = db.world_state.find(&0).unwrap();
    assert_eq!((ws.now_tick, ws.id), (0, 0));
    assert_eq!(ws.time_of_day, "night");
    assert_eq!(ws.weather_conditions, "rain");
}

#[test]
fn memory_is_written_where_there_is_a_mind() {
    let mut db = Database::new();
    seed_npcs(&mut db, [1, 2, 3]);
    update_npc_memory(&mut db, 2, "saw a light".to_string());
    update_npc_memory(&mut db, 9, "nobody".to_string());
    assert_eq!(db.npc_cognition.find(&2).unwrap().memory, "saw a light");
    assert_eq!(db.npc_cognition.find(&2).unwrap().persona, ELI);
    assert_eq!(db.npc_cognition.find(&1).unwrap().memory, "");
    assert_eq!(db.npc_cognition.count(), 3);
}
