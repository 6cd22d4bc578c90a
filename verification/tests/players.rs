use lost_expedition::{
    default_input, identity_disconnected, register_player, update_player_input, Database,
    InputState, PlayerData, Vector3,
};
use spacetimedb::{Identity, Timestamp};

fn someone(n: u8) -> Identity {
    Identity::from_byte_array([n; 32])
}

fn join(db: &mut Database, n: u8) -> PlayerData {
    register_player(db, someone(n), format!("player{n}"), "scout".to_string());
    db.player.find(&someone(n)).unwrap()
}

#[test]
fn a_newcomer_stands_at_the_trailhead() {
    let mut db = Database::new();
    let row = join(&mut db, 1);
    let origin = Vector3 { x: 0f32.to_bits(), y: 0f32.to_bits(), z: 0f32.to_bits() };
    assert_eq!(row.identity, someone(1));
    assert_eq!(row.username, "player1");
    assert_eq!(row.character_class, "scout");
    assert_eq!(row.position, Vector3 { y: 1f32.to_bits(), ..origin });
    assert_eq!(row.rotation, origin);
    assert_eq!((row.health, row.max_health, row.mana, row.max_mana), (100, 100, 100, 100));
    assert_eq!(row.current_animation, "idle");
    assert!(!row.is_moving && !row.is_running && !row.is_attacking && !row.is_casting);
    assert_eq!(row.last_input_seq, 0);
    assert_eq!(row.input, default_input());
    assert_eq!(row.color, "cyan");
}

#[test]
fn controls_start_at_rest() {
    assert_eq!(
        default_input(),
        InputState {
            forward: false,
            backward: false,
            left: false,
            right: false,
            sprint: false,
            jump: false,
            attack: false,
            cast_spell: false,
            sequence: 0,
        }
    );
}

#[test]
fn colors_cycle_by_join_order() {
    let mut db = Database::new();
    let colors: Vec<String> = (1..=8).map(|n| join(&mut db, n).color).collect();
    assert_eq!(
        colors,
        ["cyan", "magenta", "yellow", "lightgreen", "orange", "white", "cyan", "magenta"]
    );
}

#[test]
fn registering_twice_is_registering_once() {
    let mut db = Database::new();
    let first = join(&mut db, 1);
    register_player(&mut db, someone(1), "other".to_string(), "medic".to_string());
    assert_eq!(db.player.count(), 1);
    assert_eq!(db.player.find(&someone(1)).unwrap(), first);
}

#[test]
fn leaving_keeps_a_snapshot_and_coming_back_clears_it() {
    let mut db = Database::new();
    join(&mut db, 1);
    let other = join(&mut db, 2);
    let at = Timestamp::from_micros_since_unix_epoch(1234);
    identity_disconnected(&mut db, someone(1), at);
    assert!(!db.player.contains(&someone(1)));
    assert_eq!(db.player.find(&someone(2)).unwrap(), other);
    let left = db.logged_out_player.find(&someone(1)).unwrap();
    assert_eq!(left.username, "player1");
    assert_eq!(left.character_class, "scout");
    assert_eq!(left.color, "cyan");
    assert_eq!(left.last_seen, at);

    register_player(&mut db, someone(1), "again".to_string(), "guide".to_string());
    assert!(!db.logged_out_player.contains(&someone(1)));
    let back = db.player.find(&someone(1)).unwrap();
    assert_eq!(back.username, "again");
    assert_eq!(back.color, "magenta");
}

#[test]
fn a_stranger_who_disconnects_leaves_nothing() {
    let mut db = Database::new();
    join(&mut db, 1);
    identity_disconnected(&mut db, someone(9), Timestamp::from_micros_since_unix_epoch(0));
    assert_eq!(db.player.count(), 1);
    assert_eq!(db.logged_out_player.count(), 0);
}

#[test]
fn input_replaces_the_row_of_its_sender_only() {
    let mut db = Database::new();
    let one = join(&mut db, 1);
    let two = join(&mut db, 2);
    let mut moved = one.clone();
    moved.position.x = 2.5f32.to_bits();
    moved.is_moving = true;
    moved.last_input_seq = 17;
    moved.input.forward = true;
    moved.identity = someone(2);
    update_player_input(&mut db, someone(1), moved.clone());
    moved.identity = someone(1);
    assert_eq!(db.player.find(&someone(1)).unwrap(), moved);
    assert_eq!(db.player.find(&someone(2)).unwrap(), two);

    update_player_input(&mut db, someone(7), moved);
    assert_eq!(db.player.count(), 2);
    assert!(!db.player.contains(&someone(7)));
}
