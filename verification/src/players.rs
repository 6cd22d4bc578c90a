//! Players: joining, moving, leaving.

use crate::common::{InputState, Vector3};
use crate::database::{Database, World};
use crate::schema::{LoggedOutPlayerData, LoggedOutPlayerView, PlayerData, PlayerView};
use spacetimedb::{Identity, Timestamp};
use vstd::prelude::*;

verus! {

/// The bit pattern of the single-precision number 1.
pub const ONE_BITS: u32 = 0x3f80_0000;

/// Controls at rest.
pub open spec fn idle_input() -> InputState {
    InputState {
        forward: false,
        backward: false,
        left: false,
        right: false,
        sprint: false,
        jump: false,
        attack: false,
        cast_spell: false,
        sequence: 0,
    }
}

/// Controls at rest.
pub fn default_input() -> (input: InputState)
    ensures
        input == idle_input(),
{
    InputState {
        forward: false,
        backward: false,
        left: false,
        right: false,
        sprint: false,
        jump: false,
        attack: false,
        cast_spell: false,
        sequence: 0,
    }
}

/// The color of the player who joins when `present` players are in the game.
pub open spec fn join_color(present: nat) -> Seq<char> {
    let slot = present % 6;
    if slot == 0 {
        "cyan"@
    } else if slot == 1 {
        "magenta"@
    } else if slot == 2 {
        "yellow"@
    } else if slot == 3 {
        "lightgreen"@
    } else if slot == 4 {
        "orange"@
    } else {
        "white"@
    }
}

/// A player who just joined: at the trailhead, at rest, in full health.
pub open spec fn newcomer(
    id: Identity,
    username: Seq<char>,
    character_class: Seq<char>,
    color: Seq<char>,
) -> PlayerView {
    PlayerView {
        identity: id,
        username,
        character_class,
        position: Vector3 { x: 0, y: ONE_BITS, z: 0 },
        rotation: Vector3 { x: 0, y: 0, z: 0 },
        health: 100,
        max_health: 100,
        mana: 100,
        max_mana: 100,
        current_animation: "idle"@,
        is_moving: false,
        is_running: false,
        is_attacking: false,
        is_casting: false,
        last_input_seq: 0,
        input: idle_input(),
        color,
    }
}

/// The world after a client registered. One who is in the game already changes
/// nothing. One who was there before is no longer logged out.
pub open spec fn registered(
    w: World,
    id: Identity,
    username: Seq<char>,
    character_class: Seq<char>,
) -> World {
    if w.player.contains_key(id) {
        w
    } else {
        World {
            player: w.player.insert(
                id,
                newcomer(id, username, character_class, join_color(w.player.dom().len())),
            ),
            logged_out_player: w.logged_out_player.remove(id),
            ..w
        }
    }
}

/// The world after a client disconnected. A player among them leaves the game,
/// and a snapshot stays.
pub open spec fn disconnected(w: World, id: Identity, at: Timestamp) -> World {
    if w.player.contains_key(id) {
        let player = w.player[id];
        World {
            player: w.player.remove(id),
            logged_out_player: w.logged_out_player.insert(
                id,
                LoggedOutPlayerView {
                    identity: id,
                    username: player.username,
                    character_class: player.character_class,
                    color: player.color,
                    last_seen: at,
                },
            ),
            ..w
        }
    } else {
        w
    }
}

/// The world after a client reported its controls, where `moved` is what the
/// movement rules made of the player. A client that is not in the game changes
/// nothing.
pub open spec fn input_updated(w: World, id: Identity, moved: PlayerView) -> World {
    if w.player.contains_key(id) {
        World { player: w.player.insert(id, PlayerView { identity: id, ..moved }), ..w }
    } else {
        w
    }
}

/// The color of the player who joins when `present` players are in the game.
fn color_for(present: usize) -> (color: String)
    ensures
        color@ == join_color(present as nat),
{
    let slot: usize = present % 6;
    if slot == 0 {
        "cyan".to_string()
    } else if slot == 1 {
        "magenta".to_string()
    } else if slot == 2 {
        "yellow".to_string()
    } else if slot == 3 {
        "lightgreen".to_string()
    } else if slot == 4 {
        "orange".to_string()
    } else {
        "white".to_string()
    }
}

/// A client joins the game.
pub fn register_player(
    db: &mut Database,
    id: Identity,
    username: String,
    character_class: String,
)
    requires
        old(db).wf(),
    ensures
        final(db).wf(),
        final(db).origin() == old(db).origin(),
        final(db)@ == registered(old(db)@, id, username@, character_class@),
{
    if db.player.contains(&id) {
        return;
    }
    let color = color_for(db.player.count());
    db.logged_out_player.delete(id);
    db.player.insert(
        PlayerData {
            identity: id,
            username,
            character_class,
            position: Vector3 { x: 0, y: ONE_BITS, z: 0 },
            rotation: Vector3 { x: 0, y: 0, z: 0 },
            health: 100,
            max_health: 100,
            mana: 100,
            max_mana: 100,
            current_animation: "idle".to_string(),
            is_moving: false,
            is_running: false,
            is_attacking: false,
            is_casting: false,
            last_input_seq: 0,
            input: default_input(),
            color,
        },
    );
}

/// A client reports its controls. `moved` is the player as the movement rules
/// leave it; it takes the place of the player's row.
pub fn update_player_input(db: &mut Database, id: Identity, moved: PlayerData)
    requires
        old(db).wf(),
    ensures
        final(db).wf(),
        final(db).origin() == old(db).origin(),
        final(db)@ == input_updated(old(db)@, id, moved@),
{
    if db.player.contains(&id) {
        let mut row = moved;
        row.identity = id;
        db.player.update(row);
    }
}

/// A client's connection is gone.
pub fn identity_disconnected(db: &mut Database, id: Identity, at: Timestamp)
    requires
        old(db).wf(),
        old(db)@.player.contains_key(id) ==> !old(db)@.logged_out_player.contains_key(id),
    ensures
        final(db).wf(),
        final(db).origin() == old(db).origin(),
        final(db)@ == disconnected(old(db)@, id, at),
{
    match db.player.find(&id) {
        Some(player) => {
            db.logged_out_player.insert(
                LoggedOutPlayerData {
                    identity: player.identity,
                    username: player.username.clone(),
                    character_class: player.character_class.clone(),
                    color: player.color.clone(),
                    last_seen: at,
                },
            );
            db.player.delete(id);
        },
        None => {},
    }
}

} // verus!
