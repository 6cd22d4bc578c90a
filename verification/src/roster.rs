//! The forest roster, and what starts the world.

use crate::common::Vector3;
use crate::database::{Database, World};
use crate::players::ONE_BITS;
use crate::schema::{
    GameTickSchedule, GameTickScheduleView, Npc, NpcCognition, NpcCognitionView, NpcView,
    ScheduleAt, WorldState,
};
use crate::tick::dusk;
use vstd::prelude::*;

verus! {

/// Mara's persona.
pub const MARA: &'static str = "You are Mara, the lost expedition's medic. Traumatized by what happened to the team. You distrust armed strangers and recoil from a light in your face. You know where the billionaire's camp was, but you fear the cultists and won't reveal it until you trust the player. You are exhausted, grieving, and guarded.";

/// Eli's persona.
pub const ELI: &'static str = "You are Eli, the expedition's guide. Paranoid, your sanity is fraying after days alone in the forest. You will FOLLOW a player who earns your trust, but you PANIC at a flashlight in your face. You jump at shadows and second-guess every choice.";

/// Brother Vael's persona.
pub const VAEL: &'static str = "You are Brother Vael, a zealot of the forest cult. You hide the cult's role in the expedition's disappearance. You THREATEN when trust is low and speak in veiled, ominous scripture. Your allegiance shifts only under very high trust — and even then you guard the cult's deepest secret.";

/// How far apart ticks are, in microseconds.
pub const TICK_MICROS: i64 = 1_000_000;

/// An NPC that has not met anyone yet.
pub open spec fn stranger(id: u64, name: Seq<char>, archetype: Seq<char>, at: Vector3) -> NpcView {
    NpcView {
        npc_id: id,
        display_name: name,
        archetype,
        position: at,
        dialogue: Seq::empty(),
        animation_trigger: "Idle"@,
        game_action: "STAY_PUT"@,
        target_player: None,
        trust: 50,
        sanity: 70,
        seq: 0,
        last_spoke_tick: 0,
        busy_until_tick: 0,
        busy_interaction_id: 0,
    }
}

/// A mind with a persona and no memory.
pub open spec fn blank_mind(id: u64, persona: Seq<char>) -> NpcCognitionView {
    NpcCognitionView {
        npc_id: id,
        persona,
        memory: Seq::empty(),
        last_raw_output: Seq::empty(),
    }
}

/// The world with one more NPC and the mind that goes with it.
pub open spec fn with_stranger(
    w: World,
    id: u64,
    name: Seq<char>,
    archetype: Seq<char>,
    at: Vector3,
    persona: Seq<char>,
) -> World {
    World {
        npc: w.npc.insert(id, stranger(id, name, archetype, at)),
        npc_cognition: w.npc_cognition.insert(id, blank_mind(id, persona)),
        ..w
    }
}

/// The world after the roster was seeded under the given ids. A world that has
/// an NPC keeps the roster it has.
pub open spec fn seeded(w: World, ids: [u64; 3]) -> World {
    if w.npc.dom().len() > 0 {
        w
    } else {
        let with_mara = with_stranger(
            w,
            ids@[0],
            "Mara"@,
            "survivor"@,
            Vector3 { x: 0x4190_0000, y: ONE_BITS, z: 0xc140_0000 },
            MARA@,
        );
        let with_eli = with_stranger(
            with_mara,
            ids@[1],
            "Eli"@,
            "survivor"@,
            Vector3 { x: 0xc1b0_0000, y: ONE_BITS, z: 0x4100_0000 },
            ELI@,
        );
        with_stranger(
            with_eli,
            ids@[2],
            "Brother Vael"@,
            "cultist"@,
            Vector3 { x: 0x40a0_0000, y: ONE_BITS, z: 0x4208_0000 },
            VAEL@,
        )
    }
}

/// Whether the roster can be seeded under the given ids: they are distinct, and
/// no mind is stored under them.
pub open spec fn ids_free(w: World, ids: [u64; 3]) -> bool {
    &&& ids@[0] != ids@[1]
    &&& ids@[0] != ids@[2]
    &&& ids@[1] != ids@[2]
    &&& forall|i: int| 0 <= i < 3 ==> !w.npc_cognition.contains_key(#[trigger] ids@[i])
}

/// The world with a world state: the one it has, or dusk at tick 0.
pub open spec fn with_clock(w: World) -> World {
    if w.world_state.contains_key(0) {
        w
    } else {
        World { world_state: w.world_state.insert(0, dusk(0)), ..w }
    }
}

/// The world with a schedule: the one it has, or a tick every second.
pub open spec fn with_schedule(w: World, id: u64) -> World {
    if w.game_tick_schedule.dom().len() > 0 {
        w
    } else {
        World {
            game_tick_schedule: w.game_tick_schedule.insert(
                id,
                GameTickScheduleView {
                    scheduled_id: id,
                    scheduled_at: ScheduleAt::Interval(TICK_MICROS),
                },
            ),
            ..w
        }
    }
}

/// The world after the module came up: it has a clock, a schedule and a roster.
pub open spec fn initialized(w: World, schedule_id: u64, npc_ids: [u64; 3]) -> World {
    seeded(with_schedule(with_clock(w), schedule_id), npc_ids)
}

/// Adds an NPC and the mind that goes with it.
fn add_stranger(
    db: &mut Database,
    id: u64,
    name: &str,
    archetype: &str,
    at: Vector3,
    persona: &str,
)
    requires
        old(db).wf(),
        !old(db)@.npc.contains_key(id),
        !old(db)@.npc_cognition.contains_key(id),
    ensures
        final(db).wf(),
        final(db).origin() == old(db).origin(),
        final(db)@ == with_stranger(old(db)@, id, name@, archetype@, at, persona@),
{
    db.npc.insert(
        Npc {
            npc_id: id,
            display_name: name.to_string(),
            archetype: archetype.to_string(),
            position: at,
            dialogue: String::new(),
            animation_trigger: "Idle".to_string(),
            game_action: "STAY_PUT".to_string(),
            target_player: None,
            trust: 50,
            sanity: 70,
            seq: 0,
            last_spoke_tick: 0,
            busy_until_tick: 0,
            busy_interaction_id: 0,
        },
    );
    db.npc_cognition.insert(
        NpcCognition {
            npc_id: id,
            persona: persona.to_string(),
            memory: String::new(),
            last_raw_output: String::new(),
        },
    );
}

/// Seeds the roster under the ids that the store assigned, unless there is an
/// NPC already.
pub fn seed_npcs(db: &mut Database, ids: [u64; 3])
    requires
        old(db).wf(),
        old(db)@.npc.dom().len() == 0 ==> ids_free(old(db)@, ids),
    ensures
        final(db).wf(),
        final(db).origin() == old(db).origin(),
        final(db)@ == seeded(old(db)@, ids),
{
    if db.npc.count() > 0 {
        return;
    }
    assert(db@.npc.dom() =~= Set::empty()) by {
        db@.npc.dom().lemma_len0_is_empty();
    }
    assert(!db@.npc_cognition.contains_key(ids@[0]));
    assert(!db@.npc_cognition.contains_key(ids@[1]));
    assert(!db@.npc_cognition.contains_key(ids@[2]));
    add_stranger(
        db,
        ids[0],
        "Mara",
        "survivor",
        Vector3 { x: 0x4190_0000, y: ONE_BITS, z: 0xc140_0000 },
        MARA,
    );
    add_stranger(
        db,
        ids[1],
        "Eli",
        "survivor",
        Vector3 { x: 0xc1b0_0000, y: ONE_BITS, z: 0x4100_0000 },
        ELI,
    );
    add_stranger(
        db,
        ids[2],
        "Brother Vael",
        "cultist",
        Vector3 { x: 0x40a0_0000, y: ONE_BITS, z: 0x4208_0000 },
        VAEL,
    );
}

/// The module comes up: a clock, a schedule and a roster, each unless it is
/// there already.
pub fn init(db: &mut Database, schedule_id: u64, npc_ids: [u64; 3]) -> (res: Result<(), String>)
    requires
        old(db).wf(),
        old(db)@.npc.dom().len() == 0 ==> ids_free(old(db)@, npc_ids),
    ensures
        final(db).wf(),
        final(db).origin() == old(db).origin(),
        res is Ok,
        final(db)@ == initialized(old(db)@, schedule_id, npc_ids),
{
    if !db.world_state.contains(&0) {
        db.world_state.insert(
            WorldState {
                id: 0,
                now_tick: 0,
                time_of_day: "dusk".to_string(),
                weather_conditions: "fog".to_string(),
            },
        );
    }
    if db.game_tick_schedule.count() == 0 {
        assert(db@.game_tick_schedule.dom() =~= Set::empty()) by {
            db@.game_tick_schedule.dom().lemma_len0_is_empty();
        }
        db.game_tick_schedule.insert(
            GameTickSchedule {
                scheduled_id: schedule_id,
                scheduled_at: ScheduleAt::Interval(TICK_MICROS),
            },
        );
    }
    seed_npcs(db, npc_ids);
    Ok(())
}

} // verus!
