use lost_expedition::common::{
    CLAIM_TIMEOUT_TICKS, DIALOGUE_CAP, INTERACTION_PRUNE_BATCH, INTERACTION_PRUNE_CAP, MIN_GAP,
    TRANSCRIPT_CAP,
};
use lost_expedition::identity::is_identity;
use lost_expedition::table::{Change, Table};
use lost_expedition::text::{cap_chars, reads};
use lost_expedition::{NpcUtterance, WorldState};
use spacetimedb::Identity;

fn utterance(id: u64, text: &str) -> NpcUtterance {
    NpcUtterance { interaction_id: id, transcript: text.to_string() }
}

#[test]
fn tuning_constants() {
    assert_eq!(CLAIM_TIMEOUT_TICKS, 60);
    assert_eq!(MIN_GAP, 2);
    assert_eq!(TRANSCRIPT_CAP, 400);
    assert_eq!(DIALOGUE_CAP, 300);
    assert_eq!(INTERACTION_PRUNE_CAP, 60);
    assert_eq!(INTERACTION_PRUNE_BATCH, 20);
}

#[test]
fn capping_counts_characters_not_bytes() {
    assert_eq!(cap_chars("abc".to_string(), 5), "abc");
    assert_eq!(cap_chars("abc".to_string(), 3), "abc");
    assert_eq!(cap_chars("abcdef".to_string(), 3), "abc");
    assert_eq!(cap_chars("äöüß".to_string(), 2), "äö");
    assert_eq!(cap_chars("abc".to_string(), 0), "");
}

#[test]
fn reading_words() {
    assert!(reads(&"pending".to_string(), "pending"));
    assert!(!reads(&"pending".to_string(), "Pending"));
    assert!(!reads(&"".to_string(), "pending"));
}

#[test]
fn identities_are_told_apart_by_every_byte() {
    let mut low = [0u8; 32];
    low[0] = 7;
    let mut high = [0u8; 32];
    high[31] = 7;
    let a = Identity::from_byte_array(low);
    let b = Identity::from_byte_array(high);
    assert!(is_identity(&Some(a), &a));
    assert!(is_identity(&Some(a), &Identity::from_byte_array(low)));
    assert!(!is_identity(&Some(a), &b));
    assert!(!is_identity(&None, &a));
}

#[test]
fn a_table_refuses_shared_keys() {
    assert!(Table::load(vec![utterance(1, "a"), utterance(1, "b")]).is_none());
    assert!(Table::load(vec![utterance(1, "a"), utterance(2, "a"), utterance(1, "a")]).is_none());
    let table = Table::load(vec![utterance(1, "a"), utterance(2, "a")]).unwrap();
    assert_eq!(table.count(), 2);
    assert!(table.into_changes().is_empty());
}

#[test]
fn a_table_finds_updates_and_deletes_by_key() {
    let mut table = Table::load(vec![utterance(1, "a"), utterance(2, "b")]).unwrap();
    table.insert(utterance(3, "c"));
    table.update(utterance(2, "bb"));
    assert!(table.delete(1));
    assert!(!table.delete(9));
    assert_eq!(table.count(), 2);
    assert!(!table.contains(&1));
    assert_eq!(table.find(&1), None);
    assert_eq!(table.find(&2), Some(utterance(2, "bb")));
    assert_eq!(table.find(&3), Some(utterance(3, "c")));
    assert_eq!(table.rows().len(), 2);
}

#[test]
fn changes_replay_to_the_contents() {
    let mut table = Table::load(vec![utterance(1, "a"), utterance(2, "b")]).unwrap();
    table.insert(utterance(3, "c"));
    table.update(utterance(3, "cc"));
    table.delete(1);
    table.delete(9);
    let mut kept: Vec<(u64, String)> =
        table.rows().iter().map(|r| (r.interaction_id, r.transcript.clone())).collect();
    kept.sort();
    let mut host = vec![(1, "a".to_string()), (2, "b".to_string())];
    for change in table.into_changes() {
        match change {
            Change::Insert(r) => {
                assert!(!host.iter().any(|(k, _)| *k == r.interaction_id));
                host.push((r.interaction_id, r.transcript));
            }
            Change::Update(r) => {
                let at = host.iter().position(|(k, _)| *k == r.interaction_id).unwrap();
                host[at].1 = r.transcript;
            }
            Change::Delete(k) => host.retain(|(key, _)| *key != k),
        }
    }
    host.sort();
    assert_eq!(host, kept);
    assert_eq!(host, vec![(2, "b".to_string()), (3, "cc".to_string())]);
}

#[test]
fn a_clone_equals_its_row() {
    let row = WorldState {
        id: 0,
        now_tick: 5,
        time_of_day: "dawn".to_string(),
        weather_conditions: "rain".to_string(),
    };
    assert_eq!(row.clone(), row);
}
