use statemaster::clock::{Timestamp, FIRST_SECOND, LAST_SECOND};
use statemaster::fsm::builder::MachineBuilder;
use statemaster::fsm::machine::MachineDefinition;
use statemaster::fsm::planner::FsmPlanner;
use statemaster::fsm::record::{Effect, EffectStatus, EntityState, TransitionRecord};
use statemaster::storage::engine::StorageEngine;
use statemaster::storage::error::StorageError;
use statemaster::storage::redb_engine::RedbEngine;
use statemaster::storage::rows::{
    read_effect, read_entity, read_machine, write_effect, write_entity, write_machine,
};

fn build_fulfillment() -> MachineDefinition {
    MachineBuilder::new()
        .name("fulfillment")
        .version(1)
        .states(&["pending", "paid", "shipped", "delivered"])
        .initial_state("pending")
        .transition("pay", &["pending"], "paid")
        .transition("ship", &["paid"], "shipped")
        .transition("deliver", &["shipped"], "delivered")
        .build()
        .unwrap()
}

fn empty() -> serde_json::Value {
    serde_json::Value::Object(serde_json::Map::new())
}

fn moment() -> Timestamp {
    Timestamp { secs: 1_700_000_000, nanos: 123_456_789 }
}

fn state(entity: &str, state: &str, version: u64) -> EntityState {
    EntityState {
        entity_id: entity.to_string(),
        machine: "fulfillment".to_string(),
        current_state: state.to_string(),
        version,
        updated_at: moment(),
        created_at: moment(),
    }
}

fn record(entity: &str, from: &str, to: &str, event: &str, key: Option<&str>) -> TransitionRecord {
    FsmPlanner::build_transition_record(
        entity.into(),
        "fulfillment".into(),
        from.into(),
        to.into(),
        event.into(),
        "actor".into(),
        empty(),
        key.map(|k| k.to_string()),
    )
}

#[test]
fn store_and_get_machine() {
    let mut engine = RedbEngine::in_memory().unwrap();
    let def = build_fulfillment();
    engine.store_machine(&def).unwrap();
    let got = engine.get_machine("fulfillment", None).unwrap();
    assert_eq!(got.name, "fulfillment");
}

#[test]
fn list_machines_returns_all() {
    let mut engine = RedbEngine::in_memory().unwrap();
    engine.store_machine(&build_fulfillment()).unwrap();
    let list = engine.list_machines().unwrap();
    assert_eq!(list.len(), 1);
}

#[test]
fn execute_transition_and_read_state() {
    let mut engine = RedbEngine::in_memory().unwrap();
    let def = build_fulfillment();
    engine.store_machine(&def).unwrap();

    let new_state = state("e1", "paid", 1);
    let mut record = record("e1", "pending", "paid", "pay", None);
    let seq = engine.execute_transition(&mut record, &new_state, &vec![]).unwrap();
    assert_eq!(seq, 1);
    assert_eq!(record.sequence, 1);

    let state = engine.get_entity_state("e1", "fulfillment").unwrap();
    assert_eq!(state.current_state, "paid");
    assert_eq!(state.version, 1);
}

#[test]
fn idempotency_key_prevents_duplicate() {
    let mut engine = RedbEngine::in_memory().unwrap();
    let mut first = record("e1", "pending", "paid", "pay", Some("idem-1"));
    engine.execute_transition(&mut first, &state("e1", "paid", 1), &vec![]).unwrap();

    // Second attempt with same idempotency key must fail.
    let mut second = record("e1", "pending", "paid", "pay", Some("idem-1"));
    let result = engine.execute_transition(&mut second, &state("e1", "paid", 2), &vec![]);
    assert!(matches!(result, Err(StorageError::AlreadyExists(_))));
}

#[test]
fn effect_lifecycle() {
    let mut engine = RedbEngine::in_memory().unwrap();
    let effect = Effect::new("tr1".into(), "notify_customer".into(), empty());
    let id = effect.id.clone();
    engine.insert_effects(&vec![effect]).unwrap();

    let pending = engine.get_pending_effects(10).unwrap();
    assert_eq!(pending.len(), 1);

    engine.mark_effect_published(&id).unwrap();
    let still_pending = engine.get_pending_effects(10).unwrap();
    assert!(still_pending.is_empty());
}

#[test]
fn get_history_returns_ordered_records() {
    let mut engine = RedbEngine::in_memory().unwrap();
    for (from, to, event, version) in
        [("pending", "paid", "pay", 1u64), ("paid", "shipped", "ship", 2u64)]
    {
        let mut r = record("e1", from, to, event, None);
        engine.execute_transition(&mut r, &state("e1", to, version), &vec![]).unwrap();
    }

    let history = engine.get_history("e1", "fulfillment", None, None).unwrap();
    assert_eq!(history.len(), 2);
    assert_eq!(history[0].event, "pay");
    assert_eq!(history[1].event, "ship");
}

#[test]
fn definitions_read_back_as_they_were() {
    let mut engine = RedbEngine::in_memory().unwrap();
    let def = MachineBuilder::new()
        .name("m")
        .version(3)
        .states(&["a", "b"])
        .initial_state("a")
        .transition_with_guards("go", &["a", "b"], "b", &["g1", "g2"])
        .effect("go", "mail", Some(serde_json::Value::from("x")))
        .effect("go", "bell", None)
        .build()
        .unwrap();
    engine.store_machine(&def).unwrap();
    let got = engine.get_machine("m", Some(3)).unwrap();
    assert_eq!(got.version, 3);
    assert_eq!(got.states, def.states);
    assert_eq!(got.initial_state, "a");
    assert_eq!(got.transitions[0].from_states, def.transitions[0].from_states);
    assert_eq!(got.transitions[0].guards, def.transitions[0].guards);
    assert_eq!(got.effects[0].payload, Some(serde_json::Value::from("x")));
    assert_eq!(got.effects[1].payload, None);
    assert_eq!(got.created_at, def.created_at);
}

#[test]
fn latest_version_is_found() {
    let mut engine = RedbEngine::in_memory().unwrap();
    for version in [2u32, 11, 3] {
        let def = MachineBuilder::new()
            .name("m")
            .version(version)
            .state("a")
            .initial_state("a")
            .build()
            .unwrap();
        engine.store_machine(&def).unwrap();
    }
    assert_eq!(engine.get_machine("m", None).unwrap().version, 11);
    assert_eq!(engine.get_machine("m", Some(2)).unwrap().version, 2);
    assert!(matches!(engine.get_machine("m", Some(4)), Err(StorageError::NotFound(_))));
    assert!(matches!(engine.get_machine("n", None), Err(StorageError::NotFound(_))));
    assert_eq!(engine.list_machines().unwrap().len(), 3);
}

#[test]
fn same_version_is_stored_once() {
    let mut engine = RedbEngine::in_memory().unwrap();
    engine.store_machine(&build_fulfillment()).unwrap();
    let again = engine.store_machine(&build_fulfillment());
    assert!(matches!(again, Err(StorageError::AlreadyExists(_))));
}

#[test]
fn entities_are_stored_by_version() {
    let mut engine = RedbEngine::in_memory().unwrap();
    engine.upsert_entity_state(&state("e1", "paid", 1)).unwrap();
    engine.upsert_entity_state(&state("e1", "shipped", 2)).unwrap();
    let late = engine.upsert_entity_state(&state("e1", "paid", 2));
    assert!(matches!(late, Err(StorageError::VersionConflict { .. })));
    assert_eq!(engine.get_entity_state("e1", "fulfillment").unwrap().current_state, "shipped");
    assert!(matches!(
        engine.get_entity_state("e2", "fulfillment"),
        Err(StorageError::NotFound(_))
    ));
}

#[test]
fn entities_are_listed_by_state() {
    let mut engine = RedbEngine::in_memory().unwrap();
    for (e, s) in [("b", "paid"), ("a", "paid"), ("c", "shipped")] {
        engine.upsert_entity_state(&state(e, s, 1)).unwrap();
    }
    let paid = engine.list_entities_in_state("fulfillment", "paid").unwrap();
    let names: Vec<&str> = paid.iter().map(|x| x.entity_id.as_str()).collect();
    assert_eq!(names, vec!["a", "b"]);
    assert!(engine.list_entities_in_state("fulfillment", "lost").unwrap().is_empty());
}

#[test]
fn log_is_numbered_from_one() {
    let mut engine = RedbEngine::in_memory().unwrap();
    assert_eq!(engine.current_sequence().unwrap(), 0);
    for n in 1..=3u64 {
        let mut r = record("e1", "a", "b", "go", None);
        assert_eq!(engine.append_transition(&mut r).unwrap(), n);
        assert_eq!(r.sequence, n);
        assert_eq!(engine.get_transition(&r.id).unwrap().sequence, n);
    }
    assert_eq!(engine.current_sequence().unwrap(), 3);
    let after: Vec<u64> =
        engine.get_transitions_after(1, 10).unwrap().iter().map(|r| r.sequence).collect();
    assert_eq!(after, vec![2, 3]);
    assert_eq!(engine.get_transitions_after(0, 2).unwrap().len(), 2);
    assert!(matches!(engine.get_transition("none"), Err(StorageError::NotFound(_))));
}

#[test]
fn histories_are_limited_and_cut() {
    let mut engine = RedbEngine::in_memory().unwrap();
    for e in ["e1", "e2", "e1", "e1"] {
        let mut r = record(e, "a", "b", "go", None);
        engine.append_transition(&mut r).unwrap();
    }
    let numbers = |limit: Option<u32>, after: Option<u64>| -> Vec<u64> {
        engine
            .get_history("e1", "fulfillment", limit, after)
            .unwrap()
            .iter()
            .map(|r| r.sequence)
            .collect()
    };
    assert_eq!(numbers(None, None), vec![1, 3, 4]);
    assert_eq!(numbers(Some(2), None), vec![1, 3]);
    assert_eq!(numbers(None, Some(1)), vec![3, 4]);
    assert_eq!(numbers(Some(1), Some(3)), vec![4]);
    assert_eq!(numbers(None, Some(4)), Vec::<u64>::new());
}

#[test]
fn effects_belong_to_their_transition() {
    let mut engine = RedbEngine::in_memory().unwrap();
    let a = Effect::new("t1".into(), "mail".into(), serde_json::Value::from(1));
    let b = Effect::new("t1".into(), "bell".into(), empty());
    let c = Effect::new("t2".into(), "mail".into(), empty());
    let (ia, ib) = (a.id.clone(), b.id.clone());
    engine.insert_effects(&vec![a, b, c]).unwrap();
    let of_t1 = engine.get_effects_for_transition("t1").unwrap();
    assert_eq!(of_t1.len(), 2);
    assert_eq!(of_t1[0].id, ia);
    assert_eq!(of_t1[0].payload, serde_json::Value::from(1));
    assert_eq!(of_t1[1].id, ib);
    engine.mark_effect_failed(&ib).unwrap();
    let of_t1 = engine.get_effects_for_transition("t1").unwrap();
    assert_eq!(of_t1[1].status, EffectStatus::Failed);
    assert_eq!(engine.get_pending_effects(10).unwrap().len(), 2);
    assert_eq!(engine.get_pending_effects(1).unwrap().len(), 1);
    assert!(matches!(engine.mark_effect_published("none"), Err(StorageError::NotFound(_))));
}

#[test]
fn used_keys_are_found() {
    let mut engine = RedbEngine::in_memory().unwrap();
    assert!(engine.check_idempotency("k").unwrap().is_none());
    let mut r = record("e1", "pending", "paid", "pay", Some("k"));
    engine.execute_transition(&mut r, &state("e1", "paid", 1), &vec![]).unwrap();
    let found = engine.check_idempotency("k").unwrap().unwrap();
    assert_eq!(found.id, r.id);
    assert_eq!(found.idempotency_key, Some("k".to_string()));
    assert_eq!(found.timestamp, r.timestamp);
}

#[test]
fn refused_transition_leaves_nothing_behind() {
    let mut engine = RedbEngine::in_memory().unwrap();
    let mut r = record("e1", "pending", "paid", "pay", None);
    engine.execute_transition(&mut r, &state("e1", "paid", 1), &vec![]).unwrap();
    let mut stale = record("e1", "paid", "shipped", "ship", None);
    let effect = Effect::new("x".into(), "mail".into(), empty());
    let result = engine.execute_transition(&mut stale, &state("e1", "shipped", 5), &vec![effect]);
    assert!(matches!(result, Err(StorageError::VersionConflict { .. })));
    assert_eq!(engine.current_sequence().unwrap(), 1);
    assert!(engine.get_pending_effects(10).unwrap().is_empty());
    assert_eq!(engine.get_entity_state("e1", "fulfillment").unwrap().version, 1);
}

#[test]
fn statuses_have_names() {
    for s in [EffectStatus::Pending, EffectStatus::Published, EffectStatus::Failed] {
        assert_eq!(EffectStatus::from_name(&s.name()), Some(s));
    }
    assert_eq!(EffectStatus::from_name("gone"), None);
}

#[test]
fn storage_errors_are_put_into_words() {
    assert!(StorageError::NotFound("x".to_string()).message().contains("x"));
    assert!(StorageError::AlreadyExists("y".to_string()).message().contains("y"));
}

#[test]
fn awkward_contexts_survive_storage() {
    let mut engine = RedbEngine::in_memory().unwrap();
    let text = "{\"a\":[1,-2,3.5,null,true,\"\\u00e9\"],\"b\":{\"c\":18446744073709551615}}";
    let ctx: serde_json::Value = serde_json::from_str(text).unwrap();
    let mut r = FsmPlanner::build_transition_record(
        "e".into(),
        "m".into(),
        "a".into(),
        "b".into(),
        "go".into(),
        "me".into(),
        ctx.clone(),
        None,
    );
    engine.append_transition(&mut r).unwrap();
    assert_eq!(engine.get_transition(&r.id).unwrap().ctx, ctx);
}

fn nested(depth: usize) -> serde_json::Value {
    let mut v = serde_json::Value::Null;
    for _ in 0..depth {
        v = serde_json::Value::Array(vec![v]);
    }
    v
}

#[test]
fn rows_read_back() {
    let moment = moment();
    let state = EntityState {
        entity_id: "e".to_string(),
        machine: "m".to_string(),
        current_state: "s".to_string(),
        version: u64::MAX,
        updated_at: moment,
        created_at: Timestamp { secs: -1, nanos: 0 },
    };
    let back = read_entity(&write_entity(&state).unwrap()).unwrap();
    assert_eq!(back.version, u64::MAX);
    assert_eq!(back.updated_at, moment);
    assert_eq!(back.created_at, Timestamp { secs: -1, nanos: 0 });
    for t in [
        Timestamp { secs: FIRST_SECOND, nanos: 0 },
        Timestamp { secs: LAST_SECOND, nanos: 999_999_999 },
        Timestamp { secs: 59, nanos: 1_500_000_000 },
        Timestamp { secs: -62_167_219_201, nanos: 1 },
        Timestamp { secs: 253_402_300_800, nanos: 10_000_000 },
    ] {
        let mut at = state.clone();
        at.created_at = t;
        assert_eq!(read_entity(&write_entity(&at).unwrap()).unwrap().created_at, t);
    }
    let effect = Effect::new("t".to_string(), "mail".to_string(), nested(1022));
    let back = read_effect(&write_effect(&effect).unwrap()).unwrap();
    assert_eq!(back.payload, nested(1022));
    assert_eq!((back.id, back.effect_name), (effect.id, "mail".to_string()));
}

#[test]
fn rows_that_cannot_be_written_or_read() {
    let state = EntityState {
        entity_id: "e".to_string(),
        machine: "m".to_string(),
        current_state: "s".to_string(),
        version: 1,
        updated_at: Timestamp { secs: i64::MAX, nanos: 0 },
        created_at: Timestamp { secs: 0, nanos: 0 },
    };
    assert!(matches!(write_entity(&state), Err(StorageError::Corrupted(_))));
    assert!(matches!(read_entity(&vec![0xc1]), Err(StorageError::Corrupted(_))));
    let deep = Effect::new("t".to_string(), "mail".to_string(), nested(1023));
    let bytes = write_effect(&deep).unwrap();
    assert!(matches!(read_effect(&bytes), Err(StorageError::Corrupted(_))));
}

#[test]
fn payloads_in_definitions_may_be_nested_less_deeply() {
    let with = |depth: usize| {
        let m = MachineBuilder::new()
            .name("m")
            .version(1)
            .states(&["a", "b"])
            .initial_state("a")
            .transition("go", &["a"], "b")
            .effect("go", "mail", Some(nested(depth)))
            .build()
            .unwrap();
        read_machine(&write_machine(&m).unwrap())
    };
    assert_eq!(with(1020).unwrap().effects[0].payload, Some(nested(1020)));
    assert!(matches!(with(1021), Err(StorageError::Corrupted(_))));
}

/// A database in memory that outlives the engine on it.
#[derive(Debug, Clone)]
struct Memory(std::sync::Arc<redb::backends::InMemoryBackend>);

impl redb::StorageBackend for Memory {
    fn len(&self) -> Result<u64, std::io::Error> {
        redb::StorageBackend::len(&*self.0)
    }
    fn read(&self, offset: u64, len: usize) -> Result<Vec<u8>, std::io::Error> {
        redb::StorageBackend::read(&*self.0, offset, len)
    }
    fn set_len(&self, len: u64) -> Result<(), std::io::Error> {
        redb::StorageBackend::set_len(&*self.0, len)
    }
    fn sync_data(&self, eventual: bool) -> Result<(), std::io::Error> {
        redb::StorageBackend::sync_data(&*self.0, eventual)
    }
    fn write(&self, offset: u64, data: &[u8]) -> Result<(), std::io::Error> {
        redb::StorageBackend::write(&*self.0, offset, data)
    }
}

impl Memory {
    fn new() -> Memory {
        Memory(std::sync::Arc::new(redb::backends::InMemoryBackend::new()))
    }

    fn database(&self) -> redb::Database {
        redb::Database::builder().create_with_backend(self.clone()).unwrap()
    }

    fn put_number(&self, table: &str, key: &str, value: u64) {
        let tx = self.database().begin_write().unwrap();
        {
            let definition: redb::TableDefinition<&str, u64> = redb::TableDefinition::new(table);
            tx.open_table(definition).unwrap().insert(key, value).unwrap();
        }
        tx.commit().unwrap();
    }

    fn put_blob(&self, table: &str, key: &str, value: &[u8]) {
        let tx = self.database().begin_write().unwrap();
        {
            let definition: redb::TableDefinition<&str, &[u8]> = redb::TableDefinition::new(table);
            tx.open_table(definition).unwrap().insert(key, value).unwrap();
        }
        tx.commit().unwrap();
    }

    fn put_row(&self, table: &str, key: u64, value: &[u8]) {
        let tx = self.database().begin_write().unwrap();
        {
            let definition: redb::TableDefinition<u64, &[u8]> = redb::TableDefinition::new(table);
            tx.open_table(definition).unwrap().insert(key, value).unwrap();
        }
        tx.commit().unwrap();
    }

    fn put_name(&self, table: &str, key: &str, value: &str) {
        let tx = self.database().begin_write().unwrap();
        {
            let definition: redb::TableDefinition<&str, &str> = redb::TableDefinition::new(table);
            tx.open_table(definition).unwrap().insert(key, value).unwrap();
        }
        tx.commit().unwrap();
    }

    fn refused(&self) -> bool {
        matches!(
            RedbEngine::from_database(self.database()),
            Err(StorageError::Corrupted(s)) if s.contains("in order")
        )
    }
}

/// A database that holds a bit of everything.
fn filled() -> (Memory, TransitionRecord) {
    let memory = Memory::new();
    let mut engine = RedbEngine::from_database(memory.database()).unwrap();
    engine.store_machine(&build_fulfillment()).unwrap();
    let mut r = record("o", "pending", "paid", "pay", Some("k"));
    let effects: Vec<Effect> = (0..2)
        .map(|i| Effect {
            id: format!("f{i}"),
            transition_id: r.id.clone(),
            effect_name: "e".to_string(),
            payload: empty(),
            status: EffectStatus::Pending,
            created_at: moment(),
        })
        .collect();
    engine.execute_transition(&mut r, &state("o", "paid", 1), &effects).unwrap();
    assert!(engine.is_in_order().unwrap());
    (memory, r)
}

#[test]
fn what_was_written_is_there_when_the_database_is_opened_again() {
    let (memory, r) = filled();
    let engine = RedbEngine::from_database(memory.database()).unwrap();
    assert_eq!(engine.current_sequence().unwrap(), 1);
    assert_eq!(engine.get_transition(&r.id).unwrap().to_state, "paid");
    assert_eq!(engine.get_entity_state("o", "fulfillment").unwrap().version, 1);
    assert_eq!(engine.get_machine("fulfillment", None).unwrap().version, 1);
    assert_eq!(engine.get_effects_for_transition(&r.id).unwrap().len(), 2);
    assert_eq!(engine.check_idempotency("k").unwrap().unwrap().id, r.id);
}

#[test]
fn databases_that_are_not_in_order_are_refused() {
    assert!(!Memory::new().refused());
    assert!(!filled().0.refused());
    // An index that leads nowhere, or to another transition.
    for table in ["transitions_by_id", "entity_transitions", "idempotency"] {
        let (memory, _) = filled();
        memory.put_number(table, "stray", 1);
        assert!(memory.refused());
        let (memory, _) = filled();
        memory.put_number(table, "stray", 7);
        assert!(memory.refused());
    }
    // A counter that does not fit the log, and a log with a gap.
    let (memory, _) = filled();
    memory.put_number("meta", "sequence", 2);
    assert!(memory.refused());
    let (memory, r) = filled();
    let bytes = statemaster::storage::rows::write_record(&r).unwrap();
    memory.put_row("transitions", 3, &bytes);
    assert!(memory.refused());
    // Rows under keys that are not theirs.
    let (memory, _) = filled();
    memory.put_blob("entity_states", "x", &write_entity(&state("o", "paid", 1)).unwrap());
    assert!(memory.refused());
    let (memory, _) = filled();
    let def = statemaster::storage::rows::write_machine(&build_fulfillment()).unwrap();
    memory.put_blob("machines", "fulfillment", &def);
    assert!(memory.refused());
    // An emitted effect that is not there, and a gap among the emitted effects.
    let (memory, r) = filled();
    memory.put_name("effects_by_txn", &format!("{}\0{:020}", r.id, 2), "missing");
    assert!(memory.refused());
    let (memory, r) = filled();
    memory.put_name("effects_by_txn", &format!("{}\0{:020}", r.id, 5), "f0");
    assert!(memory.refused());
    let (memory, r) = filled();
    memory.put_name("effects_by_txn", &format!("{}\0{:020}", r.id, 2), "f0");
    assert!(!memory.refused());
    // A row that cannot be decoded.
    let (memory, _) = filled();
    memory.put_blob("effects", "f9", &[0xc1]);
    assert!(matches!(
        RedbEngine::from_database(memory.database()),
        Err(StorageError::Corrupted(_))
    ));
}
