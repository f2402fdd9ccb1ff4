use statemaster::clock::Timestamp;
use statemaster::engine::config::{EngineConfig, FsyncMode};
use statemaster::engine::engine::{replay_of, Engine};
use statemaster::engine::error::EngineError;
use statemaster::engine::guard::GuardRegistry;
use statemaster::fsm::builder::MachineBuilder;
use statemaster::fsm::error::CoreError;
use statemaster::fsm::machine::MachineDefinition;
use statemaster::fsm::record::{ChangeRecord, EntityState};
use statemaster::storage::engine::StorageEngine;
use statemaster::storage::error::StorageError;
use statemaster::storage::redb_engine::RedbEngine;

type Guard = Box<dyn Fn(&EntityState, &serde_json::Value) -> bool>;
type TestEngine = Engine<RedbEngine, Guard>;

fn test_engine() -> TestEngine {
    Engine::new(RedbEngine::in_memory().unwrap())
}

fn empty() -> serde_json::Value {
    serde_json::Value::Object(serde_json::Map::new())
}

fn order_machine() -> MachineDefinition {
    MachineBuilder::new()
        .name("fulfillment")
        .version(1)
        .states(&["pending", "paid", "packed", "shipped", "delivered", "canceled"])
        .initial_state("pending")
        .transition("pay", &["pending"], "paid")
        .transition("pack", &["paid"], "packed")
        .transition_with_guards("ship", &["packed"], "shipped", &["payment_captured"])
        .transition("deliver", &["shipped"], "delivered")
        .transition("cancel", &["pending", "paid", "packed"], "canceled")
        .effect("ship", "notify_customer", None)
        .build()
        .unwrap()
}

fn payment_machine() -> MachineDefinition {
    MachineBuilder::new()
        .name("payment")
        .version(1)
        .states(&["unpaid", "captured"])
        .initial_state("unpaid")
        .transition("capture", &["unpaid"], "captured")
        .build()
        .unwrap()
}

fn fire(engine: &mut TestEngine, entity: &str, event: &str) {
    engine.transition(entity, "fulfillment", event, "u", empty(), None, None).unwrap();
}

fn received(
    rx: &mut tokio::sync::mpsc::UnboundedReceiver<ChangeRecord>,
) -> Vec<ChangeRecord> {
    let mut recs = Vec::new();
    while let Ok(r) = rx.try_recv() {
        recs.push(r);
    }
    recs
}

#[test]
fn define_and_retrieve_machine() {
    let mut engine = test_engine();
    let machine = order_machine();
    engine.define_machine(machine.clone()).unwrap();
    let retrieved = engine.get_machine("fulfillment").unwrap();
    assert_eq!(retrieved.name, "fulfillment");
    assert_eq!(retrieved.states.len(), 6);
}

#[test]
fn basic_transition() {
    let mut engine = test_engine();
    engine.define_machine(order_machine()).unwrap();

    let result = engine
        .transition("order_1", "fulfillment", "pay", "user:alice", empty(), None, None)
        .unwrap();

    assert_eq!(result.from_state, "pending");
    assert_eq!(result.to_state, "paid");
    assert_eq!(result.version, 1);

    let state = engine.current("order_1", "fulfillment").unwrap();
    assert_eq!(state.current_state, "paid");
    assert_eq!(state.version, 1);
}

#[test]
fn illegal_transition_rejected() {
    let mut engine = test_engine();
    engine.define_machine(order_machine()).unwrap();

    let result =
        engine.transition("order_1", "fulfillment", "deliver", "user:alice", empty(), None, None);
    assert!(result.is_err());
}

#[test]
fn version_conflict() {
    let mut engine = test_engine();
    engine.define_machine(order_machine()).unwrap();
    engine
        .transition("order_1", "fulfillment", "pay", "user:alice", empty(), None, None)
        .unwrap();

    let result =
        engine.transition("order_1", "fulfillment", "pack", "user:bob", empty(), Some(0), None);
    assert!(result.is_err());
}

#[test]
fn guard_blocks_transition() {
    let mut engine = test_engine();
    engine.define_machine(order_machine()).unwrap();
    engine.register_guard("payment_captured", Box::new(|_, _| false));

    engine.transition("order_1", "fulfillment", "pay", "u", empty(), None, None).unwrap();
    engine.transition("order_1", "fulfillment", "pack", "u", empty(), None, None).unwrap();

    let result = engine.transition("order_1", "fulfillment", "ship", "u", empty(), None, None);
    assert!(result.is_err());
}

#[test]
fn history_tracks_transitions() {
    let mut engine = test_engine();
    engine.define_machine(order_machine()).unwrap();
    engine.transition("order_1", "fulfillment", "pay", "u", empty(), None, None).unwrap();
    engine.transition("order_1", "fulfillment", "pack", "u", empty(), None, None).unwrap();

    let history = engine.history("order_1", "fulfillment", None, None).unwrap();
    assert_eq!(history.len(), 2);
    assert_eq!(history[0].from_state, "pending");
    assert_eq!(history[1].from_state, "paid");
}

#[test]
fn created_at_is_preserved_across_transitions() {
    let mut engine = test_engine();
    engine.define_machine(order_machine()).unwrap();

    engine.transition("order_1", "fulfillment", "pay", "u", empty(), None, None).unwrap();
    let after_first = engine.current("order_1", "fulfillment").unwrap();

    engine.transition("order_1", "fulfillment", "pack", "u", empty(), None, None).unwrap();
    let after_second = engine.current("order_1", "fulfillment").unwrap();

    // created_at must carry forward unchanged; updated_at advances.
    assert_eq!(after_first.created_at, after_second.created_at);
    assert!(after_second.updated_at >= after_first.updated_at);
    assert_eq!(after_second.version, 2);
}

#[test]
fn idempotent_replay_returns_real_version() {
    let mut engine = test_engine();
    engine.define_machine(order_machine()).unwrap();

    let first = engine
        .transition(
            "order_1",
            "fulfillment",
            "pay",
            "u",
            empty(),
            None,
            Some("idem-1".to_string()),
        )
        .unwrap();
    let replay = engine
        .transition(
            "order_1",
            "fulfillment",
            "pay",
            "u",
            empty(),
            None,
            Some("idem-1".to_string()),
        )
        .unwrap();

    assert_eq!(replay.sequence, first.sequence);
    assert_eq!(replay.transition_id, first.transition_id);
    assert_eq!(replay.version, 1);
}

#[test]
fn dispatch_delivers_ordered_change_records_with_effects() {
    let mut engine = test_engine();
    engine.define_machine(order_machine()).unwrap();
    engine.register_guard("payment_captured", Box::new(|_, _| true));

    let mut rx =
        engine.subscribe("sub1".to_string(), Some("fulfillment".to_string()), 0).unwrap();

    engine.transition("o1", "fulfillment", "pay", "u", empty(), None, None).unwrap();
    engine.transition("o1", "fulfillment", "pack", "u", empty(), None, None).unwrap();
    engine.transition("o1", "fulfillment", "ship", "u", empty(), None, None).unwrap();

    assert_eq!(engine.dispatch_pass(), 3);
    // A second pass with no new commits delivers nothing (cursor persists).
    assert_eq!(engine.dispatch_pass(), 0);

    let mut recs = Vec::new();
    while let Ok(r) = rx.try_recv() {
        recs.push(r);
    }
    assert_eq!(recs.len(), 3);
    assert_eq!(recs.iter().map(|r| r.sequence).collect::<Vec<_>>(), vec![1, 2, 3]);
    // The "ship" record carries its reconstructed effect and post-version.
    assert_eq!(recs[2].event, "ship");
    assert_eq!(recs[2].version, 3);
    assert_eq!(recs[2].effects.len(), 1);
    assert_eq!(recs[2].effects[0].effect_name, "notify_customer");
}

#[test]
fn a_run_of_calls_delivers_everything_once() {
    let mut engine = test_engine();
    engine.define_machine(order_machine()).unwrap();
    engine.define_machine(payment_machine()).unwrap();
    engine.register_guard("payment_captured", Box::new(|_, _| true));
    fire(&mut engine, "early", "pay");
    let mut rx =
        engine.subscribe("s".to_string(), Some("fulfillment".to_string()), 1).unwrap();
    assert_eq!(engine.dispatch_pass(), 0);
    fire(&mut engine, "o1", "pay");
    assert!(engine.transition("o1", "fulfillment", "pay", "u", empty(), None, None).is_err());
    assert_eq!(engine.dispatch_pass(), 1);
    engine.transition("o1", "payment", "capture", "u", empty(), None, None).unwrap();
    fire(&mut engine, "o2", "pay");
    fire(&mut engine, "o1", "pack");
    let mut newer = order_machine();
    newer.version = 2;
    engine.define_machine(newer).unwrap();
    assert_eq!(engine.dispatch_pass(), 2);
    fire(&mut engine, "o1", "ship");
    assert_eq!(engine.publish_pending().unwrap(), 1);
    assert_eq!(engine.dispatch_pass(), 1);
    assert_eq!(engine.dispatch_pass(), 0);
    let recs = received(&mut rx);
    let told: Vec<(u64, &str, &str)> =
        recs.iter().map(|r| (r.sequence, r.entity_id.as_str(), r.event.as_str())).collect();
    assert_eq!(
        told,
        vec![(2, "o1", "pay"), (4, "o2", "pay"), (5, "o1", "pack"), (6, "o1", "ship")]
    );
    assert_eq!(recs[3].effects[0].effect_name, "notify_customer");
    assert_eq!((recs[3].from_state.as_str(), recs[3].to_state.as_str()), ("packed", "shipped"));
}

#[test]
fn dispatch_respects_machine_filter() {
    let mut engine = test_engine();
    engine.define_machine(order_machine()).unwrap();
    let payment = MachineBuilder::new()
        .name("payment")
        .version(1)
        .states(&["unpaid", "captured"])
        .initial_state("unpaid")
        .transition("capture", &["unpaid"], "captured")
        .build()
        .unwrap();
    engine.define_machine(payment).unwrap();

    let mut rx = engine.subscribe("sub1".to_string(), Some("payment".to_string()), 0).unwrap();

    engine.transition("o1", "fulfillment", "pay", "u", empty(), None, None).unwrap();
    engine.transition("o1", "payment", "capture", "u", empty(), None, None).unwrap();

    engine.dispatch_pass();
    let mut recs = Vec::new();
    while let Ok(r) = rx.try_recv() {
        recs.push(r);
    }
    // Only the payment-machine record is delivered; the fulfillment one is
    // skipped but its sequence is still consumed (no infinite re-scan).
    assert_eq!(recs.len(), 1);
    assert_eq!(recs[0].machine, "payment");
}

#[test]
fn multiple_machines_on_one_entity() {
    let mut engine = test_engine();
    engine.define_machine(order_machine()).unwrap();

    let payment = MachineBuilder::new()
        .name("payment")
        .version(1)
        .states(&["unpaid", "captured", "refunded"])
        .initial_state("unpaid")
        .transition("capture", &["unpaid"], "captured")
        .transition("refund", &["captured"], "refunded")
        .build()
        .unwrap();
    engine.define_machine(payment).unwrap();

    engine.transition("order_1", "fulfillment", "pay", "u", empty(), None, None).unwrap();
    engine.transition("order_1", "payment", "capture", "u", empty(), None, None).unwrap();

    let f = engine.current("order_1", "fulfillment").unwrap();
    let p = engine.current("order_1", "payment").unwrap();
    assert_eq!(f.current_state, "paid");
    assert_eq!(p.current_state, "captured");
}

// ---------------------------------------------------------------------------
// Guards
// ---------------------------------------------------------------------------

fn make_state() -> EntityState {
    EntityState {
        entity_id: "e1".into(),
        machine: "m1".into(),
        current_state: "pending".into(),
        version: 0,
        updated_at: Timestamp { secs: 1_700_000_000, nanos: 0 },
        created_at: Timestamp { secs: 1_700_000_000, nanos: 0 },
    }
}

fn amount(n: u64) -> serde_json::Value {
    let mut m = serde_json::Map::new();
    m.insert("amount".to_string(), serde_json::Value::from(n));
    serde_json::Value::Object(m)
}

#[test]
fn missing_guard_defaults_to_true() {
    let registry: GuardRegistry<Guard> = GuardRegistry::new();
    let state = make_state();
    assert!(registry.evaluate("nonexistent", &state, &empty()));
}

#[test]
fn registered_guard_returning_true_passes() {
    let mut registry: GuardRegistry<Guard> = GuardRegistry::new();
    registry.register("always_pass", Box::new(|_, _| true));
    let state = make_state();
    assert!(registry.evaluate("always_pass", &state, &empty()));
}

#[test]
fn registered_guard_returning_false_fails() {
    let mut registry: GuardRegistry<Guard> = GuardRegistry::new();
    registry.register("always_fail", Box::new(|_, _| false));
    let state = make_state();
    assert!(!registry.evaluate("always_fail", &state, &empty()));
}

#[test]
fn guard_can_inspect_context() {
    let mut registry: GuardRegistry<Guard> = GuardRegistry::new();
    registry
        .register("check_amount", Box::new(|_, ctx| ctx["amount"].as_u64().unwrap_or(0) > 0));
    let state = make_state();
    assert!(registry.evaluate("check_amount", &state, &amount(50)));
    assert!(!registry.evaluate("check_amount", &state, &amount(0)));
}

#[test]
fn later_guard_takes_the_place_of_an_earlier_one() {
    let mut registry: GuardRegistry<Guard> = GuardRegistry::new();
    registry.register("g", Box::new(|_, _| false));
    registry.register("g", Box::new(|_, _| true));
    assert!(registry.evaluate("g", &make_state(), &empty()));
}

#[test]
fn guards_see_the_state_before_the_transition() {
    let mut engine = test_engine();
    engine.define_machine(order_machine()).unwrap();
    engine.register_guard(
        "payment_captured",
        Box::new(|s, _| s.current_state == "packed" && s.version == 2 && s.entity_id == "o1"),
    );
    fire(&mut engine, "o1", "pay");
    fire(&mut engine, "o1", "pack");
    fire(&mut engine, "o1", "ship");
    assert_eq!(engine.current("o1", "fulfillment").unwrap().current_state, "shipped");
}

// ---------------------------------------------------------------------------
// Refusals
// ---------------------------------------------------------------------------

#[test]
fn refusals_name_their_reason_and_change_nothing() {
    let mut engine = test_engine();
    engine.define_machine(order_machine()).unwrap();
    engine.register_guard("payment_captured", Box::new(|_, _| false));
    fire(&mut engine, "o1", "pay");
    fire(&mut engine, "o1", "pack");

    match engine.transition("o1", "fulfillment", "ship", "u", empty(), None, None) {
        Err(EngineError::Core(CoreError::GuardFailed { guard_name, .. })) => {
            assert_eq!(guard_name, "payment_captured")
        }
        other => panic!("unexpected: {:?}", other),
    }
    match engine.transition("o1", "fulfillment", "pay", "u", empty(), None, None) {
        Err(EngineError::Core(CoreError::IllegalTransition { current_state, event, .. })) => {
            assert_eq!(current_state, "packed");
            assert_eq!(event, "pay");
        }
        other => panic!("unexpected: {:?}", other),
    }
    match engine.transition("o1", "fulfillment", "cancel", "u", empty(), Some(9), None) {
        Err(EngineError::Core(CoreError::VersionConflict { expected, actual, .. })) => {
            assert_eq!(expected, 9);
            assert_eq!(actual, 2);
        }
        other => panic!("unexpected: {:?}", other),
    }
    assert!(matches!(
        engine.transition("o1", "nowhere", "go", "u", empty(), None, None),
        Err(EngineError::Storage(StorageError::NotFound(_)))
    ));
    let state = engine.current("o1", "fulfillment").unwrap();
    assert_eq!(state.current_state, "packed");
    assert_eq!(state.version, 2);
    assert_eq!(engine.storage().current_sequence().unwrap(), 2);
}

#[test]
fn key_used_for_something_else_is_refused() {
    let mut engine = test_engine();
    engine.define_machine(order_machine()).unwrap();
    let key = || Some("k".to_string());
    engine.transition("o1", "fulfillment", "pay", "u", empty(), None, key()).unwrap();
    assert!(matches!(
        engine.transition("o2", "fulfillment", "pay", "u", empty(), None, key()),
        Err(EngineError::Storage(StorageError::AlreadyExists(_)))
    ));
    assert!(matches!(
        engine.transition("o1", "fulfillment", "pack", "u", empty(), None, key()),
        Err(EngineError::Storage(StorageError::AlreadyExists(_)))
    ));
    assert_eq!(engine.storage().current_sequence().unwrap(), 1);
}

#[test]
fn stopped_engine_refuses_transitions() {
    let mut engine = test_engine();
    engine.define_machine(order_machine()).unwrap();
    assert!(!engine.is_shutting_down());
    engine.shutdown();
    assert!(engine.is_shutting_down());
    assert!(matches!(
        engine.transition("o1", "fulfillment", "pay", "u", empty(), None, None),
        Err(EngineError::ShuttingDown)
    ));
}

#[test]
fn matching_version_lets_a_transition_pass() {
    let mut engine = test_engine();
    engine.define_machine(order_machine()).unwrap();
    engine.transition("o1", "fulfillment", "pay", "u", empty(), Some(0), None).unwrap();
    let r = engine.transition("o1", "fulfillment", "pack", "u", empty(), Some(1), None).unwrap();
    assert_eq!(r.version, 2);
    assert_eq!(r.sequence, 2);
}

// ---------------------------------------------------------------------------
// Definitions
// ---------------------------------------------------------------------------

#[test]
fn same_definition_may_be_defined_again() {
    let mut engine = test_engine();
    engine.define_machine(order_machine()).unwrap();
    engine.define_machine(order_machine()).unwrap();
    assert_eq!(engine.list_machines().unwrap().len(), 1);
}

#[test]
fn different_definition_needs_a_new_version() {
    let mut engine = test_engine();
    engine.define_machine(payment_machine()).unwrap();
    let mut changed = payment_machine();
    changed.states.push("lost".to_string());
    assert!(matches!(
        engine.define_machine(changed.clone()),
        Err(EngineError::Storage(StorageError::AlreadyExists(_)))
    ));
    changed.version = 2;
    engine.define_machine(changed).unwrap();
    assert_eq!(engine.get_machine("payment").unwrap().version, 2);
}

#[test]
fn invalid_definition_is_not_stored() {
    let mut engine = test_engine();
    let mut broken = payment_machine();
    broken.initial_state = "nowhere".to_string();
    assert!(matches!(engine.define_machine(broken), Err(EngineError::Core(_))));
    assert!(engine.list_machines().unwrap().is_empty());
    assert!(matches!(
        engine.get_machine("payment"),
        Err(EngineError::Storage(StorageError::NotFound(_)))
    ));
}

// ---------------------------------------------------------------------------
// Delivery
// ---------------------------------------------------------------------------

#[test]
fn subscribers_resume_behind_their_cursor() {
    let mut engine = test_engine();
    engine.define_machine(order_machine()).unwrap();
    fire(&mut engine, "o1", "pay");
    fire(&mut engine, "o2", "pay");
    fire(&mut engine, "o1", "pack");
    let mut rx = engine.subscribe("late".to_string(), None, 1).unwrap();
    assert_eq!(engine.dispatch_pass(), 2);
    let numbers: Vec<u64> = received(&mut rx).iter().map(|r| r.sequence).collect();
    assert_eq!(numbers, vec![2, 3]);
}

#[test]
fn entity_filter_selects_one_entity() {
    let mut engine = test_engine();
    engine.define_machine(order_machine()).unwrap();
    let mut rx = engine.enroll("s".to_string(), None, Some("o2".to_string()), 0);
    fire(&mut engine, "o1", "pay");
    fire(&mut engine, "o2", "pay");
    engine.dispatch_pass();
    let recs = received(&mut rx);
    assert_eq!(recs.len(), 1);
    assert_eq!(recs[0].entity_id, "o2");
}

#[test]
fn acknowledged_records_are_not_delivered() {
    let mut engine = test_engine();
    engine.define_machine(order_machine()).unwrap();
    let mut rx = engine.subscribe("s".to_string(), None, 0).unwrap();
    fire(&mut engine, "o1", "pay");
    fire(&mut engine, "o1", "pack");
    engine.acknowledge("s", 1);
    engine.acknowledge("other", 2);
    engine.dispatch_pass();
    let numbers: Vec<u64> = received(&mut rx).iter().map(|r| r.sequence).collect();
    assert_eq!(numbers, vec![2]);
}

#[test]
fn unsubscribed_get_nothing() {
    let mut engine = test_engine();
    engine.define_machine(order_machine()).unwrap();
    let mut rx = engine.subscribe("s".to_string(), None, 0).unwrap();
    engine.unsubscribe("s");
    fire(&mut engine, "o1", "pay");
    assert_eq!(engine.dispatch_pass(), 0);
    assert!(received(&mut rx).is_empty());
}

#[test]
fn gone_subscribers_are_dropped() {
    let mut engine = test_engine();
    engine.define_machine(order_machine()).unwrap();
    let rx = engine.subscribe("s".to_string(), None, 0).unwrap();
    drop(rx);
    fire(&mut engine, "o1", "pay");
    assert_eq!(engine.dispatch_pass(), 0);
    assert_eq!(engine.dispatch_pass(), 0);
}

#[test]
fn oldest_subscriber_gives_way() {
    let mut engine: TestEngine = Engine::with_limit(RedbEngine::in_memory().unwrap(), 1);
    engine.define_machine(order_machine()).unwrap();
    let mut first = engine.subscribe("a".to_string(), None, 0).unwrap();
    let mut second = engine.subscribe("b".to_string(), None, 0).unwrap();
    fire(&mut engine, "o1", "pay");
    assert_eq!(engine.dispatch_pass(), 1);
    assert!(received(&mut first).is_empty());
    assert_eq!(received(&mut second).len(), 1);
}

#[test]
fn dispatch_publishes_effects() {
    let mut engine = test_engine();
    engine.define_machine(order_machine()).unwrap();
    fire(&mut engine, "o1", "pay");
    fire(&mut engine, "o1", "pack");
    fire(&mut engine, "o1", "ship");
    assert_eq!(engine.storage().get_pending_effects(10).unwrap().len(), 1);
    engine.dispatch();
    assert!(engine.storage().get_pending_effects(10).unwrap().is_empty());
}

#[test]
fn standing_is_initial_before_the_first_transition() {
    let mut engine = test_engine();
    engine.define_machine(order_machine()).unwrap();
    assert_eq!(
        engine.standing_of("o1", "fulfillment").unwrap(),
        Some(("pending".to_string(), 0))
    );
    fire(&mut engine, "o1", "pay");
    assert_eq!(engine.standing_of("o1", "fulfillment").unwrap(), Some(("paid".to_string(), 1)));
    assert_eq!(engine.standing_of("o1", "nowhere").unwrap(), None);
}

#[test]
fn versions_count_the_transitions_of_an_entity() {
    let mut engine = test_engine();
    engine.define_machine(order_machine()).unwrap();
    fire(&mut engine, "o1", "pay");
    fire(&mut engine, "o2", "pay");
    fire(&mut engine, "o1", "pack");
    fire(&mut engine, "o1", "cancel");
    let h = engine.history("o1", "fulfillment", None, None).unwrap();
    let versions: Vec<u64> = h.iter().map(|r| r.version).collect();
    assert_eq!(versions, vec![1, 2, 3]);
    for pair in h.windows(2) {
        assert_eq!(pair[1].from_state, pair[0].to_state);
    }
    let state = engine.current("o1", "fulfillment").unwrap();
    assert_eq!(state.current_state, h[2].to_state);
    assert_eq!(state.version, 3);
}

#[test]
fn default_engine_settings() {
    let c = EngineConfig::default();
    assert_eq!(c.max_subscribers, 1024);
    assert!(matches!(c.fsync_mode, FsyncMode::Synchronous));
}

#[test]
fn one_of_two_writers_wins() {
    let mut engine = test_engine();
    engine.define_machine(order_machine()).unwrap();
    fire(&mut engine, "order_1", "pay");
    let first =
        engine.transition("order_1", "fulfillment", "pack", "a", empty(), Some(1), None).unwrap();
    assert_eq!(first.version, 2);
    match engine.transition("order_1", "fulfillment", "cancel", "b", empty(), Some(1), None) {
        Err(EngineError::Core(CoreError::VersionConflict { expected, actual, .. })) => {
            assert_eq!((expected, actual), (1, 2));
        }
        other => panic!("unexpected: {:?}", other),
    }
    assert_eq!(engine.current("order_1", "fulfillment").unwrap().current_state, "packed");
}

#[test]
fn a_run_delivers_everything_once() {
    let mut engine = test_engine();
    engine.define_machine(order_machine()).unwrap();
    engine.define_machine(payment_machine()).unwrap();
    fire(&mut engine, "o0", "pay");
    let mut all = engine.subscribe("all".to_string(), None, 1).unwrap();
    let mut some =
        engine.subscribe("some".to_string(), Some("payment".to_string()), 0).unwrap();
    let mut sent = 0;
    for i in 0..5 {
        fire(&mut engine, &format!("o{}", i + 1), "pay");
        if i % 2 == 0 {
            sent += engine.dispatch_pass();
        }
        engine
            .transition(&format!("p{i}"), "payment", "capture", "u", empty(), None, None)
            .unwrap();
    }
    sent += engine.dispatch_pass();
    let got = received(&mut all);
    let numbers: Vec<u64> = got.iter().map(|r| r.sequence).collect();
    assert_eq!(numbers, (2..=11).collect::<Vec<u64>>());
    for r in &got {
        let log = engine.history(&r.entity_id, &r.machine, None, None).unwrap();
        let t = log.iter().find(|t| t.sequence == r.sequence).unwrap();
        assert_eq!(r.transition_id, t.id);
        assert_eq!((&r.from_state, &r.to_state), (&t.from_state, &t.to_state));
        assert_eq!((&r.event, &r.actor, r.version), (&t.event, &t.actor, t.version));
        assert_eq!(r.timestamp, t.timestamp);
        assert_eq!(r.ctx, t.ctx);
    }
    let numbers: Vec<u64> = received(&mut some).iter().map(|r| r.sequence).collect();
    assert_eq!(numbers, vec![3, 5, 7, 9, 11]);
    assert_eq!(sent, 15);
    assert_eq!(engine.dispatch_pass(), 0);
}

#[test]
fn retries_get_the_first_answer_whatever_came_between() {
    let mut engine = test_engine();
    engine.define_machine(order_machine()).unwrap();
    let key = Some("k".to_string());
    let first = engine
        .transition("o", "fulfillment", "pay", "u", empty(), None, key.clone())
        .unwrap();
    fire(&mut engine, "o", "pack");
    fire(&mut engine, "x", "pay");
    engine.define_machine(payment_machine()).unwrap();
    engine.publish_pending().unwrap();
    let again = engine
        .transition("o", "fulfillment", "pay", "v", empty(), Some(9), key.clone())
        .unwrap();
    assert_eq!(again.transition_id, first.transition_id);
    assert_eq!((again.sequence, again.version), (first.sequence, first.version));
    assert_eq!(again.to_state, "paid");
    assert!(matches!(
        engine.transition("x", "fulfillment", "pay", "u", empty(), None, key),
        Err(EngineError::Storage(StorageError::AlreadyExists(_)))
    ));
}

#[test]
fn what_is_kept_under_a_key_answers_its_request_and_no_other() {
    let mut engine = test_engine();
    engine.define_machine(order_machine()).unwrap();
    fire(&mut engine, "o", "pay");
    let kept = engine.history("o", "fulfillment", None, None).unwrap().remove(0);
    let answer = replay_of(&kept, "k", "o", "fulfillment", "pay").unwrap();
    assert_eq!(answer.transition_id, kept.id);
    assert_eq!(answer.sequence, 1);
    for (e, m, v) in
        [("x", "fulfillment", "pay"), ("o", "payment", "pay"), ("o", "fulfillment", "pack")]
    {
        assert!(matches!(
            replay_of(&kept, "k", e, m, v),
            Err(EngineError::Storage(StorageError::AlreadyExists(s))) if s.contains("'k'")
        ));
    }
}
