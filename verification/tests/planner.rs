use statemaster::fsm::builder::MachineBuilder;
use statemaster::fsm::error::CoreError;
use statemaster::fsm::machine::MachineDefinition;
use statemaster::fsm::planner::FsmPlanner;
use statemaster::names::NameMap;

fn fulfillment_machine() -> MachineDefinition {
    MachineBuilder::new()
        .name("fulfillment")
        .version(1)
        .states(&["pending", "paid", "packed", "shipped", "delivered", "canceled"])
        .initial_state("pending")
        .transition("pay", &["pending"], "paid")
        .transition_with_guards("pack", &["paid"], "packed", &["inventory_reserved"])
        .transition_with_guards("ship", &["packed"], "shipped", &["payment_captured"])
        .transition("deliver", &["shipped"], "delivered")
        .transition("cancel", &["pending", "paid", "packed"], "canceled")
        .effect("ship", "notify_customer", None)
        .effect("cancel", "release_inventory", None)
        .build()
        .unwrap()
}

#[test]
fn plan_transition_finds_correct_rule() {
    let def = fulfillment_machine();
    let rule = FsmPlanner::plan_transition(&def, "pending", "pay", "order_1").unwrap();
    assert_eq!(rule.to_state, "paid");
}

#[test]
fn plan_transition_returns_illegal_transition_for_wrong_state() {
    let def = fulfillment_machine();
    let err = FsmPlanner::plan_transition(&def, "delivered", "ship", "order_1").unwrap_err();
    assert!(matches!(err, CoreError::IllegalTransition { .. }));
}

#[test]
fn plan_transition_returns_illegal_transition_for_unknown_event() {
    let def = fulfillment_machine();
    let err = FsmPlanner::plan_transition(&def, "pending", "teleport", "order_1").unwrap_err();
    assert!(matches!(err, CoreError::IllegalTransition { .. }));
}

#[test]
fn cancel_is_legal_from_multiple_states() {
    let def = fulfillment_machine();
    for from in ["pending", "paid", "packed"] {
        let rule = FsmPlanner::plan_transition(&def, from, "cancel", "order_1").unwrap();
        assert_eq!(rule.to_state, "canceled");
    }
}

#[test]
fn validate_guards_passes_when_all_guards_true() {
    let def = fulfillment_machine();
    let rule = FsmPlanner::plan_transition(&def, "packed", "ship", "order_1").unwrap();
    let mut results = NameMap::new();
    results.insert("payment_captured".to_string(), true);
    assert!(FsmPlanner::validate_guards(rule, &results).is_ok());
}

#[test]
fn validate_guards_fails_on_false_guard() {
    let def = fulfillment_machine();
    let rule = FsmPlanner::plan_transition(&def, "packed", "ship", "order_1").unwrap();
    let mut results = NameMap::new();
    results.insert("payment_captured".to_string(), false);
    let err = FsmPlanner::validate_guards(rule, &results).unwrap_err();
    assert!(matches!(
        err,
        CoreError::GuardFailed { guard_name, .. } if guard_name == "payment_captured"
    ));
}

#[test]
fn validate_guards_fails_when_guard_absent_from_results() {
    let def = fulfillment_machine();
    let rule = FsmPlanner::plan_transition(&def, "packed", "ship", "order_1").unwrap();
    // No results: a guard that is absent counts as one that objects.
    let err = FsmPlanner::validate_guards(rule, &NameMap::new()).unwrap_err();
    assert!(matches!(err, CoreError::GuardFailed { .. }));
}

#[test]
fn validate_guards_passes_when_no_guards_on_rule() {
    let def = fulfillment_machine();
    // "pay" has no guards.
    let rule = FsmPlanner::plan_transition(&def, "pending", "pay", "order_1").unwrap();
    assert!(FsmPlanner::validate_guards(rule, &NameMap::new()).is_ok());
}

#[test]
fn compute_effects_returns_effects_for_event() {
    let def = fulfillment_machine();
    let effects = FsmPlanner::compute_effects(&def, "ship");
    assert_eq!(effects.len(), 1);
    assert_eq!(effects[0].effect, "notify_customer");
}

#[test]
fn compute_effects_returns_empty_for_event_with_no_effects() {
    let def = fulfillment_machine();
    let effects = FsmPlanner::compute_effects(&def, "pay");
    assert!(effects.is_empty());
}

#[test]
fn build_transition_record_produces_valid_record() {
    let mut ctx = serde_json::Map::new();
    ctx.insert("amount".to_string(), serde_json::Value::from(100));
    let record = FsmPlanner::build_transition_record(
        "order_1".into(),
        "fulfillment".into(),
        "pending".into(),
        "paid".into(),
        "pay".into(),
        "svc:billing".into(),
        serde_json::Value::Object(ctx),
        Some("idem-key-1".into()),
    );
    assert_eq!(record.entity_id, "order_1");
    assert_eq!(record.from_state, "pending");
    assert_eq!(record.to_state, "paid");
    assert_eq!(record.sequence, 0);
    assert!(record.idempotency_key.is_some());
    // UUID v4 is 36 characters.
    assert_eq!(record.id.len(), 36);
}

#[test]
fn record_keeps_context_and_gets_a_fresh_identifier() {
    let make = || {
        FsmPlanner::build_transition_record(
            "e".into(),
            "m".into(),
            "a".into(),
            "b".into(),
            "go".into(),
            "me".into(),
            serde_json::Value::from("ctx"),
            None,
        )
    };
    let a = make();
    let b = make();
    assert_eq!(a.ctx, serde_json::Value::from("ctx"));
    assert_ne!(a.id, b.id);
    assert_eq!(&a.id[14..15], "4");
    assert_eq!(&a.id[8..9], "-");
    assert!(a.timestamp.secs > 1_600_000_000);
}
