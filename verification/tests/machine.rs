use statemaster::fsm::builder::MachineBuilder;
use statemaster::fsm::error::CoreError;
use statemaster::fsm::machine::MachineDefinition;

fn fulfillment_machine() -> MachineDefinition {
    MachineBuilder::new()
        .name("fulfillment")
        .version(1)
        .states(&["pending", "paid", "packed", "shipped", "delivered", "canceled"])
        .initial_state("pending")
        .transition("pay", &["pending"], "paid")
        .transition_with_guards("pack", &["paid"], "packed", &["inventory_reserved"])
        .transition_with_guards("ship", &["packed"], "shipped", &["payment_captured"])
        .transition("deliver", &["shipped"], "delivered")
        .transition("cancel", &["pending", "paid", "packed"], "canceled")
        .effect("ship", "notify_customer", None)
        .effect("cancel", "release_inventory", None)
        .build()
        .unwrap()
}

#[test]
fn valid_machine_builds_and_validates() {
    let def = fulfillment_machine();
    assert_eq!(def.name, "fulfillment");
    assert_eq!(def.states.len(), 6);
    assert_eq!(def.transitions.len(), 5);
}

#[test]
fn duplicate_state_is_rejected() {
    let result = MachineBuilder::new().name("m").states(&["a", "a"]).initial_state("a").build();
    assert!(matches!(result, Err(CoreError::DuplicateState { .. })));
}

#[test]
fn unknown_initial_state_is_rejected() {
    let result = MachineBuilder::new().name("m").state("a").initial_state("b").build();
    assert!(matches!(result, Err(CoreError::InvalidDefinition { .. })));
}

#[test]
fn unknown_from_state_in_transition_is_rejected() {
    let result = MachineBuilder::new()
        .name("m")
        .state("a")
        .initial_state("a")
        .transition("go", &["b"], "a")
        .build();
    assert!(matches!(result, Err(CoreError::InvalidDefinition { .. })));
}

#[test]
fn unknown_to_state_in_transition_is_rejected() {
    let result = MachineBuilder::new()
        .name("m")
        .state("a")
        .initial_state("a")
        .transition("go", &["a"], "z")
        .build();
    assert!(matches!(result, Err(CoreError::InvalidDefinition { .. })));
}

#[test]
fn duplicate_event_from_state_pair_is_rejected() {
    let result = MachineBuilder::new()
        .name("m")
        .states(&["a", "b"])
        .initial_state("a")
        .transition("go", &["a"], "b")
        .transition("go", &["a"], "b")
        .build();
    assert!(matches!(result, Err(CoreError::InvalidDefinition { .. })));
}

#[test]
fn cancel_from_multiple_states_has_three_pairs() {
    let def = fulfillment_machine();
    let cancel = def.transitions.iter().find(|t| t.event == "cancel").unwrap();
    assert_eq!(cancel.from_states.len(), 3);
}

#[test]
fn errors_are_put_into_words() {
    let e = CoreError::GuardFailed { guard_name: "g".to_string(), reason: "why".to_string() };
    assert!(e.message().contains("g"));
    assert!(e.message().contains("why"));
    let e = CoreError::VersionConflict {
        entity_id: "e".to_string(),
        machine: "m".to_string(),
        expected: 3,
        actual: 7,
    };
    assert!(e.message().contains("3"));
    assert!(e.message().contains("7"));
}

#[test]
fn definitions_are_copied_whole() {
    let def = fulfillment_machine();
    let copy = def.clone();
    assert_eq!(copy.name, def.name);
    assert_eq!(copy.states, def.states);
    assert_eq!(copy.transitions.len(), def.transitions.len());
    assert_eq!(copy.transitions[2].guards, vec!["payment_captured".to_string()]);
    assert_eq!(copy.effects[1].effect, "release_inventory");
    assert!(copy.validate().is_ok());
}
