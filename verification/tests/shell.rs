use statemaster::clock::{Timestamp, FIRST_SECOND, LAST_SECOND};
use statemaster::engine::engine::Engine;
use statemaster::engine::error::EngineError;
use statemaster::fsm::builder::MachineBuilder;
use statemaster::fsm::machine::MachineDefinition;
use statemaster::fsm::record::EntityState;
use statemaster::proto::definition::{machine_value, read_definition};
use statemaster::shell::command::{parse_command, Cmd};
use statemaster::shell::ctl::{run, status_lines, CtlCommand};
use statemaster::shell::execute::{define_text, definition_file, execute, Shown, HELP};
use statemaster::shell::layout::{at_left, at_right, repeat_char, show_time};
use statemaster::shell::show::{show_entity, show_machine};
use statemaster::shell::tokens::tokenize;
use statemaster::storage::error::StorageError;
use statemaster::storage::redb_engine::RedbEngine;

type Guard = Box<dyn Fn(&EntityState, &serde_json::Value) -> bool>;
type TestEngine = Engine<RedbEngine, Guard>;

fn order_machine() -> MachineDefinition {
    MachineBuilder::new()
        .name("fulfillment")
        .version(1)
        .states(&["pending", "paid", "packed"])
        .initial_state("pending")
        .transition("pay", &["pending"], "paid")
        .transition_with_guards("pack", &["paid", "pending"], "packed", &["g1", "g2"])
        .effect("pay", "mail", None)
        .build()
        .unwrap()
}

fn test_engine() -> TestEngine {
    let mut engine: TestEngine = Engine::new(RedbEngine::in_memory().unwrap());
    engine.define_machine(order_machine()).unwrap();
    engine
}

fn line(engine: &mut TestEngine, s: &str) -> Shown {
    execute(parse_command(s).unwrap(), engine).unwrap()
}

#[test]
fn lines_are_cut_into_words() {
    assert_eq!(tokenize("a b\tc"), vec!["a", "b", "c"]);
    assert_eq!(tokenize("  a   b "), vec!["a", "b"]);
    assert_eq!(tokenize("tr e 'two words' x"), vec!["tr", "e", "two words", "x"]);
    assert_eq!(tokenize("a'b c'd"), vec!["ab cd"]);
    assert_eq!(tokenize("'open end"), vec!["open end"]);
    assert!(tokenize("").is_empty());
    assert!(tokenize("''").is_empty());
    assert_eq!(tokenize("--ctx '{\"k\": \"v\"}'"), vec!["--ctx", "{\"k\": \"v\"}"]);
}

#[test]
fn transitions_are_read() {
    match parse_command("transition order_1 fulfillment pay").unwrap() {
        Cmd::Transition { entity_id, machine, event, actor, ctx, expect_version } => {
            assert_eq!(entity_id, "order_1");
            assert_eq!(machine, "fulfillment");
            assert_eq!(event, "pay");
            assert_eq!(actor, "smash");
            assert_eq!(ctx, serde_json::Value::Object(serde_json::Map::new()));
            assert_eq!(expect_version, None);
        }
        other => panic!("unexpected: {:?}", other),
    }
    let s = "TR e m go --actor al --ctx '{\"k\": 1}' --expect-version 3 --actor bo";
    match parse_command(s).unwrap() {
        Cmd::Transition { actor, ctx, expect_version, .. } => {
            assert_eq!(actor, "bo");
            assert_eq!(ctx["k"], 1);
            assert_eq!(expect_version, Some(3));
        }
        other => panic!("unexpected: {:?}", other),
    }
    assert!(matches!(
        parse_command("tr e m go --expected-version +7").unwrap(),
        Cmd::Transition { expect_version: Some(7), .. }
    ));
}

#[test]
fn transitions_that_cannot_be_read() {
    let e = |s: &str| parse_command(s).unwrap_err();
    assert!(e("tr e m").starts_with("usage: transition"));
    assert_eq!(e("tr e m go --actor"), "--actor requires a value");
    assert_eq!(e("tr e m go --ctx"), "--ctx requires a JSON value");
    assert_eq!(
        e("tr e m go --ctx {x"),
        "invalid JSON for --ctx: key must be a string at line 1 column 2"
    );
    assert_eq!(e("TR e m go --ctx {x"), e("transition e m go --ctx {x"));
    assert_eq!(e("tr e m go --expect-version"), "--expect-version requires a number");
    assert_eq!(e("tr e m go --expect-version x"), "'x' is not a valid version number");
    assert_eq!(
        e("tr e m go --expect-version 18446744073709551616"),
        "'18446744073709551616' is not a valid version number"
    );
    assert_eq!(e("tr e m go more"), "unexpected argument: 'more'");
}

#[test]
fn other_commands_are_read() {
    assert!(matches!(
        parse_command("cur e m").unwrap(),
        Cmd::Current { entity_id, machine } if entity_id == "e" && machine == "m"
    ));
    assert!(matches!(
        parse_command("history e m -n 5").unwrap(),
        Cmd::History { limit: Some(5), .. }
    ));
    assert!(matches!(parse_command("hist e m").unwrap(), Cmd::History { limit: None, .. }));
    assert!(matches!(
        parse_command("define '{\"a\": 1}' x").unwrap(),
        Cmd::Define { source } if source == "{\"a\": 1} x"
    ));
    assert!(matches!(parse_command("").unwrap(), Cmd::Empty));
    assert!(matches!(parse_command("  # comment").unwrap(), Cmd::Empty));
    assert!(matches!(parse_command("''").unwrap(), Cmd::Empty));
    assert!(matches!(parse_command("exit").unwrap(), Cmd::Quit));
    assert!(matches!(parse_command("?").unwrap(), Cmd::Help));
    assert!(matches!(parse_command("\\machines").unwrap(), Cmd::ListMachines));
    assert!(matches!(
        parse_command("\\machine  fulfillment ").unwrap(),
        Cmd::DescribeMachine { name } if name == "fulfillment"
    ));
    assert!(matches!(
        parse_command("\\entity a b").unwrap(),
        Cmd::DescribeEntity { entity_id } if entity_id == "a b"
    ));
    assert!(matches!(parse_command("\\q").unwrap(), Cmd::Quit));
    assert!(matches!(parse_command("\\h").unwrap(), Cmd::Help));
    let e = |s: &str| parse_command(s).unwrap_err();
    assert_eq!(e("cur e"), "usage: current <entity_id> <machine>");
    assert_eq!(e("hist e"), "usage: history <entity_id> <machine> [--limit N]");
    assert_eq!(e("hist e m --limit"), "--limit requires a number");
    assert_eq!(e("hist e m -l 4294967296"), "'4294967296' is not a valid limit");
    assert_eq!(e("hist e m x"), "unexpected argument: 'x'");
    assert_eq!(e("def"), "usage: define <json_string_or_@file>");
    assert_eq!(e("\\machine"), "usage: \\machine <name>");
    assert_eq!(e("\\entity  "), "usage: \\entity <entity_id>");
    assert_eq!(e("\\x y"), "unknown meta-command: \\x");
    assert_eq!(e("FLY"), "unknown command: 'fly'. Type \\help for commands.");
}

#[test]
fn columns_are_padded() {
    assert_eq!(at_left("ab", 4), "ab  ");
    assert_eq!(at_right("ab", 4), "  ab");
    assert_eq!(at_left("abcdef", 4), "abcdef");
    assert_eq!(at_left("é", 3), "é  ");
    assert_eq!(repeat_char('-', 3), "---");
    assert_eq!(show_time(&Timestamp { secs: 0, nanos: 5 }), "1970-01-01 00:00:00");
    assert_eq!(show_time(&Timestamp { secs: i64::MAX, nanos: 0 }), "(out of range)");
    assert_ne!(show_time(&Timestamp { secs: FIRST_SECOND, nanos: 0 }), "(out of range)");
    assert_eq!(show_time(&Timestamp { secs: FIRST_SECOND - 1, nanos: 0 }), "(out of range)");
    assert_ne!(show_time(&Timestamp { secs: LAST_SECOND, nanos: 0 }), "(out of range)");
    assert_eq!(show_time(&Timestamp { secs: LAST_SECOND + 1, nanos: 0 }), "(out of range)");
    assert_ne!(show_time(&Timestamp { secs: 59, nanos: 1_999_999_999 }), "(out of range)");
    assert_eq!(show_time(&Timestamp { secs: 58, nanos: 1_000_000_000 }), "(out of range)");
}

#[test]
fn transitions_are_shown() {
    let mut engine = test_engine();
    let s = line(&mut engine, "tr e fulfillment pay");
    assert!(s.proceed);
    assert_eq!(s.lines, vec!["OK  pending -> paid  (v1, seq 1)"]);
    let s = line(&mut engine, "tr e fulfillment pay");
    assert_eq!(s.lines.len(), 1);
    assert!(s.lines[0].starts_with("Error: core error: "));
    assert_eq!(engine.current("e", "fulfillment").unwrap().version, 1);
}

#[test]
fn entities_are_shown() {
    let mut engine = test_engine();
    let s = line(&mut engine, "cur e fulfillment");
    assert!(s.lines[0].starts_with("Error: storage error: "));
    let s = line(&mut engine, "\\entity e");
    assert_eq!(s.lines[0], "Entity: e");
    assert_eq!(s.lines[1], "-".repeat(60));
    assert_eq!(
        s.lines[2],
        format!("  {:30}  state={:<20}  (not started)", "fulfillment", "pending")
    );
    assert_eq!(s.lines[3], "No state records found for entity 'e'.");
    line(&mut engine, "tr e fulfillment pay");
    let s = line(&mut engine, "cur e fulfillment");
    assert_eq!(s.lines[0], "Entity:    e");
    assert_eq!(s.lines[2], "State:     paid");
    assert_eq!(s.lines[3], "Version:   1");
    assert!(s.lines[4].starts_with("Updated:   ") && s.lines[4].ends_with(" UTC"));
    let s = line(&mut engine, "\\entity e");
    assert_eq!(s.lines.len(), 3);
    assert_eq!(s.lines[2], format!("  {:30}  state={:<20}  v={}", "fulfillment", "paid", 1));
}

#[test]
fn histories_are_shown() {
    let mut engine = test_engine();
    let s = line(&mut engine, "hist e fulfillment");
    assert_eq!(s.lines, vec!["No history for 'e' in 'fulfillment'."]);
    line(&mut engine, "tr e fulfillment pay --actor al");
    line(&mut engine, "tr e fulfillment pack");
    let s = line(&mut engine, "hist e fulfillment");
    assert_eq!(s.lines.len(), 6);
    assert_eq!(
        s.lines[0],
        format!(
            "{:>8}  {:<20}  {:<20}  {:<20}  {:<20}  {}",
            "Seq", "Timestamp", "Event", "From", "To", "Actor"
        )
    );
    assert_eq!(s.lines[1], "-".repeat(100));
    assert!(s.lines[2].starts_with("       1  "));
    assert!(s.lines[2].ends_with("  al"));
    assert_eq!(s.lines[4], "");
    assert_eq!(s.lines[5], "2 record(s)");
    let s = line(&mut engine, "hist e fulfillment --limit 1");
    assert_eq!(s.lines[4], "1 record(s)");
}

#[test]
fn machines_are_shown() {
    let mut engine = test_engine();
    let s = line(&mut engine, "\\machines");
    assert_eq!(s.lines[0], format!("{:<30} {:>7}  {}", "Name", "Version", "Initial State"));
    assert_eq!(s.lines[1], "-".repeat(60));
    assert_eq!(s.lines[2], format!("{:<30} {:>7}  {}", "fulfillment", 1, "pending"));
    assert_eq!(s.lines[4], "1 machine(s)");
    let s = line(&mut engine, "\\machine fulfillment");
    assert_eq!(
        s.lines,
        vec![
            "Machine:      fulfillment".to_string(),
            "Version:      1".to_string(),
            "Initial:      pending".to_string(),
            "States (3):".to_string(),
            "   *pending".to_string(),
            "    paid".to_string(),
            "    packed".to_string(),
            "Transitions (2):".to_string(),
            format!("  {:20} {:30} -> {}", "pay", "[pending]", "paid"),
            format!(
                "  {:20} {:30} -> {}  [guards: g1, g2]",
                "pack", "[paid, pending]", "packed"
            ),
            "Effects (1):".to_string(),
            "  on 'pay' -> emit 'mail'".to_string(),
        ]
    );
    let s = line(&mut engine, "\\machine nowhere");
    assert!(s.lines[0].starts_with("Error: storage error: "));
    let mut none: TestEngine = Engine::new(RedbEngine::in_memory().unwrap());
    assert_eq!(line(&mut none, "\\machines").lines, vec!["No machines defined."]);
    assert_eq!(line(&mut none, "\\entity e").lines, vec!["No machines defined."]);
}

#[test]
fn definitions_can_be_typed() {
    let mut engine = test_engine();
    let mut other = order_machine();
    other.name = "other".to_string();
    let text = machine_value(&other).to_string();
    let s = define_text(&mut engine, &text).unwrap();
    assert_eq!(s.lines, vec!["Machine 'other' defined."]);
    assert_eq!(engine.get_machine("other").unwrap().states.len(), 3);
    other.version = 2;
    other.initial_state = "nowhere".to_string();
    let s = define_text(&mut engine, &machine_value(&other).to_string()).unwrap();
    assert!(s.lines[0].starts_with("Error: core error: "));
    let s = define_text(&mut engine, "{").unwrap();
    assert_eq!(
        s.lines,
        vec!["Invalid MachineDefinition JSON: EOF while parsing an object at line 1 column 1"]
    );
    let s = define_text(&mut engine, "{}").unwrap();
    assert_eq!(s.lines, vec!["Invalid MachineDefinition JSON: unexpected shape"]);
    assert_eq!(definition_file("@a b"), Some("a b".to_string()));
    assert_eq!(definition_file("{}"), None);
    assert_eq!(definition_file(""), None);
}

const DOOR: &str = r#" { "name" : "door", "version":1 ,"states": ["open", "shut"],
    "initial_state":"open",
    "transitions":[ {"event":"push","from_states":["open"],"to_state":"shut","guards":[]} ],
    "effects":[{"on_event":"push", "effect":"bang","payload":{"a":1,"a":2}}],
    "created_at":"2024-01-01T00:00:00Z", "more":0, "more":1 }"#;

#[test]
fn definitions_with_a_field_twice_are_refused() {
    let m = read_definition(DOOR).unwrap();
    assert_eq!(m.transitions[0].to_state, "shut");
    assert_eq!(m.effects[0].payload.as_ref().unwrap()["a"], 2);
    for (field, twice) in [
        ("\"version\":1", "\"version\":1,\"version\":1"),
        ("\"name\" : \"door\"", "\"name\":\"door\",\"n\\u0061me\":\"door\""),
        ("\"event\":\"push\"", "\"event\":\"push\",\"event\":\"push\""),
        ("\"guards\":[]", "\"guards\":[],\"x\":{\"a\":[]},\"guards\":[]"),
        ("\"effect\":\"bang\"", "\"effect\":\"bang\", \"effect\":\"bang\""),
        ("\"on_event\":\"push\"", "\"payload\":null,\"on_event\":\"push\""),
    ] {
        let text = DOOR.replacen(field, twice, 1);
        assert_ne!(text, DOOR);
        assert_eq!(read_definition(&text).unwrap_err(), "unexpected shape", "{}", text);
    }
    let unknown = DOOR.replacen("\"guards\":[]", "\"x\":1,\"guards\":[],\"x\":2", 1);
    assert!(read_definition(&unknown).is_ok());
}

#[test]
fn definitions_may_go_by_places() {
    let at = "\"2024-01-01T00:00:00Z\"";
    let text = format!(
        "[\"door\",1,[\"open\",\"shut\"],\"open\",[[\"push\",[\"open\"],\"shut\",[\"g\"]]],[[\"push\",\"bang\",7]],{}]",
        at
    );
    let m = read_definition(&text).unwrap();
    assert_eq!((m.name.as_str(), m.version), ("door", 1));
    assert_eq!(m.states, vec!["open", "shut"]);
    assert_eq!(m.transitions[0].from_states, vec!["open"]);
    assert_eq!(m.transitions[0].guards, vec!["g"]);
    assert_eq!(m.effects[0].effect, "bang");
    assert_eq!(m.effects[0].payload, Some(7.into()));
    for other in [
        format!("[\"door\",1,[\"open\"],\"open\",[],[]]"),
        format!("[\"door\",1,[\"open\"],\"open\",[],[],{},0]", at),
        format!("[\"door\",1,[\"open\"],\"open\",[[\"push\",[],\"open\"]],[],{}]", at),
        format!("[\"door\",1,[\"open\"],\"open\",[],[[\"push\",\"bang\"]],{}]", at),
        format!("[1,\"door\",[\"open\"],\"open\",[],[],{}]", at),
    ] {
        assert_eq!(read_definition(&other).unwrap_err(), "unexpected shape", "{}", other);
    }
    let mixed = format!(
        "[\"door\",1,[\"open\"],\"open\",[{{\"event\":\"a\",\"event\":\"a\",\"from_states\":[],\"to_state\":\"open\",\"guards\":[]}}],[],{}]",
        at
    );
    assert_eq!(read_definition(&mixed).unwrap_err(), "unexpected shape");
}

#[test]
fn shell_helps_and_leaves() {
    let mut engine = test_engine();
    let s = line(&mut engine, "help");
    assert!(s.proceed);
    assert_eq!(s.lines, vec![HELP.to_string()]);
    assert!(HELP.contains("[--ctx '{\"k\":\"v\"}']"));
    let s = line(&mut engine, "quit");
    assert!(!s.proceed);
    assert_eq!(s.lines, vec!["Goodbye."]);
    assert!(line(&mut engine, "").lines.is_empty());
}

// ---------------------------------------------------------------------------
// The command-line tool
// ---------------------------------------------------------------------------

#[test]
fn tool_tells_its_surroundings() {
    assert_eq!(
        status_lines("a", "d", "f", false),
        vec!["addr:     a (local mode)", "data_dir: d", "db_file:  f", "db_exists: no"]
    );
}

fn transition(event: &str, ctx: Option<&str>) -> CtlCommand {
    CtlCommand::Transition {
        entity_id: "e".to_string(),
        machine: "fulfillment".to_string(),
        event: event.to_string(),
        actor: "smdbctl".to_string(),
        ctx: ctx.map(|s| s.to_string()),
        expected_version: None,
    }
}

#[test]
fn tool_fires_transitions() {
    let mut engine = test_engine();
    let lines = run(transition("pay", Some("{\"k\": 1}")), &mut engine).unwrap();
    assert_eq!(lines[0], "Transition applied successfully.");
    assert_eq!(lines[3], "  From:      pending");
    assert_eq!(lines[4], "  To:        paid");
    assert_eq!(lines[5], "  Version:   1");
    assert_eq!(lines.len(), 9);
    assert_eq!(engine.history("e", "fulfillment", None, None).unwrap()[0].ctx["k"], 1);
    let e = run(transition("pay", None), &mut engine).unwrap_err();
    assert!(e.starts_with("firing 'pay' on 'e' in 'fulfillment': core error: "));
    let e = run(transition("pack", Some("{")), &mut engine).unwrap_err();
    assert_eq!(e, "parsing ctx JSON: {: EOF while parsing an object at line 1 column 1");
}

#[test]
fn tool_answers_questions() {
    let mut engine = test_engine();
    let lines = run(CtlCommand::Machines, &mut engine).unwrap();
    assert_eq!(lines[4], "1 machine(s) total.");
    let lines =
        run(CtlCommand::Machine { name: "fulfillment".to_string() }, &mut engine).unwrap();
    assert_eq!(lines[0], "-".repeat(60));
    assert_eq!(lines[1], "Machine:      fulfillment");
    assert!(lines[3].starts_with("Created:      "));
    assert_eq!(lines[lines.len() - 1], "-".repeat(60));
    let e = run(CtlCommand::Machine { name: "x".to_string() }, &mut engine).unwrap_err();
    assert!(e.starts_with("getting machine 'x': storage error: "));
    let current = || CtlCommand::Current {
        entity_id: "e".to_string(),
        machine: "fulfillment".to_string(),
    };
    let e = run(current(), &mut engine).unwrap_err();
    assert!(e.starts_with("getting current state for 'e' in 'fulfillment': "));
    let history = || CtlCommand::History {
        entity_id: "e".to_string(),
        machine: "fulfillment".to_string(),
        limit: None,
    };
    assert_eq!(
        run(history(), &mut engine).unwrap(),
        vec!["No history found for 'e' in 'fulfillment'."]
    );
    run(transition("pay", None), &mut engine).unwrap();
    let lines = run(current(), &mut engine).unwrap();
    assert_eq!(lines.len(), 6);
    assert!(lines[5].starts_with("Created:   "));
    let lines = run(history(), &mut engine).unwrap();
    assert_eq!(lines[1], "-".repeat(60));
    assert_eq!(lines[lines.len() - 1], "1 record(s).");
}

#[test]
fn tool_defines_machines() {
    let mut engine = test_engine();
    let define = |text: &str| CtlCommand::Define { file: "f".to_string(), text: text.to_string() };
    let mut other = order_machine();
    other.name = "other".to_string();
    let lines = run(define(&machine_value(&other).to_string()), &mut engine).unwrap();
    assert_eq!(lines, vec!["Machine 'other' defined successfully."]);
    let e = run(define("{"), &mut engine).unwrap_err();
    assert_eq!(
        e,
        "parsing MachineDefinition from 'f': EOF while parsing an object at line 1 column 1"
    );
    let e = run(define("[1]"), &mut engine).unwrap_err();
    assert_eq!(e, "parsing MachineDefinition from 'f': unexpected shape");
    other.version = 2;
    other.initial_state = "nowhere".to_string();
    let e = run(define(&machine_value(&other).to_string()), &mut engine).unwrap_err();
    assert!(e.starts_with("defining machine 'other': core error: "));
}

#[test]
fn ages_are_shown_where_asked_for() {
    let t = Timestamp { secs: 1_700_000_000, nanos: 0 };
    let s = EntityState {
        entity_id: "e".to_string(),
        machine: "m".to_string(),
        current_state: "a".to_string(),
        version: 1,
        updated_at: t,
        created_at: t,
    };
    assert_eq!(show_entity(&s, false)[4], "Updated:   2023-11-14 22:13:20 UTC");
    assert_eq!(show_entity(&s, true)[5], "Created:   2023-11-14 22:13:20 UTC");
    let mut m = order_machine();
    m.created_at = t;
    assert_eq!(show_machine(&m, true)[2], "Created:      2023-11-14 22:13:20 UTC");
}

#[test]
fn engine_errors_are_put_into_words() {
    assert_eq!(
        EngineError::Storage(StorageError::NotFound("x".to_string())).message(),
        format!("storage error: {}", StorageError::NotFound("x".to_string()).message())
    );
}

#[test]
fn verbs_may_be_short_or_upper_case() {
    let read = |line: &str| match parse_command(line) {
        Ok(cmd) => format!("{cmd:?}"),
        Err(e) => e,
    };
    for (short, full) in [("tr", "transition"), ("cur", "current"), ("hist", "history"), ("def", "define")] {
        for rest in ["", "a", "e m", "e m go", "e m go --actor 'x y'", "e m --limit 3", "  {\"a\": 1}  "] {
            let want = read(&format!("{full} {rest}"));
            assert_eq!(read(&format!("{short} {rest}")), want);
            assert_eq!(read(&format!("{} {rest}", short.to_uppercase())), want);
            assert_eq!(read(&format!("{} {rest}", full.to_uppercase())), want);
        }
    }
    assert!(matches!(parse_command("TrAnSiTiOn e m go").unwrap(), Cmd::Transition { .. }));
}
