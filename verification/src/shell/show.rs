//! What is shown of machines, entities and histories.
use crate::engine::error::EngineError;
use crate::engine::outcome::{ResultView, TransitionResult};
use crate::fsm::machine::{
    EffectRule, EffectRuleView, MachineDefinition, MachineView, RuleView, TransitionRule,
};
use crate::fsm::record::{record_views, EntityState, EntityView, RecordView, TransitionRecord};
use crate::shell::layout::{
    add_line, at_left, at_right, left, repeat_char, repeated, right, show_time, time_shown,
};
use crate::text::{decimal, decimal_of, join_from, joined, texts};
use vstd::prelude::*;

verus! {

// ---------------------------------------------------------------------------
// Lists of machines
// ---------------------------------------------------------------------------

/// The contents of a sequence of definitions.
pub open spec fn machine_views(s: Seq<MachineDefinition>) -> Seq<MachineView> {
    Seq::new(s.len(), |i: int| s[i]@)
}

/// A row of a table of machines.
pub open spec fn machine_row(name: Seq<char>, version: Seq<char>, initial: Seq<char>) -> Seq<char> {
    left(name, 30) + " "@ + right(version, 7) + "  "@ + initial
}

/// A row of a table of machines.
fn show_machine_row(name: &str, version: &str, initial: &str) -> (r: String)
    ensures
        r@ == machine_row(name@, version@, initial@),
{
    at_left(name, 30).concat(" ").concat(at_right(version, 7).as_str()).concat("  ").concat(initial)
}

/// A list of machines; `tail` ends the line that counts them.
pub open spec fn machine_table(ms: Seq<MachineView>, tail: Seq<char>) -> Seq<Seq<char>> {
    if ms.len() == 0 {
        seq!["No machines defined."@]
    } else {
        seq![machine_row("Name"@, "Version"@, "Initial State"@), repeated('-', 60)] + Seq::new(
            ms.len(),
            |i: int| machine_row(ms[i].name, decimal(ms[i].version as nat), ms[i].initial_state),
        ) + seq![""@, decimal(ms.len()) + tail]
    }
}

/// A list of machines.
pub fn show_machine_table(ms: &Vec<MachineDefinition>, tail: &str) -> (r: Vec<String>)
    ensures
        texts(r@) == machine_table(machine_views(ms@), tail@),
{
    let ghost views = machine_views(ms@);
    let mut r: Vec<String> = Vec::new();
    assert(texts(r@) =~= Seq::<Seq<char>>::empty());
    if ms.len() == 0 {
        add_line(&mut r, "No machines defined.".to_owned());
        assert(texts(r@) =~= machine_table(views, tail@));
        return r;
    }
    add_line(&mut r, show_machine_row("Name", "Version", "Initial State"));
    add_line(&mut r, repeat_char('-', 60));
    let ghost head = seq![
        machine_row("Name"@, "Version"@, "Initial State"@),
        repeated('-', 60),
    ];
    let ghost row = |k: int|
        machine_row(views[k].name, decimal(views[k].version as nat), views[k].initial_state);
    assert(texts(r@) =~= head + Seq::new(0, row));
    let mut i: usize = 0;
    while i < ms.len()
        invariant
            i <= ms@.len(),
            views == machine_views(ms@),
            row == (|k: int|
                machine_row(
                    views[k].name,
                    decimal(views[k].version as nat),
                    views[k].initial_state,
                )),
            texts(r@) == head + Seq::new(i as nat, row),
        decreases ms@.len() - i,
    {
        let m = &ms[i];
        assert(views[i as int] == m@);
        add_line(
            &mut r,
            show_machine_row(
                m.name.as_str(),
                decimal_of(m.version as u64).as_str(),
                m.initial_state.as_str(),
            ),
        );
        assert(texts(r@) =~= head + Seq::new((i + 1) as nat, row));
        i = i + 1;
    }
    add_line(&mut r, "".to_owned());
    add_line(&mut r, decimal_of(ms.len() as u64).concat(tail));
    assert(texts(r@) =~= machine_table(views, tail@));
    r
}

// ---------------------------------------------------------------------------
// A machine
// ---------------------------------------------------------------------------

/// A state of a machine; the initial one is marked.
pub open spec fn state_line(s: Seq<char>, initial: Seq<char>) -> Seq<char> {
    "  "@ + (if s == initial {
        " *"@
    } else {
        "  "@
    }) + s
}

/// A rule of a machine.
pub open spec fn rule_line(t: RuleView) -> Seq<char> {
    let guards = if t.guards.len() == 0 {
        ""@
    } else {
        "  [guards: "@ + joined(t.guards, ", "@) + "]"@
    };
    "  "@ + left(t.event, 20) + " "@ + left("["@ + joined(t.from_states, ", "@) + "]"@, 30)
        + " -> "@ + t.to_state + guards
}

/// A rule of a machine.
fn show_rule(t: &TransitionRule) -> (r: String)
    ensures
        r@ == rule_line(t@),
{
    assert(texts(t.guards@).skip(0) =~= texts(t.guards@));
    assert(texts(t.from_states@).skip(0) =~= texts(t.from_states@));
    let guards = if t.guards.len() == 0 {
        "".to_owned()
    } else {
        "  [guards: ".to_owned().concat(join_from(&t.guards, 0, ", ").as_str()).concat("]")
    };
    let from = "[".to_owned().concat(join_from(&t.from_states, 0, ", ").as_str()).concat("]");
    "  ".to_owned().concat(at_left(t.event.as_str(), 20).as_str()).concat(" ").concat(
        at_left(from.as_str(), 30).as_str(),
    ).concat(" -> ").concat(t.to_state.as_str()).concat(guards.as_str())
}

/// An effect of a machine.
pub open spec fn effect_line(e: EffectRuleView) -> Seq<char> {
    "  on '"@ + e.on_event + "' -> emit '"@ + e.effect + "'"@
}

/// An effect of a machine.
fn show_effect(e: &EffectRule) -> (r: String)
    ensures
        r@ == effect_line(e@),
{
    "  on '".to_owned().concat(e.on_event.as_str()).concat("' -> emit '").concat(
        e.effect.as_str(),
    ).concat("'")
}

/// The first lines on a machine; with its age where asked for.
pub open spec fn machine_head(m: MachineView, dated: bool) -> Seq<Seq<char>> {
    seq!["Machine:      "@ + m.name, "Version:      "@ + decimal(m.version as nat)] + (if dated {
        seq!["Created:      "@ + time_shown(m.created_at) + " UTC"@]
    } else {
        Seq::<Seq<char>>::empty()
    }) + seq!["Initial:      "@ + m.initial_state]
}

/// The lines on the states of a machine.
pub open spec fn state_lines(m: MachineView) -> Seq<Seq<char>> {
    seq!["States ("@ + decimal(m.states.len()) + "):"@] + Seq::new(
        m.states.len(),
        |i: int| state_line(m.states[i], m.initial_state),
    )
}

/// The lines on the rules of a machine.
pub open spec fn rule_lines(m: MachineView) -> Seq<Seq<char>> {
    seq!["Transitions ("@ + decimal(m.transitions.len()) + "):"@] + Seq::new(
        m.transitions.len(),
        |i: int| rule_line(m.transitions[i]),
    )
}

/// The lines on the effects of a machine, if it has any.
pub open spec fn effect_lines(m: MachineView) -> Seq<Seq<char>> {
    if m.effects.len() == 0 {
        Seq::empty()
    } else {
        seq!["Effects ("@ + decimal(m.effects.len()) + "):"@] + Seq::new(
            m.effects.len(),
            |i: int| effect_line(m.effects[i]),
        )
    }
}

/// The lines on a machine.
pub open spec fn machine_lines(m: MachineView, dated: bool) -> Seq<Seq<char>> {
    machine_head(m, dated) + state_lines(m) + rule_lines(m) + effect_lines(m)
}

/// Adds the lines on the states of a machine.
fn add_states(r: &mut Vec<String>, m: &MachineDefinition)
    ensures
        texts(final(r)@) == texts(old(r)@) + state_lines(m@),
{
    let ghost base = texts(r@);
    let ghost row = |k: int| state_line(m@.states[k], m@.initial_state);
    add_line(r, "States (".to_owned().concat(decimal_of(m.states.len() as u64).as_str()).concat("):"));
    let ghost head = base.push("States ("@ + decimal(m@.states.len()) + "):"@);
    assert(texts(r@) =~= head + Seq::new(0, row));
    let mut i: usize = 0;
    while i < m.states.len()
        invariant
            i <= m.states@.len(),
            row == (|k: int| state_line(m@.states[k], m@.initial_state)),
            texts(r@) == head + Seq::new(i as nat, row),
        decreases m.states@.len() - i,
    {
        assert(m@.states[i as int] == m.states@[i as int]@);
        let marker = if *m.states[i].as_str() == *m.initial_state.as_str() {
            " *"
        } else {
            "  "
        };
        add_line(r, "  ".to_owned().concat(marker).concat(m.states[i].as_str()));
        assert(texts(r@) =~= head + Seq::new((i + 1) as nat, row));
        i = i + 1;
    }
    assert(texts(r@) =~= base + state_lines(m@));
}

/// Adds the lines on the rules of a machine.
fn add_rules(r: &mut Vec<String>, m: &MachineDefinition)
    ensures
        texts(final(r)@) == texts(old(r)@) + rule_lines(m@),
{
    let ghost base = texts(r@);
    let ghost row = |k: int| rule_line(m@.transitions[k]);
    add_line(
        r,
        "Transitions (".to_owned().concat(decimal_of(m.transitions.len() as u64).as_str()).concat(
            "):",
        ),
    );
    let ghost head = base.push("Transitions ("@ + decimal(m@.transitions.len()) + "):"@);
    assert(texts(r@) =~= head + Seq::new(0, row));
    let mut i: usize = 0;
    while i < m.transitions.len()
        invariant
            i <= m.transitions@.len(),
            row == (|k: int| rule_line(m@.transitions[k])),
            texts(r@) == head + Seq::new(i as nat, row),
        decreases m.transitions@.len() - i,
    {
        assert(m@.transitions[i as int] == m.transitions@[i as int]@);
        add_line(r, show_rule(&m.transitions[i]));
        assert(texts(r@) =~= head + Seq::new((i + 1) as nat, row));
        i = i + 1;
    }
    assert(texts(r@) =~= base + rule_lines(m@));
}

/// Adds the lines on the effects of a machine.
fn add_effects(r: &mut Vec<String>, m: &MachineDefinition)
    ensures
        texts(final(r)@) == texts(old(r)@) + effect_lines(m@),
{
    let ghost base = texts(r@);
    if m.effects.len() == 0 {
        assert(base =~= base + effect_lines(m@));
        return;
    }
    let ghost row = |k: int| effect_line(m@.effects[k]);
    add_line(
        r,
        "Effects (".to_owned().concat(decimal_of(m.effects.len() as u64).as_str()).concat("):"),
    );
    let ghost head = base.push("Effects ("@ + decimal(m@.effects.len()) + "):"@);
    assert(texts(r@) =~= head + Seq::new(0, row));
    let mut i: usize = 0;
    while i < m.effects.len()
        invariant
            i <= m.effects@.len(),
            row == (|k: int| effect_line(m@.effects[k])),
            texts(r@) == head + Seq::new(i as nat, row),
        decreases m.effects@.len() - i,
    {
        assert(m@.effects[i as int] == m.effects@[i as int]@);
        add_line(r, show_effect(&m.effects[i]));
        assert(texts(r@) =~= head + Seq::new((i + 1) as nat, row));
        i = i + 1;
    }
    assert(texts(r@) =~= base + effect_lines(m@));
}

/// The lines on a machine; with its age where asked for.
pub fn show_machine(m: &MachineDefinition, dated: bool) -> (r: Vec<String>)
    ensures
        texts(r@) == machine_lines(m@, dated),
{
    let mut r: Vec<String> = Vec::new();
    assert(texts(r@) =~= Seq::<Seq<char>>::empty());
    add_line(&mut r, "Machine:      ".to_owned().concat(m.name.as_str()));
    add_line(
        &mut r,
        "Version:      ".to_owned().concat(decimal_of(m.version as u64).as_str()),
    );
    if dated {
        add_line(
            &mut r,
            "Created:      ".to_owned().concat(show_time(&m.created_at).as_str()).concat(" UTC"),
        );
    }
    add_line(&mut r, "Initial:      ".to_owned().concat(m.initial_state.as_str()));
    assert(texts(r@) =~= machine_head(m@, dated));
    add_states(&mut r, m);
    add_rules(&mut r, m);
    add_effects(&mut r, m);
    r
}

// ---------------------------------------------------------------------------
// Entities
// ---------------------------------------------------------------------------

/// The lines on an entity; with its age where asked for.
pub open spec fn entity_lines(s: EntityView, dated: bool) -> Seq<Seq<char>> {
    seq![
        "Entity:    "@ + s.entity_id,
        "Machine:   "@ + s.machine,
        "State:     "@ + s.current_state,
        "Version:   "@ + decimal(s.version as nat),
        "Updated:   "@ + time_shown(s.updated_at) + " UTC"@,
    ] + (if dated {
        seq!["Created:   "@ + time_shown(s.created_at) + " UTC"@]
    } else {
        Seq::<Seq<char>>::empty()
    })
}

/// The lines on an entity; with its age where asked for.
pub fn show_entity(s: &EntityState, dated: bool) -> (r: Vec<String>)
    ensures
        texts(r@) == entity_lines(s@, dated),
{
    let mut r: Vec<String> = Vec::new();
    assert(texts(r@) =~= Seq::<Seq<char>>::empty());
    add_line(&mut r, "Entity:    ".to_owned().concat(s.entity_id.as_str()));
    add_line(&mut r, "Machine:   ".to_owned().concat(s.machine.as_str()));
    add_line(&mut r, "State:     ".to_owned().concat(s.current_state.as_str()));
    add_line(&mut r, "Version:   ".to_owned().concat(decimal_of(s.version).as_str()));
    add_line(
        &mut r,
        "Updated:   ".to_owned().concat(show_time(&s.updated_at).as_str()).concat(" UTC"),
    );
    if dated {
        add_line(
            &mut r,
            "Created:   ".to_owned().concat(show_time(&s.created_at).as_str()).concat(" UTC"),
        );
    }
    assert(texts(r@) =~= entity_lines(s@, dated));
    r
}

/// How an entity stands in a machine, given what was found of it.
pub open spec fn standing_line(m: MachineView, found: Option<EntityView>) -> Seq<char> {
    match found {
        Some(s) => "  "@ + left(m.name, 30) + "  state="@ + left(s.current_state, 20) + "  v="@
            + decimal(s.version as nat),
        None => "  "@ + left(m.name, 30) + "  state="@ + left(m.initial_state, 20)
            + "  (not started)"@,
    }
}

/// What was found of an entity.
pub open spec fn found_in(r: Result<EntityState, EngineError>) -> Option<EntityView> {
    match r {
        Ok(s) => Some(s@),
        Err(_) => None,
    }
}

/// How an entity stands in a machine, given what was found of it.
pub fn show_standing(m: &MachineDefinition, found: &Result<EntityState, EngineError>) -> (r: String)
    ensures
        r@ == standing_line(m@, found_in(*found)),
{
    let name = "  ".to_owned().concat(at_left(m.name.as_str(), 30).as_str()).concat("  state=");
    match found {
        Ok(s) => name.concat(at_left(s.current_state.as_str(), 20).as_str()).concat("  v=").concat(
            decimal_of(s.version).as_str(),
        ),
        Err(_) => name.concat(at_left(m.initial_state.as_str(), 20).as_str()).concat(
            "  (not started)",
        ),
    }
}

// ---------------------------------------------------------------------------
// Histories
// ---------------------------------------------------------------------------

/// How a history is laid out.
#[derive(Debug, Clone, Copy)]
pub struct HistoryLayout {
    /// How wide the times are.
    pub time_width: usize,
    /// How long the rule below the headings is.
    pub rule: usize,
}

/// A row of a history.
pub open spec fn history_row(
    width: nat,
    sequence: Seq<char>,
    time: Seq<char>,
    event: Seq<char>,
    from: Seq<char>,
    to: Seq<char>,
    actor: Seq<char>,
) -> Seq<char> {
    right(sequence, 8) + "  "@ + left(time, width) + "  "@ + left(event, 20) + "  "@ + left(
        from,
        20,
    ) + "  "@ + left(to, 20) + "  "@ + actor
}

/// A row of a history.
fn show_history_row(
    width: usize,
    sequence: &str,
    time: &str,
    event: &str,
    from: &str,
    to: &str,
    actor: &str,
) -> (r: String)
    ensures
        r@ == history_row(width as nat, sequence@, time@, event@, from@, to@, actor@),
{
    at_right(sequence, 8).concat("  ").concat(at_left(time, width).as_str()).concat("  ").concat(
        at_left(event, 20).as_str(),
    ).concat("  ").concat(at_left(from, 20).as_str()).concat("  ").concat(
        at_left(to, 20).as_str(),
    ).concat("  ").concat(actor)
}

/// A history; `tail` ends the line that counts it.
pub open spec fn history_table(
    rs: Seq<RecordView>,
    layout: HistoryLayout,
    tail: Seq<char>,
) -> Seq<Seq<char>> {
    let w = layout.time_width as nat;
    seq![
        history_row(w, "Seq"@, "Timestamp"@, "Event"@, "From"@, "To"@, "Actor"@),
        repeated('-', layout.rule as nat),
    ] + Seq::new(
        rs.len(),
        |i: int|
            history_row(
                w,
                decimal(rs[i].sequence as nat),
                time_shown(rs[i].timestamp),
                rs[i].event,
                rs[i].from_state,
                rs[i].to_state,
                rs[i].actor,
            ),
    ) + seq![""@, decimal(rs.len()) + tail]
}

/// A history.
pub fn show_history(rs: &Vec<TransitionRecord>, layout: &HistoryLayout, tail: &str) -> (r: Vec<
    String,
>)
    ensures
        texts(r@) == history_table(record_views(rs@), *layout, tail@),
{
    let ghost views = record_views(rs@);
    let ghost w = layout.time_width as nat;
    let ghost row = |k: int|
        history_row(
            w,
            decimal(views[k].sequence as nat),
            time_shown(views[k].timestamp),
            views[k].event,
            views[k].from_state,
            views[k].to_state,
            views[k].actor,
        );
    let mut r: Vec<String> = Vec::new();
    assert(texts(r@) =~= Seq::<Seq<char>>::empty());
    add_line(
        &mut r,
        show_history_row(
            layout.time_width,
            "Seq",
            "Timestamp",
            "Event",
            "From",
            "To",
            "Actor",
        ),
    );
    add_line(&mut r, repeat_char('-', layout.rule));
    let ghost head = texts(r@);
    assert(texts(r@) =~= head + Seq::new(0, row));
    let mut i: usize = 0;
    while i < rs.len()
        invariant
            i <= rs@.len(),
            views == record_views(rs@),
            w == layout.time_width,
            row == (|k: int|
                history_row(
                    w,
                    decimal(views[k].sequence as nat),
                    time_shown(views[k].timestamp),
                    views[k].event,
                    views[k].from_state,
                    views[k].to_state,
                    views[k].actor,
                )),
            texts(r@) == head + Seq::new(i as nat, row),
        decreases rs@.len() - i,
    {
        let x = &rs[i];
        assert(views[i as int] == x@);
        add_line(
            &mut r,
            show_history_row(
                layout.time_width,
                decimal_of(x.sequence).as_str(),
                show_time(&x.timestamp).as_str(),
                x.event.as_str(),
                x.from_state.as_str(),
                x.to_state.as_str(),
                x.actor.as_str(),
            ),
        );
        assert(texts(r@) =~= head + Seq::new((i + 1) as nat, row));
        i = i + 1;
    }
    add_line(&mut r, "".to_owned());
    add_line(&mut r, decimal_of(rs.len() as u64).concat(tail));
    assert(texts(r@) =~= history_table(views, *layout, tail@));
    r
}

// ---------------------------------------------------------------------------
// Transitions
// ---------------------------------------------------------------------------

/// A transition, in one line.
pub open spec fn transition_line(t: ResultView) -> Seq<char> {
    "OK  "@ + t.from_state + " -> "@ + t.to_state + "  (v"@ + decimal(t.version as nat) + ", seq "@
        + decimal(t.sequence as nat) + ")"@
}

/// A transition, in one line.
pub fn show_transition(t: &TransitionResult) -> (r: String)
    ensures
        r@ == transition_line(t@),
{
    "OK  ".to_owned().concat(t.from_state.as_str()).concat(" -> ").concat(
        t.to_state.as_str(),
    ).concat("  (v").concat(decimal_of(t.version).as_str()).concat(", seq ").concat(
        decimal_of(t.sequence).as_str(),
    ).concat(")")
}

/// A transition, in full.
pub open spec fn transition_lines(t: ResultView) -> Seq<Seq<char>> {
    seq![
        "Transition applied successfully."@,
        "  Entity:    "@ + t.entity_id,
        "  Machine:   "@ + t.machine,
        "  From:      "@ + t.from_state,
        "  To:        "@ + t.to_state,
        "  Version:   "@ + decimal(t.version as nat),
        "  Seq:       "@ + decimal(t.sequence as nat),
        "  Txn ID:    "@ + t.transition_id,
        "  Timestamp: "@ + time_shown(t.timestamp) + " UTC"@,
    ]
}

/// A transition, in full.
pub fn show_transition_lines(t: &TransitionResult) -> (r: Vec<String>)
    ensures
        texts(r@) == transition_lines(t@),
{
    let mut r: Vec<String> = Vec::new();
    assert(texts(r@) =~= Seq::<Seq<char>>::empty());
    add_line(&mut r, "Transition applied successfully.".to_owned());
    add_line(&mut r, "  Entity:    ".to_owned().concat(t.entity_id.as_str()));
    add_line(&mut r, "  Machine:   ".to_owned().concat(t.machine.as_str()));
    add_line(&mut r, "  From:      ".to_owned().concat(t.from_state.as_str()));
    add_line(&mut r, "  To:        ".to_owned().concat(t.to_state.as_str()));
    add_line(&mut r, "  Version:   ".to_owned().concat(decimal_of(t.version).as_str()));
    add_line(&mut r, "  Seq:       ".to_owned().concat(decimal_of(t.sequence).as_str()));
    add_line(&mut r, "  Txn ID:    ".to_owned().concat(t.transition_id.as_str()));
    add_line(
        &mut r,
        "  Timestamp: ".to_owned().concat(show_time(&t.timestamp).as_str()).concat(" UTC"),
    );
    assert(texts(r@) =~= transition_lines(t@));
    r
}

} // verus!
