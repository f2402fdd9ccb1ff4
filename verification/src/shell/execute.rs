//! What a line of the shell does, and what it shows.
use crate::engine::engine::{defined, Engine};
use crate::engine::error::{EngineError, EngineErrorView};
use crate::engine::outcome::{
    came_of, definition_failed, entity_failed, history_failed, machines_failed, storing_failed,
    RequestView, ResultView, TransitionResult,
};
use crate::fsm::machine::{MachineDefinition, MachineView};
use crate::fsm::record::{record_views, EntityState, EntityView, RecordView, TransitionRecord};
use crate::proto::definition::{definition_in, read_definition};
use crate::shell::command::Cmd;
use crate::shell::layout::{add_line, repeat_char, repeated};
use crate::shell::show::{
    entity_lines, found_in, history_table, machine_lines, machine_table, machine_views, show_entity,
    show_history, show_machine, show_machine_table, show_standing, show_transition, standing_line,
    transition_line, HistoryLayout,
};
use crate::storage::engine::{entity_label, machine_label, StorageEngine};
use crate::storage::error::StorageErrorView;
use crate::storage::model::{entity_key, StoreModel};
use crate::text::{chars_of, string_of, texts};
use crate::wire::commands::{definition_view, transition_view};
use vstd::prelude::*;

verus! {

/// What a line shows.
#[derive(Debug)]
pub struct Shown {
    /// The lines to print.
    pub lines: Vec<String>,
    /// Whether the shell goes on.
    pub proceed: bool,
}

/// Whether the shell shows lines and goes on.
pub open spec fn shows(r: Result<Shown, String>, lines: Seq<Seq<char>>) -> bool {
    r matches Ok(s) && s.proceed && texts(s.lines@) == lines
}

/// Shows lines and goes on.
fn go_on(lines: Vec<String>) -> (r: Result<Shown, String>)
    ensures
        shows(r, texts(lines@)),
{
    Ok(Shown { lines, proceed: true })
}

/// A single line.
fn one_line(line: String) -> (r: Vec<String>)
    ensures
        texts(r@) == seq![line@],
{
    let mut r: Vec<String> = Vec::new();
    assert(texts(r@) =~= Seq::<Seq<char>>::empty());
    add_line(&mut r, line);
    assert(texts(r@) =~= seq![line@]);
    r
}

/// An error, as it is shown.
pub open spec fn error_lines(e: EngineErrorView) -> Seq<Seq<char>> {
    seq!["Error: "@ + e.message()]
}

/// An error, as it is shown.
pub fn show_error(e: &EngineError) -> (r: Vec<String>)
    ensures
        texts(r@) == error_lines(e@),
{
    one_line("Error: ".to_owned().concat(e.message().as_str()))
}

/// What `help` shows.
pub const HELP: &'static str = "
smash — StateMaster interactive shell

Data commands:
  transition <entity_id> <machine> <event>
             [--actor NAME] [--ctx '{\"k\":\"v\"}'] [--expect-version N]
  current    <entity_id> <machine>
  history    <entity_id> <machine> [--limit N]
  define     <json_string>    -- inline JSON MachineDefinition
  define     @<file>          -- load MachineDefinition from file

Meta commands:
  \\machines            list all machine definitions
  \\machine <name>      describe a specific machine
  \\entity  <id>        show all machine states for an entity
  \\help | \\h | \\?      show this help
  \\quit | \\q | \\exit   exit smash

Shortcuts:
  tr  = transition
  cur = current
  hist = history
  def = define
";

// ---------------------------------------------------------------------------
// Machines
// ---------------------------------------------------------------------------

/// A list of machines, given how it went to get it.
pub fn tell_machines(r: &Result<Vec<MachineDefinition>, EngineError>, tail: &str) -> (out: Result<
    Vec<String>,
    String,
>)
    ensures
        match (*r, out) {
            (Ok(ms), Ok(lines)) => texts(lines@) == machine_table(machine_views(ms@), tail@),
            (Err(e), Err(m)) => m@ == "listing machines: "@ + e@.message(),
            _ => false,
        },
{
    match r {
        Ok(ms) => Ok(show_machine_table(ms, tail)),
        Err(e) => Err("listing machines: ".to_owned().concat(e.message().as_str())),
    }
}

/// Whether the store failed to give the list of machines, and that is told.
pub open spec fn listing_failed<S: StorageEngine>(storage: S, r: Result<Shown, String>) -> bool {
    r matches Err(m) && exists|x: StorageErrorView| #[trigger]
        machines_failed(&storage, x) && m@ == "listing machines: "@ + EngineErrorView::Storage(
            x,
        ).message()
}

/// Whether the machines are shown.
pub open spec fn machines_shown(m: StoreModel, r: Result<Shown, String>) -> bool {
    exists|ms: Seq<MachineView>| #[trigger]
        m.lists_machines(ms) && shows(r, machine_table(ms, " machine(s)"@))
}

/// A machine, given how it went to get it.
pub fn tell_machine(r: &Result<MachineDefinition, EngineError>) -> (lines: Vec<String>)
    ensures
        texts(lines@) == (match *r {
            Ok(m) => machine_lines(m@, false),
            Err(e) => error_lines(e@),
        }),
{
    match r {
        Ok(m) => show_machine(m, false),
        Err(e) => show_error(e),
    }
}

/// Whether a machine is shown, or why it is not.
pub open spec fn machine_shown<S: StorageEngine>(
    storage: S,
    name: Seq<char>,
    r: Result<Shown, String>,
) -> bool {
    let m = storage.model();
    ||| exists|def: MachineView| #[trigger]
        m.finds_machine(name, None, def) && shows(r, machine_lines(def, false))
    ||| exists|x: StorageErrorView| #[trigger]
        definition_failed(&storage, name, None, x) && fault_shown(r, x)
    ||| !m.has_machine(name, None) && shows(
        r,
        error_lines(
            EngineErrorView::Storage(StorageErrorView::NotFound(machine_label(name, None))),
        ),
    )
}

/// Whether it is shown that the store failed with `x`.
pub open spec fn fault_shown(r: Result<Shown, String>, x: StorageErrorView) -> bool {
    shows(r, error_lines(EngineErrorView::Storage(x)))
}

// ---------------------------------------------------------------------------
// Entities
// ---------------------------------------------------------------------------

/// An entity, given how it went to get it.
pub fn tell_current(r: &Result<EntityState, EngineError>) -> (lines: Vec<String>)
    ensures
        texts(lines@) == (match *r {
            Ok(s) => entity_lines(s@, false),
            Err(e) => error_lines(e@),
        }),
{
    match r {
        Ok(s) => show_entity(s, false),
        Err(e) => show_error(e),
    }
}

/// Whether an entity is shown, or why it is not.
pub open spec fn current_shown<S: StorageEngine>(
    storage: S,
    entity_id: Seq<char>,
    machine: Seq<char>,
    r: Result<Shown, String>,
) -> bool {
    let m = storage.model();
    let key = entity_key(entity_id, machine);
    ||| m.entities.contains_key(key) && shows(r, entity_lines(m.entities[key], false))
    ||| exists|x: StorageErrorView| #[trigger]
        entity_failed(&storage, entity_id, machine, x) && fault_shown(r, x)
    ||| !m.entities.contains_key(key) && shows(
        r,
        error_lines(
            EngineErrorView::Storage(StorageErrorView::NotFound(entity_label(entity_id, machine))),
        ),
    )
}

/// Whether what was found of an entity is so. Nothing is found where there is
/// nothing, or where the store failed.
pub open spec fn is_found<S: StorageEngine>(
    storage: S,
    entity_id: Seq<char>,
    machine: Seq<char>,
    found: Option<EntityView>,
) -> bool {
    let key = entity_key(entity_id, machine);
    let entities = storage.model().entities;
    match found {
        Some(s) => entities.contains_key(key) && s == entities[key],
        None => !entities.contains_key(key) || exists|x: StorageErrorView| #[trigger]
            entity_failed(&storage, entity_id, machine, x),
    }
}

/// How an entity stands in machines, given what was found of it.
pub open spec fn standings(
    entity_id: Seq<char>,
    ms: Seq<MachineView>,
    found: Seq<Option<EntityView>>,
) -> Seq<Seq<char>> {
    seq!["Entity: "@ + entity_id, repeated('-', 60)] + Seq::new(
        ms.len(),
        |i: int| standing_line(ms[i], found[i]),
    ) + (if forall|i: int| 0 <= i < found.len() ==> (#[trigger] found[i]) is None {
        seq!["No state records found for entity '"@ + entity_id + "'."@]
    } else {
        Seq::<Seq<char>>::empty()
    })
}

/// Whether it is shown how an entity stands in each machine.
pub open spec fn standings_shown<S: StorageEngine>(
    storage: S,
    entity_id: Seq<char>,
    r: Result<Shown, String>,
) -> bool {
    let m = storage.model();
    exists|ms: Seq<MachineView>, found: Seq<Option<EntityView>>|
        #![trigger m.lists_machines(ms), standings(entity_id, ms, found)]
        m.lists_machines(ms) && found.len() == ms.len() && (forall|i: int|
            0 <= i < found.len() ==> is_found(storage, entity_id, ms[i].name, #[trigger] found[i]))
            && shows(
            r,
            if ms.len() == 0 {
                seq!["No machines defined."@]
            } else {
                standings(entity_id, ms, found)
            },
        )
}

/// Shows how an entity stands in each machine.
fn describe_entity<S: StorageEngine, G: Fn(&EntityState, &serde_json::Value) -> bool>(
    engine: &Engine<S, G>,
    entity_id: &str,
) -> (r: Result<Shown, String>)
    requires
        engine.wf(),
    ensures
        standings_shown(engine.store(), entity_id@, r) || listing_failed(engine.store(), r),
{
    let machines = match engine.list_machines() {
        Ok(ms) => ms,
        Err(e) => {
            assert(machines_failed(&engine.store(), e@->Storage_0));
            return Err("listing machines: ".to_owned().concat(e.message().as_str()));
        },
    };
    let ghost m = engine.model();
    let ghost ms = machine_views(machines@);
    assert(ms =~= Seq::new(machines@.len(), |i: int| machines@[i]@));
    let ghost mut found: Seq<Option<EntityView>> = Seq::empty();
    if machines.len() == 0 {
        let r = go_on(one_line("No machines defined.".to_owned()));
        assert(m.lists_machines(ms));
        assert(standings(entity_id@, ms, found) == standings(entity_id@, ms, found));
        return r;
    }
    let mut lines: Vec<String> = Vec::new();
    assert(texts(lines@) =~= Seq::<Seq<char>>::empty());
    add_line(&mut lines, "Entity: ".to_owned().concat(entity_id));
    add_line(&mut lines, repeat_char('-', 60));
    let ghost head = seq!["Entity: "@ + entity_id@, repeated('-', 60)];
    assert(texts(lines@) =~= head + Seq::new(0, |k: int| standing_line(ms[k], found[k])));
    let mut any = false;
    let mut i: usize = 0;
    while i < machines.len()
        invariant
            i <= machines@.len(),
            engine.wf(),
            m == engine.model(),
            ms == machine_views(machines@),
            found.len() == i,
            forall|k: int|
                0 <= k < i ==> is_found(engine.store(), entity_id@, ms[k].name, #[trigger] found[k]),
            any == exists|k: int| 0 <= k < i && (#[trigger] found[k]) is Some,
            texts(lines@) == head + Seq::new(i as nat, |k: int| standing_line(ms[k], found[k])),
        decreases machines@.len() - i,
    {
        let machine = &machines[i];
        assert(ms[i as int] == machine@);
        let r = engine.current(entity_id, machine.name.as_str());
        let ghost before = found;
        proof {
            found = found.push(found_in(r));
            assert forall|k: int| 0 <= k < i + 1 implies is_found(
                engine.store(),
                entity_id@,
                ms[k].name,
                #[trigger] found[k],
            ) by {
                if k < i {
                    assert(found[k] == before[k]);
                }
            }
        }
        add_line(&mut lines, show_standing(machine, &r));
        let ghost was = any;
        if r.is_ok() {
            any = true;
        }
        proof {
            assert(found[i as int] is Some <==> r is Ok);
            assert(forall|k: int| 0 <= k < i ==> found[k] == #[trigger] before[k]);
            if was {
                let k = choose|k: int| 0 <= k < i && (#[trigger] before[k]) is Some;
                assert(found[k] is Some);
            }
            if exists|k: int| 0 <= k < i + 1 && (#[trigger] found[k]) is Some {
                let k = choose|k: int| 0 <= k < i + 1 && (#[trigger] found[k]) is Some;
                if k < i {
                    assert(before[k] is Some);
                }
            }
            assert(texts(lines@) =~= head + Seq::new(
                (i + 1) as nat,
                |k: int| standing_line(ms[k], found[k]),
            ));
        }
        i = i + 1;
    }
    if !any {
        add_line(
            &mut lines,
            "No state records found for entity '".to_owned().concat(entity_id).concat("'."),
        );
    }
    assert(texts(lines@) =~= standings(entity_id@, ms, found));
    let r = go_on(lines);
    assert(m.lists_machines(ms));
    r
}

// ---------------------------------------------------------------------------
// Histories
// ---------------------------------------------------------------------------

/// How the shell lays a history out.
pub open spec fn shell_layout() -> HistoryLayout {
    HistoryLayout { time_width: 20, rule: 100 }
}

/// The lines on a history.
pub open spec fn history_lines(
    entity_id: Seq<char>,
    machine: Seq<char>,
    rs: Seq<RecordView>,
) -> Seq<Seq<char>> {
    if rs.len() == 0 {
        seq!["No history for '"@ + entity_id + "' in '"@ + machine + "'."@]
    } else {
        history_table(rs, shell_layout(), " record(s)"@)
    }
}

/// Whether a history is shown, or that the store failed to give it.
pub open spec fn history_shown<S: StorageEngine>(
    storage: S,
    entity_id: Seq<char>,
    machine: Seq<char>,
    limit: Option<u32>,
    r: Result<Shown, String>,
) -> bool {
    ||| exists|x: StorageErrorView| #[trigger]
        history_failed(&storage, entity_id, machine, limit, None, x) && fault_shown(r, x)
    ||| shows(
        r,
        history_lines(
            entity_id,
            machine,
            storage.model().history(entity_id, machine, limit, None),
        ),
    )
}

/// A history, given how it went to get it.
pub fn tell_history(
    entity_id: &str,
    machine: &str,
    r: &Result<Vec<TransitionRecord>, EngineError>,
) -> (lines: Vec<String>)
    ensures
        texts(lines@) == (match *r {
            Ok(rs) => history_lines(entity_id@, machine@, record_views(rs@)),
            Err(e) => error_lines(e@),
        }),
{
    match r {
        Ok(rs) => if rs.len() == 0 {
            one_line(
                "No history for '".to_owned().concat(entity_id).concat("' in '").concat(
                    machine,
                ).concat("'."),
            )
        } else {
            show_history(rs, &HistoryLayout { time_width: 20, rule: 100 }, " record(s)")
        },
        Err(e) => show_error(e),
    }
}

// ---------------------------------------------------------------------------
// Definitions
// ---------------------------------------------------------------------------

/// Where the definition comes from that a line names: a file, after an `@`, or
/// the line itself.
pub fn definition_file(source: &str) -> (r: Option<String>)
    ensures
        match r {
            Some(path) => source@.len() > 0 && source@[0] == '@' && path@ == source@.skip(1),
            None => source@.len() == 0 || source@[0] != '@',
        },
{
    let chars = chars_of(source);
    if chars.len() > 0 && chars[0] == '@' {
        assert(source@.subrange(1, source@.len() as int) =~= source@.skip(1));
        Some(string_of(&chars, 1, chars.len()))
    } else {
        None
    }
}

/// What became of a definition, as it is shown.
pub open spec fn definition_lines(name: Seq<char>, r: Result<(), EngineErrorView>) -> Seq<
    Seq<char>,
> {
    match r {
        Ok(()) => seq!["Machine '"@ + name + "' defined."@],
        Err(e) => error_lines(e),
    }
}

/// What became of a definition, as it is shown.
pub fn tell_definition(name: &str, r: &Result<(), EngineError>) -> (lines: Vec<String>)
    ensures
        texts(lines@) == definition_lines(name@, definition_view(*r)),
{
    match r {
        Ok(()) => one_line("Machine '".to_owned().concat(name).concat("' defined.")),
        Err(e) => show_error(e),
    }
}

/// Whether it is shown why a text is no definition.
pub open spec fn not_a_definition(r: Result<Shown, String>, why: Seq<char>) -> bool {
    shows(r, seq!["Invalid MachineDefinition JSON: "@ + why])
}

/// Whether a definition was taken or refused, and that is shown. It comes to
/// nothing only where the store failed.
pub open spec fn definition_shown<S: StorageEngine>(
    storage: S,
    m1: StoreModel,
    def: MachineView,
    r: Result<Shown, String>,
) -> bool {
    exists|out: Result<(), EngineErrorView>| #[trigger]
        defined(storage.model(), m1, def, out) && shows(r, definition_lines(def.name, out)) && (
        out matches Err(e) ==> e.is_fault() ==> storing_failed(storage, def, e->Storage_0))
}

/// What a definition does, given its text.
pub open spec fn define_executed<S: StorageEngine>(
    storage: S,
    m1: StoreModel,
    text: Seq<char>,
    r: Result<Shown, String>,
) -> bool {
    match definition_in(text) {
        Ok(def) => definition_shown(storage, m1, def, r),
        Err(why) => m1 == storage.model() && not_a_definition(r, why),
    }
}

/// Complains of a text that is no definition.
fn complain(why: &str) -> (r: Result<Shown, String>)
    ensures
        not_a_definition(r, why@),
{
    go_on(one_line("Invalid MachineDefinition JSON: ".to_owned().concat(why)))
}

/// Registers a definition, given its text.
pub fn define_text<S: StorageEngine, G: Fn(&EntityState, &serde_json::Value) -> bool>(
    engine: &mut Engine<S, G>,
    text: &str,
) -> (r: Result<Shown, String>)
    requires
        old(engine).wf(),
    ensures
        final(engine).wf(),
        final(engine).same_but_store(old(engine)),
        define_executed(old(engine).store(), final(engine).model(), text@, r),
{
    let def = match read_definition(text) {
        Ok(def) => def,
        Err(why) => {
            return complain(why.as_str());
        },
    };
    let ghost s0 = engine.store();
    let ghost view = def@;
    let name = def.name.clone();
    let out = engine.define_machine(def);
    assert(defined(s0.model(), engine.model(), view, definition_view(out)));
    go_on(tell_definition(name.as_str(), &out))
}

// ---------------------------------------------------------------------------
// Transitions
// ---------------------------------------------------------------------------

/// What became of a transition, as it is shown.
pub open spec fn outcome_lines(r: Result<ResultView, EngineErrorView>) -> Seq<Seq<char>> {
    match r {
        Ok(t) => seq![transition_line(t)],
        Err(e) => error_lines(e),
    }
}

/// What became of a transition, as it is shown.
pub fn tell_transition(r: &Result<TransitionResult, EngineError>) -> (lines: Vec<String>)
    ensures
        texts(lines@) == outcome_lines(transition_view(*r)),
{
    match r {
        Ok(t) => one_line(show_transition(t)),
        Err(e) => show_error(e),
    }
}

/// Whether a transition was made or refused, and that is shown.
pub open spec fn transition_shown<
    S: StorageEngine,
    G: Fn(&EntityState, &serde_json::Value) -> bool,
>(
    storage: S,
    m1: StoreModel,
    guards: Map<Seq<char>, G>,
    stopped: bool,
    q: RequestView,
    r: Result<Shown, String>,
) -> bool {
    exists|out: Result<ResultView, EngineErrorView>| #[trigger]
        came_of(storage, m1, guards, stopped, q, out) && shows(r, outcome_lines(out))
}

// ---------------------------------------------------------------------------
// Lines
// ---------------------------------------------------------------------------

/// Whether the shell takes its leave.
pub open spec fn says_goodbye(r: Result<Shown, String>) -> bool {
    r matches Ok(s) && !s.proceed && texts(s.lines@) == seq!["Goodbye."@]
}

/// What a line does.
pub open spec fn executed<S: StorageEngine, G: Fn(&EntityState, &serde_json::Value) -> bool>(
    e0: Engine<S, G>,
    e1: Engine<S, G>,
    cmd: Cmd,
    r: Result<Shown, String>,
) -> bool {
    let m = e0.model();
    match cmd {
        Cmd::Empty => e1 == e0 && shows(r, Seq::empty()),
        Cmd::Quit => e1 == e0 && says_goodbye(r),
        Cmd::Help => e1 == e0 && shows(r, seq![HELP@]),
        Cmd::ListMachines => e1 == e0 && (machines_shown(m, r) || listing_failed(
            e0.store(),
            r,
        )),
        Cmd::DescribeMachine { name } => e1 == e0 && machine_shown(e0.store(), name@, r),
        Cmd::DescribeEntity { entity_id } => e1 == e0 && (standings_shown(e0.store(), entity_id@, r)
            || listing_failed(e0.store(), r)),
        Cmd::Current { entity_id, machine } => e1 == e0 && current_shown(
            e0.store(),
            entity_id@,
            machine@,
            r,
        ),
        Cmd::History { entity_id, machine, limit } => e1 == e0 && history_shown(
            e0.store(),
            entity_id@,
            machine@,
            limit,
            r,
        ),
        Cmd::Define { source } => e1.same_but_store(&e0) && define_executed(
            e0.store(),
            e1.model(),
            source@,
            r,
        ),
        Cmd::Transition { entity_id, machine, event, actor, ctx, expect_version } => {
            &&& e1.same_but_store(&e0)
            &&& transition_shown(
                e0.store(),
                e1.model(),
                e0.guard_map(),
                e0.stopped(),
                RequestView {
                    entity_id: entity_id@,
                    machine: machine@,
                    event: event@,
                    actor: actor@,
                    ctx,
                    expected_version: expect_version,
                    idempotency_key: None,
                },
                r,
            )
        },
    }
}

/// Does what a line asks for. The source of a definition is taken for its text.
pub fn execute<S: StorageEngine, G: Fn(&EntityState, &serde_json::Value) -> bool>(
    cmd: Cmd,
    engine: &mut Engine<S, G>,
) -> (r: Result<Shown, String>)
    requires
        old(engine).wf(),
    ensures
        final(engine).wf(),
        executed(*old(engine), *final(engine), cmd, r),
{
    let ghost m = engine.model();
    let ghost store = engine.store();
    match cmd {
        Cmd::Empty => {
            let lines: Vec<String> = Vec::new();
            assert(texts(lines@) =~= Seq::<Seq<char>>::empty());
            go_on(lines)
        },
        Cmd::Quit => Ok(Shown { lines: one_line("Goodbye.".to_owned()), proceed: false }),
        Cmd::Help => go_on(one_line(HELP.to_owned())),
        Cmd::ListMachines => {
            let found = engine.list_machines();
            let out = tell_machines(&found, " machine(s)");
            proof {
                if found is Ok {
                    let v = found->Ok_0;
                    assert(machine_views(v@) =~= Seq::new(v@.len(), |i: int| v@[i]@));
                    assert(m.lists_machines(machine_views(v@)));
                } else {
                    assert(machines_failed(&store, found->Err_0@->Storage_0));
                }
            }
            match out {
                Ok(lines) => go_on(lines),
                Err(e) => Err(e),
            }
        },
        Cmd::DescribeMachine { name } => {
            let found = engine.get_machine(name.as_str());
            let r = go_on(tell_machine(&found));
            proof {
                if found is Ok {
                    assert(m.finds_machine(name@, None, found->Ok_0@));
                } else if found->Err_0@.is_fault() {
                    let x = found->Err_0@->Storage_0;
                    assert(definition_failed(&store, name@, None, x) && fault_shown(r, x));
                }
            }
            r
        },
        Cmd::DescribeEntity { entity_id } => describe_entity(engine, entity_id.as_str()),
        Cmd::Current { entity_id, machine } => {
            let found = engine.current(entity_id.as_str(), machine.as_str());
            let r = go_on(tell_current(&found));
            proof {
                if found is Err && found->Err_0@.is_fault() {
                    let x = found->Err_0@->Storage_0;
                    assert(entity_failed(&store, entity_id@, machine@, x) && fault_shown(r, x));
                }
            }
            r
        },
        Cmd::History { entity_id, machine, limit } => {
            let found = engine.history(entity_id.as_str(), machine.as_str(), limit, None);
            let r = go_on(tell_history(entity_id.as_str(), machine.as_str(), &found));
            proof {
                if found is Err {
                    let x = found->Err_0@->Storage_0;
                    assert(history_failed(&store, entity_id@, machine@, limit, None, x));
                    assert(fault_shown(r, x));
                }
            }
            r
        },
        Cmd::Define { source } => define_text(engine, source.as_str()),
        Cmd::Transition { entity_id, machine, event, actor, ctx, expect_version } => {
            let ghost q = RequestView {
                entity_id: entity_id@,
                machine: machine@,
                event: event@,
                actor: actor@,
                ctx,
                expected_version: expect_version,
                idempotency_key: None,
            };
            let out = engine.transition(
                entity_id.as_str(),
                machine.as_str(),
                event.as_str(),
                actor.as_str(),
                ctx,
                expect_version,
                None,
            );
            assert(came_of(
                store,
                engine.model(),
                engine.guard_map(),
                engine.stopped(),
                q,
                transition_view(out),
            ));
            go_on(tell_transition(&out))
        },
    }
}

/// Only a definition or a transition changes what is stored.
pub proof fn law_questions_change_nothing<
    S: StorageEngine,
    G: Fn(&EntityState, &serde_json::Value) -> bool,
>(e0: Engine<S, G>, e1: Engine<S, G>, cmd: Cmd, r: Result<Shown, String>)
    requires
        executed(e0, e1, cmd, r),
        !(cmd is Define),
        !(cmd is Transition),
    ensures
        e1 == e0,
{
}

} // verus!
