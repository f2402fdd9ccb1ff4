//! The command-line tool: what each command does, and what it prints.
use crate::engine::engine::{defined, Engine};
use crate::engine::error::{EngineError, EngineErrorView};
use crate::engine::outcome::{
    came_of, definition_failed, entity_failed, history_failed, machines_failed, storing_failed,
    RequestView, ResultView, TransitionResult,
};
use crate::fsm::machine::{MachineDefinition, MachineView};
use crate::fsm::record::{record_views, EntityState, RecordView, TransitionRecord};
use crate::json::{json_at, json_fault, json_view, object, parse, Json};
use crate::proto::definition::{definition_in, read_definition};
use crate::shell::execute::tell_machines;
use crate::shell::layout::{add_line, repeat_char, repeated};
use crate::shell::show::{
    entity_lines, history_table, machine_lines, machine_table, machine_views, show_entity,
    show_history, show_machine, show_transition_lines, transition_lines, HistoryLayout,
};
use crate::storage::engine::{entity_label, machine_label, StorageEngine};
use crate::storage::error::StorageErrorView;
use crate::storage::model::{entity_key, StoreModel};
use crate::text::texts;
use crate::wire::commands::{definition_view, transition_view};
use vstd::prelude::*;

verus! {

/// A command of the tool.
#[derive(Debug)]
pub enum CtlCommand {
    /// List all machines.
    Machines,
    /// Describe a machine.
    Machine { name: String },
    /// Tell the state of an entity.
    Current { entity_id: String, machine: String },
    /// Tell the history of an entity.
    History { entity_id: String, machine: String, limit: Option<u32> },
    /// Register the definition with this text, from a file of this name.
    Define { file: String, text: String },
    /// Fire an event on an entity.
    Transition {
        entity_id: String,
        machine: String,
        event: String,
        actor: String,
        ctx: Option<String>,
        expected_version: Option<u64>,
    },
}

/// Whether lines are printed.
pub open spec fn prints(r: Result<Vec<String>, String>, lines: Seq<Seq<char>>) -> bool {
    r matches Ok(v) && texts(v@) == lines
}

/// Whether a command failed: at what, and why.
pub open spec fn fails(r: Result<Vec<String>, String>, at: Seq<char>, why: Seq<char>) -> bool {
    r matches Err(e) && e@ == at + ": "@ + why
}

/// Whether a command failed at something because the store failed with `x`.
pub open spec fn fails_by_fault(
    r: Result<Vec<String>, String>,
    at: Seq<char>,
    x: StorageErrorView,
) -> bool {
    fails(r, at, EngineErrorView::Storage(x).message())
}

/// A command that failed.
fn failed(at: String, e: &EngineError) -> (r: Result<Vec<String>, String>)
    ensures
        fails(r, at@, e@.message()),
{
    Err(at.concat(": ").concat(e.message().as_str()))
}

/// What the tool says of its surroundings.
pub fn status_lines(addr: &str, data_dir: &str, db_file: &str, exists: bool) -> (r: Vec<String>)
    ensures
        texts(r@) == seq![
            "addr:     "@ + addr@ + " (local mode)"@,
            "data_dir: "@ + data_dir@,
            "db_file:  "@ + db_file@,
            "db_exists: "@ + (if exists {
                "yes"@
            } else {
                "no"@
            }),
        ],
{
    let mut r: Vec<String> = Vec::new();
    assert(texts(r@) =~= Seq::<Seq<char>>::empty());
    add_line(&mut r, "addr:     ".to_owned().concat(addr).concat(" (local mode)"));
    add_line(&mut r, "data_dir: ".to_owned().concat(data_dir));
    add_line(&mut r, "db_file:  ".to_owned().concat(db_file));
    add_line(
        &mut r,
        "db_exists: ".to_owned().concat(
            if exists {
                "yes"
            } else {
                "no"
            },
        ),
    );
    assert(texts(r@) =~= seq![
        "addr:     "@ + addr@ + " (local mode)"@,
        "data_dir: "@ + data_dir@,
        "db_file:  "@ + db_file@,
        "db_exists: "@ + (if exists {
            "yes"@
        } else {
            "no"@
        }),
    ]);
    r
}

// ---------------------------------------------------------------------------
// Machines
// ---------------------------------------------------------------------------

/// A machine between two rules.
pub open spec fn framed_machine(m: MachineView) -> Seq<Seq<char>> {
    seq![repeated('-', 60)] + machine_lines(m, true) + seq![repeated('-', 60)]
}

/// A machine, given how it went to get it.
pub fn print_machine(name: &str, r: &Result<MachineDefinition, EngineError>) -> (out: Result<
    Vec<String>,
    String,
>)
    ensures
        match *r {
            Ok(m) => prints(out, framed_machine(m@)),
            Err(e) => fails(out, "getting machine '"@ + name@ + "'"@, e@.message()),
        },
{
    match r {
        Ok(m) => {
            let mut lines: Vec<String> = Vec::new();
            assert(texts(lines@) =~= Seq::<Seq<char>>::empty());
            add_line(&mut lines, repeat_char('-', 60));
            let inner = show_machine(m, true);
            let mut i: usize = 0;
            let ghost head = seq![repeated('-', 60)];
            let ghost body = texts(inner@);
            assert(texts(lines@) =~= head + body.take(0));
            while i < inner.len()
                invariant
                    i <= inner@.len(),
                    body == texts(inner@),
                    texts(lines@) == head + body.take(i as int),
                decreases inner@.len() - i,
            {
                assert(body[i as int] == inner@[i as int]@);
                add_line(&mut lines, inner[i].clone());
                assert(texts(lines@) =~= head + body.take(i + 1));
                i = i + 1;
            }
            assert(body.take(i as int) =~= body);
            add_line(&mut lines, repeat_char('-', 60));
            assert(texts(lines@) =~= framed_machine(m@));
            Ok(lines)
        },
        Err(e) => failed("getting machine '".to_owned().concat(name).concat("'"), e),
    }
}

/// Whether a machine is printed, or why it is not.
pub open spec fn machine_printed<S: StorageEngine>(
    storage: S,
    name: Seq<char>,
    r: Result<Vec<String>, String>,
) -> bool {
    let m = storage.model();
    let at = "getting machine '"@ + name + "'"@;
    ||| exists|def: MachineView| #[trigger]
        m.finds_machine(name, None, def) && prints(r, framed_machine(def))
    ||| exists|x: StorageErrorView| #[trigger]
        definition_failed(&storage, name, None, x) && fails_by_fault(r, at, x)
    ||| !m.has_machine(name, None) && fails(
        r,
        at,
        EngineErrorView::Storage(StorageErrorView::NotFound(machine_label(name, None))).message(),
    )
}

// ---------------------------------------------------------------------------
// Entities
// ---------------------------------------------------------------------------

/// An entity, given how it went to get it.
pub fn print_current(
    entity_id: &str,
    machine: &str,
    r: &Result<EntityState, EngineError>,
) -> (out: Result<Vec<String>, String>)
    ensures
        match *r {
            Ok(s) => prints(out, entity_lines(s@, true)),
            Err(e) => fails(
                out,
                "getting current state for '"@ + entity_id@ + "' in '"@ + machine@ + "'"@,
                e@.message(),
            ),
        },
{
    match r {
        Ok(s) => Ok(show_entity(s, true)),
        Err(e) => failed(
            "getting current state for '".to_owned().concat(entity_id).concat("' in '").concat(
                machine,
            ).concat("'"),
            e,
        ),
    }
}

/// Whether an entity is printed, or why it is not.
pub open spec fn current_printed<S: StorageEngine>(
    storage: S,
    entity_id: Seq<char>,
    machine: Seq<char>,
    r: Result<Vec<String>, String>,
) -> bool {
    let m = storage.model();
    let key = entity_key(entity_id, machine);
    let at = "getting current state for '"@ + entity_id + "' in '"@ + machine + "'"@;
    ||| m.entities.contains_key(key) && prints(r, entity_lines(m.entities[key], true))
    ||| exists|x: StorageErrorView| #[trigger]
        entity_failed(&storage, entity_id, machine, x) && fails_by_fault(r, at, x)
    ||| !m.entities.contains_key(key) && fails(
        r,
        at,
        EngineErrorView::Storage(
            StorageErrorView::NotFound(entity_label(entity_id, machine)),
        ).message(),
    )
}

// ---------------------------------------------------------------------------
// Histories
// ---------------------------------------------------------------------------

/// The lines on a history.
pub open spec fn history_printout(
    entity_id: Seq<char>,
    machine: Seq<char>,
    rs: Seq<RecordView>,
) -> Seq<Seq<char>> {
    if rs.len() == 0 {
        seq!["No history found for '"@ + entity_id + "' in '"@ + machine + "'."@]
    } else {
        history_table(rs, (HistoryLayout { time_width: 22, rule: 60 }), " record(s)."@)
    }
}

/// A history, given how it went to get it.
pub fn print_history(
    entity_id: &str,
    machine: &str,
    r: &Result<Vec<TransitionRecord>, EngineError>,
) -> (out: Result<Vec<String>, String>)
    ensures
        match *r {
            Ok(rs) => prints(out, history_printout(entity_id@, machine@, record_views(rs@))),
            Err(e) => fails(
                out,
                "getting history for '"@ + entity_id@ + "' in '"@ + machine@ + "'"@,
                e@.message(),
            ),
        },
{
    match r {
        Ok(rs) => if rs.len() == 0 {
            let mut lines: Vec<String> = Vec::new();
            assert(texts(lines@) =~= Seq::<Seq<char>>::empty());
            add_line(
                &mut lines,
                "No history found for '".to_owned().concat(entity_id).concat("' in '").concat(
                    machine,
                ).concat("'."),
            );
            assert(texts(lines@) =~= history_printout(entity_id@, machine@, record_views(rs@)));
            Ok(lines)
        } else {
            Ok(show_history(rs, &HistoryLayout { time_width: 22, rule: 60 }, " record(s)."))
        },
        Err(e) => failed(
            "getting history for '".to_owned().concat(entity_id).concat("' in '").concat(
                machine,
            ).concat("'"),
            e,
        ),
    }
}

// ---------------------------------------------------------------------------
// Definitions
// ---------------------------------------------------------------------------

/// What became of a definition.
pub fn print_definition(name: &str, r: &Result<(), EngineError>) -> (out: Result<
    Vec<String>,
    String,
>)
    ensures
        match *r {
            Ok(()) => prints(out, seq!["Machine '"@ + name@ + "' defined successfully."@]),
            Err(e) => fails(out, "defining machine '"@ + name@ + "'"@, e@.message()),
        },
{
    match r {
        Ok(()) => {
            let mut lines: Vec<String> = Vec::new();
            assert(texts(lines@) =~= Seq::<Seq<char>>::empty());
            add_line(
                &mut lines,
                "Machine '".to_owned().concat(name).concat("' defined successfully."),
            );
            assert(texts(lines@) =~= seq!["Machine '"@ + name@ + "' defined successfully."@]);
            Ok(lines)
        },
        Err(e) => failed("defining machine '".to_owned().concat(name).concat("'"), e),
    }
}

/// Whether a definition was taken or refused, and that is printed. It comes to
/// nothing only where the store failed.
pub open spec fn definition_printed<S: StorageEngine>(
    storage: S,
    m1: StoreModel,
    def: MachineView,
    r: Result<Vec<String>, String>,
) -> bool {
    exists|out: Result<(), EngineErrorView>| #[trigger]
        defined(storage.model(), m1, def, out) && (out matches Err(e) ==> e.is_fault()
            ==> storing_failed(storage, def, e->Storage_0)) && match out {
            Ok(()) => prints(r, seq!["Machine '"@ + def.name + "' defined successfully."@]),
            Err(e) => fails(r, "defining machine '"@ + def.name + "'"@, e.message()),
        }
}

/// Whether a command failed at reading a definition.
pub open spec fn not_a_definition(
    r: Result<Vec<String>, String>,
    file: Seq<char>,
    why: Seq<char>,
) -> bool {
    fails(r, "parsing MachineDefinition from '"@ + file + "'"@, why)
}

/// Registers the definition with a text.
fn define<S: StorageEngine, G: Fn(&EntityState, &serde_json::Value) -> bool>(
    engine: &mut Engine<S, G>,
    file: &str,
    text: &str,
) -> (r: Result<Vec<String>, String>)
    requires
        old(engine).wf(),
    ensures
        final(engine).wf(),
        final(engine).same_but_store(old(engine)),
        define_ran(old(engine).store(), final(engine).model(), file@, text@, r),
{
    let at = "parsing MachineDefinition from '".to_owned().concat(file).concat("'");
    let def = match read_definition(text) {
        Ok(def) => def,
        Err(why) => {
            return Err(at.concat(": ").concat(why.as_str()));
        },
    };
    let ghost s0 = engine.store();
    let ghost view = def@;
    let name = def.name.clone();
    let out = engine.define_machine(def);
    assert(defined(s0.model(), engine.model(), view, definition_view(out)));
    print_definition(name.as_str(), &out)
}

/// What a definition does, given its text.
pub open spec fn define_ran<S: StorageEngine>(
    storage: S,
    m1: StoreModel,
    file: Seq<char>,
    text: Seq<char>,
    r: Result<Vec<String>, String>,
) -> bool {
    match definition_in(text) {
        Ok(def) => definition_printed(storage, m1, def, r),
        Err(why) => m1 == storage.model() && not_a_definition(r, file, why),
    }
}

// ---------------------------------------------------------------------------
// Transitions
// ---------------------------------------------------------------------------

/// What a failed transition is called.
pub open spec fn firing(event: Seq<char>, entity_id: Seq<char>, machine: Seq<char>) -> Seq<char> {
    "firing '"@ + event + "' on '"@ + entity_id + "' in '"@ + machine + "'"@
}

/// What became of a transition.
pub fn print_transition(
    event: &str,
    entity_id: &str,
    machine: &str,
    r: &Result<TransitionResult, EngineError>,
) -> (out: Result<Vec<String>, String>)
    ensures
        match transition_view(*r) {
            Ok(t) => prints(out, transition_lines(t)),
            Err(e) => fails(out, firing(event@, entity_id@, machine@), e.message()),
        },
{
    match r {
        Ok(t) => Ok(show_transition_lines(t)),
        Err(e) => failed(
            "firing '".to_owned().concat(event).concat("' on '").concat(entity_id).concat(
                "' in '",
            ).concat(machine).concat("'"),
            e,
        ),
    }
}

/// The context that a text stands for; without a text it is empty.
pub open spec fn context_in(ctx: Option<String>) -> Option<Json> {
    match ctx {
        Some(s) => json_at(s@),
        None => Some(Json::Object(Map::empty())),
    }
}

/// Whether a transition was made or refused, and that is printed.
pub open spec fn transition_printed<
    S: StorageEngine,
    G: Fn(&EntityState, &serde_json::Value) -> bool,
>(
    storage: S,
    m1: StoreModel,
    guards: Map<Seq<char>, G>,
    stopped: bool,
    q: RequestView,
    r: Result<Vec<String>, String>,
) -> bool {
    exists|out: Result<ResultView, EngineErrorView>| #[trigger]
        came_of(storage, m1, guards, stopped, q, out) && match out {
            Ok(t) => prints(r, transition_lines(t)),
            Err(e) => fails(r, firing(q.event, q.entity_id, q.machine), e.message()),
        }
}

/// Whether a command failed at reading a context.
pub open spec fn not_a_context(r: Result<Vec<String>, String>, text: Seq<char>) -> bool {
    fails(r, "parsing ctx JSON: "@ + text, json_fault(text))
}

/// What a transition does.
pub open spec fn transition_ran<S: StorageEngine, G: Fn(&EntityState, &serde_json::Value) -> bool>(
    e0: Engine<S, G>,
    e1: Engine<S, G>,
    entity_id: Seq<char>,
    machine: Seq<char>,
    event: Seq<char>,
    actor: Seq<char>,
    ctx: Option<String>,
    expected_version: Option<u64>,
    r: Result<Vec<String>, String>,
) -> bool {
    if context_in(ctx) is None {
        e1 == e0 && not_a_context(r, ctx->0@)
    } else {
        e1.same_but_store(&e0) && exists|value: serde_json::Value|
            #![trigger json_view(value)]
            json_view(value) == context_in(ctx)->0 && transition_printed(
                e0.store(),
                e1.model(),
                e0.guard_map(),
                e0.stopped(),
                RequestView {
                    entity_id,
                    machine,
                    event,
                    actor,
                    ctx: value,
                    expected_version,
                    idempotency_key: None,
                },
                r,
            )
    }
}

/// Fires an event on an entity.
fn fire<S: StorageEngine, G: Fn(&EntityState, &serde_json::Value) -> bool>(
    engine: &mut Engine<S, G>,
    entity_id: &str,
    machine: &str,
    event: &str,
    actor: &str,
    ctx: &Option<String>,
    expected_version: Option<u64>,
) -> (r: Result<Vec<String>, String>)
    requires
        old(engine).wf(),
    ensures
        final(engine).wf(),
        transition_ran(
            *old(engine),
            *final(engine),
            entity_id@,
            machine@,
            event@,
            actor@,
            *ctx,
            expected_version,
            r,
        ),
{
    let value = match ctx {
        Some(s) => match parse(s.as_str()) {
            Ok(v) => v,
            Err(e) => {
                let at = "parsing ctx JSON: ".to_owned().concat(s.as_str());
                let r: Result<Vec<String>, String> = Err(at.concat(": ").concat(e.as_str()));
                assert(fails(r, "parsing ctx JSON: "@ + s@, e@));
                return r;
            },
        },
        None => object(),
    };
    let ghost s0 = engine.store();
    let ghost q = RequestView {
        entity_id: entity_id@,
        machine: machine@,
        event: event@,
        actor: actor@,
        ctx: value,
        expected_version,
        idempotency_key: None,
    };
    assert(json_view(value) == context_in(*ctx)->0);
    let out = engine.transition(entity_id, machine, event, actor, value, expected_version, None);
    assert(came_of(
        s0,
        engine.model(),
        engine.guard_map(),
        engine.stopped(),
        q,
        transition_view(out),
    ));
    print_transition(event, entity_id, machine, &out)
}

// ---------------------------------------------------------------------------
// Commands
// ---------------------------------------------------------------------------

/// Whether all machines are printed.
pub open spec fn machines_printed(m: StoreModel, r: Result<Vec<String>, String>) -> bool {
    exists|ms: Seq<MachineView>| #[trigger]
        m.lists_machines(ms) && prints(r, machine_table(ms, " machine(s) total."@))
}

/// Whether the store failed to give the list of machines, and the command says
/// so.
pub open spec fn listing_unprinted<S: StorageEngine>(
    storage: S,
    r: Result<Vec<String>, String>,
) -> bool {
    exists|x: StorageErrorView| #[trigger]
        machines_failed(&storage, x) && fails_by_fault(r, "listing machines"@, x)
}

/// Whether a history is printed, or that the store failed to give it.
pub open spec fn history_printed<S: StorageEngine>(
    storage: S,
    entity_id: Seq<char>,
    machine: Seq<char>,
    limit: Option<u32>,
    r: Result<Vec<String>, String>,
) -> bool {
    let at = "getting history for '"@ + entity_id + "' in '"@ + machine + "'"@;
    ||| exists|x: StorageErrorView| #[trigger]
        history_failed(&storage, entity_id, machine, limit, None, x) && fails_by_fault(r, at, x)
    ||| prints(
        r,
        history_printout(
            entity_id,
            machine,
            storage.model().history(entity_id, machine, limit, None),
        ),
    )
}

/// What a command does.
pub open spec fn ran<S: StorageEngine, G: Fn(&EntityState, &serde_json::Value) -> bool>(
    e0: Engine<S, G>,
    e1: Engine<S, G>,
    command: CtlCommand,
    r: Result<Vec<String>, String>,
) -> bool {
    let m = e0.model();
    match command {
        CtlCommand::Machines => e1 == e0 && (machines_printed(m, r) || listing_unprinted(
            e0.store(),
            r,
        )),
        CtlCommand::Machine { name } => e1 == e0 && machine_printed(e0.store(), name@, r),
        CtlCommand::Current { entity_id, machine } => e1 == e0 && current_printed(
            e0.store(),
            entity_id@,
            machine@,
            r,
        ),
        CtlCommand::History { entity_id, machine, limit } => e1 == e0 && history_printed(
            e0.store(),
            entity_id@,
            machine@,
            limit,
            r,
        ),
        CtlCommand::Define { file, text } => e1.same_but_store(&e0) && define_ran(
            e0.store(),
            e1.model(),
            file@,
            text@,
            r,
        ),
        CtlCommand::Transition { entity_id, machine, event, actor, ctx, expected_version } =>
        transition_ran(
            e0,
            e1,
            entity_id@,
            machine@,
            event@,
            actor@,
            ctx,
            expected_version,
            r,
        ),
    }
}

/// Does what a command asks for.
pub fn run<S: StorageEngine, G: Fn(&EntityState, &serde_json::Value) -> bool>(
    command: CtlCommand,
    engine: &mut Engine<S, G>,
) -> (r: Result<Vec<String>, String>)
    requires
        old(engine).wf(),
    ensures
        final(engine).wf(),
        ran(*old(engine), *final(engine), command, r),
{
    let ghost m = engine.model();
    let ghost store = engine.store();
    match command {
        CtlCommand::Machines => {
            let found = engine.list_machines();
            let r = tell_machines(&found, " machine(s) total.");
            proof {
                match found {
                    Ok(v) => {
                        assert(machine_views(v@) =~= Seq::new(v@.len(), |i: int| v@[i]@));
                        assert(m.lists_machines(machine_views(v@)));
                    },
                    Err(e) => {
                        reveal_strlit("listing machines: ");
                        reveal_strlit("listing machines");
                        reveal_strlit(": ");
                        assert("listing machines: "@ =~= "listing machines"@ + ": "@);
                        assert(fails_by_fault(r, "listing machines"@, e@->Storage_0));
                        assert(machines_failed(&store, e@->Storage_0));
                    },
                }
            }
            r
        },
        CtlCommand::Machine { name } => {
            let found = engine.get_machine(name.as_str());
            let r = print_machine(name.as_str(), &found);
            proof {
                if found is Ok {
                    assert(m.finds_machine(name@, None, found->Ok_0@));
                } else if found->Err_0@.is_fault() {
                    assert(definition_failed(&store, name@, None, found->Err_0@->Storage_0));
                }
            }
            r
        },
        CtlCommand::Current { entity_id, machine } => {
            let found = engine.current(entity_id.as_str(), machine.as_str());
            assert(found is Err && found->Err_0@.is_fault() ==> entity_failed(
                &store,
                entity_id@,
                machine@,
                found->Err_0@->Storage_0,
            ));
            print_current(entity_id.as_str(), machine.as_str(), &found)
        },
        CtlCommand::History { entity_id, machine, limit } => {
            let found = engine.history(entity_id.as_str(), machine.as_str(), limit, None);
            assert(found is Err ==> history_failed(
                &store,
                entity_id@,
                machine@,
                limit,
                None,
                found->Err_0@->Storage_0,
            ));
            print_history(entity_id.as_str(), machine.as_str(), &found)
        },
        CtlCommand::Define { file, text } => define(engine, file.as_str(), text.as_str()),
        CtlCommand::Transition { entity_id, machine, event, actor, ctx, expected_version } => fire(
            engine,
            entity_id.as_str(),
            machine.as_str(),
            event.as_str(),
            actor.as_str(),
            &ctx,
            expected_version,
        ),
    }
}

} // verus!
