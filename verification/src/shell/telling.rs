//! What the shell and the command-line tool tell, in terms of what is stored.
use crate::engine::defining::{
    lemma_accepted_is_in_force, lemma_refused_differs, lemma_storing_broke, storing_broke,
};
use crate::engine::engine::{defined, Engine};
use crate::engine::error::EngineErrorView;
use crate::engine::outcome::storing_failed;
use crate::fsm::machine::{law_fault_free_is_well_formed, MachineDefinition, MachineView};
use crate::fsm::record::{EntityState, TransitionRecord};
use crate::json::Json;
use crate::order::lemma_text_lt_irreflexive;
use crate::proto::definition::read_definition;
use crate::shell::command::Cmd;
use crate::shell::ctl::{fails, machines_printed, prints, run, CtlCommand};
use crate::shell::execute::{definition_lines, execute, machines_shown, shows, Shown};
use crate::shell::layout::{at_left, at_right, left, right, time_shown};
use crate::shell::show::machine_table;
use crate::storage::calls::lemma_history;
use crate::storage::engine::{entity_label, StorageEngine};
use crate::storage::error::{StorageError, StorageErrorView};
use crate::storage::model::{entity_key, machine_key};
use crate::text::{decimal, texts};
use vstd::prelude::*;

verus! {

/// A text in a column keeps its characters, and blanks fill the column: after the
/// text at the left, before it at the right.
pub proof fn law_columns_are_filled(s: &str, width: usize, l: String, r: String)
    requires
        call_ensures(at_left, (s, width), l),
        call_ensures(at_right, (s, width), r),
    ensures
        l@ == left(s@, width as nat) && r@ == right(s@, width as nat),
        l@.len() == (if s@.len() < width {
            width as nat
        } else {
            s@.len()
        }),
        r@.len() == l@.len(),
        l@.take(s@.len() as int) == s@,
        forall|i: int| s@.len() <= i < l@.len() ==> #[trigger] l@[i] == ' ',
        r@.skip(r@.len() - s@.len()) == s@,
        forall|i: int| 0 <= i < r@.len() - s@.len() ==> #[trigger] r@[i] == ' ',
{
    assert(l@.take(s@.len() as int) =~= s@);
    assert(r@.skip(r@.len() - s@.len()) =~= s@);
}

/// The shell tells the state and the version of an entity as they are stored, or that
/// there is no such entity, unless the store fails to give it. Nothing changes.
pub proof fn law_the_shell_tells_states<
    S: StorageEngine,
    G: Fn(&EntityState, &serde_json::Value) -> bool,
>(
    e: &mut Engine<S, G>,
    after: Engine<S, G>,
    entity_id: String,
    machine: String,
    r: Result<Shown, String>,
)
    requires
        old(e).wf(),
        after == *final(e),
        call_ensures(execute::<S, G>, (Cmd::Current { entity_id, machine }, e), r),
    ensures
        after == *old(e),
        ({
            let m = old(e).model();
            let key = entity_key(entity_id@, machine@);
            let x = m.entities[key];
            ||| m.entities.contains_key(key) && r is Ok && r->Ok_0.proceed
                && r->Ok_0.lines@.len() == 5 && r->Ok_0.lines@[0]@
                == "Entity:    "@ + x.entity_id && r->Ok_0.lines@[1]@ == "Machine:   "@ + x.machine
                && r->Ok_0.lines@[2]@ == "State:     "@ + x.current_state
                    && r->Ok_0.lines@[3]@ == "Version:   "@
                + decimal(x.version as nat)
            ||| !m.entities.contains_key(key) && r is Ok && r->Ok_0.proceed
                && r->Ok_0.lines@.len() == 1
                && r->Ok_0.lines@[0]@ == "Error: "@ + ("storage error: "@ + ("not found: "@ + (
            "entity '"@ + entity_id@ + "' in machine '"@ + machine@ + "'"@)))
            ||| r is Ok && r->Ok_0.proceed && exists|i: &str, n: &str, f: StorageError|
                i@ == entity_id@ && n@ == machine@ && #[trigger] call_ensures(
                    S::get_entity_state,
                    (&old(e).store(), i, n),
                    Err::<EntityState, StorageError>(f),
                )
        }),
{
    let m = old(e).model();
    let key = entity_key(entity_id@, machine@);
    if r is Ok {
        let lines = r->Ok_0.lines@;
        assert forall|i: int| 0 <= i < lines.len() implies #[trigger] lines[i]@ == texts(
            lines,
        )[i] by {}
        assert(texts(lines).len() == lines.len());
    }
    assert(entity_label(entity_id@, machine@) == "entity '"@ + entity_id@ + "' in machine '"@
        + machine@ + "'"@);
}

/// The tool tells the state and the version of an entity as they are stored, or that
/// there is no such entity, unless the store fails to give it. Nothing changes.
pub proof fn law_the_tool_tells_states<
    S: StorageEngine,
    G: Fn(&EntityState, &serde_json::Value) -> bool,
>(
    e: &mut Engine<S, G>,
    after: Engine<S, G>,
    entity_id: String,
    machine: String,
    r: Result<Vec<String>, String>,
)
    requires
        old(e).wf(),
        after == *final(e),
        call_ensures(run::<S, G>, (CtlCommand::Current { entity_id, machine }, e), r),
    ensures
        after == *old(e),
        ({
            let m = old(e).model();
            let key = entity_key(entity_id@, machine@);
            let x = m.entities[key];
            ||| m.entities.contains_key(key) && r is Ok && r->Ok_0@.len() == 6 && r->Ok_0@[0]@
                == "Entity:    "@ + x.entity_id && r->Ok_0@[1]@ == "Machine:   "@ + x.machine
                && r->Ok_0@[2]@ == "State:     "@ + x.current_state
                    && r->Ok_0@[3]@ == "Version:   "@
                + decimal(x.version as nat)
            ||| !m.entities.contains_key(key) && r is Err && r->Err_0@
                == "getting current state for '"@ + entity_id@ + "' in '"@ + machine@ + "'"@ + ": "@
                + ("storage error: "@ + ("not found: "@ + ("entity '"@ + entity_id@
                + "' in machine '"@ + machine@ + "'"@)))
            ||| r is Err && exists|i: &str, n: &str, f: StorageError|
                i@ == entity_id@ && n@ == machine@ && #[trigger] call_ensures(
                    S::get_entity_state,
                    (&old(e).store(), i, n),
                    Err::<EntityState, StorageError>(f),
                )
        }),
{
    let m = old(e).model();
    let key = entity_key(entity_id@, machine@);
    if r is Ok {
        let lines = r->Ok_0@;
        assert forall|i: int| 0 <= i < lines.len() implies #[trigger] lines[i]@ == texts(
            lines,
        )[i] by {}
        assert(texts(lines).len() == lines.len());
    }
    assert(entity_label(entity_id@, machine@) == "entity '"@ + entity_id@ + "' in machine '"@
        + machine@ + "'"@);
}

/// The shell lists the transitions of an entity as they are logged and in the order of
/// the log: the first of them, as many as the limit allows, or all where none is
/// given; unless the store fails to give them. Nothing changes.
pub proof fn law_the_shell_lists_histories<
    S: StorageEngine,
    G: Fn(&EntityState, &serde_json::Value) -> bool,
>(
    e: &mut Engine<S, G>,
    after: Engine<S, G>,
    entity_id: String,
    machine: String,
    limit: Option<u32>,
    r: Result<Shown, String>,
) -> (numbers: Seq<u64>)
    requires
        old(e).wf(),
        after == *final(e),
        call_ensures(execute::<S, G>, (Cmd::History { entity_id, machine, limit }, e), r),
    ensures
        after == *old(e),
        ({
            let m = old(e).model();
            let key = entity_key(entity_id@, machine@);
            ||| r is Ok && r->Ok_0.proceed && exists|i: &str, n: &str, f: StorageError|
                i@ == entity_id@ && n@ == machine@ && #[trigger] call_ensures(
                    S::get_history,
                    (&old(e).store(), i, n, limit, None::<u64>),
                    Err::<Vec<TransitionRecord>, StorageError>(f),
                )
            ||| r is Ok && r->Ok_0.proceed && numbers.len() == 0 && r->Ok_0.lines@.len() == 1
                && r->Ok_0.lines@[0]@ == "No history for '"@
                + entity_id@ + "' in '"@ + machine@ + "'."@
            ||| r is Ok && r->Ok_0.proceed && numbers.len() > 0
                && r->Ok_0.lines@.len() == numbers.len() + 4
                && r->Ok_0.lines@.last()@ == decimal(numbers.len()) + " record(s)"@
                    && forall|i: int|
                #![trigger numbers[i]]
                0 <= i < numbers.len() ==> r->Ok_0.lines@[2 + i]@ == right(
                    decimal(numbers[i] as nat),
                    8,
                ) + "  "@ + left(time_shown(m.log[numbers[i]].timestamp), 20) + "  "@ + left(
                    m.log[numbers[i]].event,
                    20,
                ) + "  "@ + left(m.log[numbers[i]].from_state, 20) + "  "@ + left(
                    m.log[numbers[i]].to_state,
                    20,
                ) + "  "@ + m.log[numbers[i]].actor
        }),
        ({
            let m = old(e).model();
            let key = entity_key(entity_id@, machine@);
            &&& limit matches Some(l) ==> numbers.len() <= l
            &&& forall|i: int|
                0 <= i < numbers.len() ==> m.log.contains_key(#[trigger] numbers[i]) && entity_key(
                    m.log[numbers[i]].entity_id,
                    m.log[numbers[i]].machine,
                ) == key
            &&& forall|i: int, j: int| 0 <= i < j < numbers.len() ==> numbers[i] < numbers[j]
            &&& forall|n: u64|
                #![trigger m.log[n]]
                m.log.contains_key(n) && entity_key(m.log[n].entity_id, m.log[n].machine) == key
                    ==> numbers.contains(n) || (limit matches Some(l) && numbers.len() == l
                    && forall|i: int| 0 <= i < numbers.len() ==> #[trigger] numbers[i] < n)
        }),
{
    old(e).law_store_is_in_order();
    let m = old(e).model();
    let h = m.history(entity_id@, machine@, limit, None);
    lemma_history(m, entity_id@, machine@, limit, None);
    let numbers = Seq::new(h.len(), |i: int| h[i].sequence);
    assert forall|i: int| 0 <= i < h.len() implies m.log[#[trigger] numbers[i]] == h[i] by {
        assert(h[i].sequence == numbers[i]);
    }
    if r is Ok {
        let lines = r->Ok_0.lines@;
        assert forall|i: int| 0 <= i < lines.len() implies #[trigger] lines[i]@ == texts(
            lines,
        )[i] by {}
        assert(texts(lines).len() == lines.len());
    }
    assert forall|n: u64|
        #![trigger m.log[n]]
        m.log.contains_key(n) && entity_key(m.log[n].entity_id, m.log[n].machine) == entity_key(
            entity_id@,
            machine@,
        ) implies numbers.contains(n) || (limit matches Some(l) && numbers.len() == l && forall|
        i: int,
    |
        0 <= i < numbers.len() ==> #[trigger] numbers[i] < n) by {
        if exists|i: int| 0 <= i < h.len() && (#[trigger] h[i]).sequence == n {
            let i = choose|i: int| 0 <= i < h.len() && (#[trigger] h[i]).sequence == n;
            assert(numbers[i] == n);
        } else {
            assert forall|i: int| 0 <= i < numbers.len() implies #[trigger] numbers[i] < n by {
                assert(h[i].sequence < n);
            }
        }
    }
    numbers
}

/// The tool lists the transitions of an entity as they are logged and in the order of
/// the log: the first of them, as many as the limit allows, or all where none is
/// given; unless the store fails to give them. Nothing changes.
pub proof fn law_the_tool_lists_histories<
    S: StorageEngine,
    G: Fn(&EntityState, &serde_json::Value) -> bool,
>(
    e: &mut Engine<S, G>,
    after: Engine<S, G>,
    entity_id: String,
    machine: String,
    limit: Option<u32>,
    r: Result<Vec<String>, String>,
) -> (numbers: Seq<u64>)
    requires
        old(e).wf(),
        after == *final(e),
        call_ensures(run::<S, G>, (CtlCommand::History { entity_id, machine, limit }, e), r),
    ensures
        after == *old(e),
        ({
            let m = old(e).model();
            let key = entity_key(entity_id@, machine@);
            ||| r is Err && exists|i: &str, n: &str, f: StorageError|
                i@ == entity_id@ && n@ == machine@ && #[trigger] call_ensures(
                    S::get_history,
                    (&old(e).store(), i, n, limit, None::<u64>),
                    Err::<Vec<TransitionRecord>, StorageError>(f),
                )
            ||| r is Ok && numbers.len() == 0 && r->Ok_0@.len() == 1
                && r->Ok_0@[0]@ == "No history found for '"@
                + entity_id@ + "' in '"@ + machine@ + "'."@
            ||| r is Ok && numbers.len() > 0 && r->Ok_0@.len() == numbers.len() + 4
                && r->Ok_0@.last()@ == decimal(numbers.len()) + " record(s)."@ && forall|i: int|
                #![trigger numbers[i]]
                0 <= i < numbers.len() ==> r->Ok_0@[2 + i]@ == right(
                    decimal(numbers[i] as nat),
                    8,
                ) + "  "@ + left(time_shown(m.log[numbers[i]].timestamp), 22) + "  "@ + left(
                    m.log[numbers[i]].event,
                    20,
                ) + "  "@ + left(m.log[numbers[i]].from_state, 20) + "  "@ + left(
                    m.log[numbers[i]].to_state,
                    20,
                ) + "  "@ + m.log[numbers[i]].actor
        }),
        ({
            let m = old(e).model();
            let key = entity_key(entity_id@, machine@);
            &&& limit matches Some(l) ==> numbers.len() <= l
            &&& forall|i: int|
                0 <= i < numbers.len() ==> m.log.contains_key(#[trigger] numbers[i]) && entity_key(
                    m.log[numbers[i]].entity_id,
                    m.log[numbers[i]].machine,
                ) == key
            &&& forall|i: int, j: int| 0 <= i < j < numbers.len() ==> numbers[i] < numbers[j]
            &&& forall|n: u64|
                #![trigger m.log[n]]
                m.log.contains_key(n) && entity_key(m.log[n].entity_id, m.log[n].machine) == key
                    ==> numbers.contains(n) || (limit matches Some(l) && numbers.len() == l
                    && forall|i: int| 0 <= i < numbers.len() ==> #[trigger] numbers[i] < n)
        }),
{
    old(e).law_store_is_in_order();
    let m = old(e).model();
    let h = m.history(entity_id@, machine@, limit, None);
    lemma_history(m, entity_id@, machine@, limit, None);
    let numbers = Seq::new(h.len(), |i: int| h[i].sequence);
    assert forall|i: int| 0 <= i < h.len() implies m.log[#[trigger] numbers[i]] == h[i] by {
        assert(h[i].sequence == numbers[i]);
    }
    if r is Ok {
        let lines = r->Ok_0@;
        assert forall|i: int| 0 <= i < lines.len() implies #[trigger] lines[i]@ == texts(
            lines,
        )[i] by {}
        assert(texts(lines).len() == lines.len());
    }
    assert forall|n: u64|
        #![trigger m.log[n]]
        m.log.contains_key(n) && entity_key(m.log[n].entity_id, m.log[n].machine) == entity_key(
            entity_id@,
            machine@,
        ) implies numbers.contains(n) || (limit matches Some(l) && numbers.len() == l && forall|
        i: int,
    |
        0 <= i < numbers.len() ==> #[trigger] numbers[i] < n) by {
        if exists|i: int| 0 <= i < h.len() && (#[trigger] h[i]).sequence == n {
            let i = choose|i: int| 0 <= i < h.len() && (#[trigger] h[i]).sequence == n;
            assert(numbers[i] == n);
        } else {
            assert forall|i: int| 0 <= i < numbers.len() implies #[trigger] numbers[i] < n by {
                assert(h[i].sequence < n);
            }
        }
    }
    numbers
}

/// Where a text reads as a definition, the shell says that it is defined only where
/// it is in force afterwards, rule for rule. Otherwise the shell tells of an error, and
/// what is stored stays, unless the store failed.
pub proof fn law_the_shell_puts_definitions_in_force<
    S: StorageEngine,
    G: Fn(&EntityState, &serde_json::Value) -> bool,
>(
    e: &mut Engine<S, G>,
    after: Engine<S, G>,
    text: String,
    given: &str,
    read: MachineDefinition,
    r: Result<Shown, String>,
)
    requires
        old(e).wf(),
        after == *final(e),
        call_ensures(execute::<S, G>, (Cmd::Define { source: text }, e), r),
        given@ == text@,
        call_ensures(read_definition, (given,), Ok::<MachineDefinition, String>(read)),
    ensures
        ({
            let m0 = old(e).model();
            let m1 = after.model();
            let d = read@;
            ||| r is Ok && r->Ok_0.proceed && r->Ok_0.lines@.len() == 1 && r->Ok_0.lines@[0]@
                == "Machine '"@ + d.name + "' defined."@ && {
            let k = (d.name, d.version);
            let stored = m1.machines[k];
            &&& m1.machines.contains_key(k)
            &&& stored.name == d.name && stored.version == d.version
            &&& stored.states == d.states && stored.initial_state == d.initial_state
            &&& stored.transitions == d.transitions
            &&& stored.effects.len() == d.effects.len()
            &&& forall|i: int|
                0 <= i < d.effects.len() ==> {
                    let was = #[trigger] d.effects[i];
                    let is = stored.effects[i];
                    &&& is.on_event == was.on_event && is.effect == was.effect
                    &&& (is.payload is None || is.payload == Some(Json::Null)) <==> (
                    was.payload is None || was.payload == Some(Json::Null))
                    &&& is.payload == was.payload || is.payload is None || was.payload is None
                }
            &&& forall|j: (Seq<char>, u32)|
                j != k ==> (#[trigger] m1.machines.contains_key(j)
                    <==> m0.machines.contains_key(j)) && m1.machines[j] == m0.machines[j]
            &&& m0.machines.contains_key(k) ==> m1 == m0
            &&& m1.entities == m0.entities && m1.log == m0.log
            }
            ||| r is Ok && r->Ok_0.proceed && r->Ok_0.lines@.len() == 1
                && ("Error: "@).is_prefix_of(
                r->Ok_0.lines@[0]@,
            ) && (m1 == m0 || ("Error: "@ + "storage error: "@).is_prefix_of(r->Ok_0.lines@[0]@))
                && (!d.well_formed() || (m0.machines.contains_key((d.name, d.version))
                    && m0.machines[(
                d.name,
                d.version,
            )] != (MachineView { created_at: m0.machines[(d.name, d.version)].created_at, ..d }))
                || storing_broke(old(e).store(), d)) && (m1 == m0
                    || storing_broke(old(e).store(), d))
        }),
{
    old(e).law_store_is_in_order();
    let m0 = old(e).model();
    let m1 = after.model();
    let d = read@;
    let out = choose|out: Result<(), EngineErrorView>| #[trigger]
        defined(m0, m1, d, out) && shows(r, definition_lines(d.name, out)) && (
        out matches Err(x) ==> x.is_fault() ==> storing_failed(old(e).store(), d, x->Storage_0));
    if r is Ok {
        let lines = r->Ok_0.lines@;
        assert(texts(lines).len() == lines.len());
        assert(texts(lines)[0] == lines[0]@);
    }
    law_fault_free_is_well_formed(d);
    if out is Ok {
        lemma_accepted_is_in_force(m0, m1, d);
    } else {
        if let EngineErrorView::Storage(StorageErrorView::AlreadyExists(label)) = out->Err_0 {
            lemma_refused_differs(m0, m1, d, label);
        }
        if out->Err_0.is_fault() {
            lemma_storing_broke(old(e).store(), d, out->Err_0->Storage_0);
        }
        assert(("Error: "@).is_prefix_of(r->Ok_0.lines@[0]@));
        if m1 != m0 {
            assert(("Error: "@ + "storage error: "@).is_prefix_of(r->Ok_0.lines@[0]@));
        }
    }
}

/// Where a text does not read as a definition, nothing changes, and the shell tells why.
pub proof fn law_the_shell_needs_a_definition<
    S: StorageEngine,
    G: Fn(&EntityState, &serde_json::Value) -> bool,
>(
    e: &mut Engine<S, G>,
    after: Engine<S, G>,
    text: String,
    given: &str,
    why: String,
    r: Result<Shown, String>,
)
    requires
        old(e).wf(),
        after == *final(e),
        call_ensures(execute::<S, G>, (Cmd::Define { source: text }, e), r),
        given@ == text@,
        call_ensures(read_definition, (given,), Err::<MachineDefinition, String>(why)),
    ensures
        after.model() == old(e).model(),
        r is Ok && r->Ok_0.proceed && r->Ok_0.lines@.len() == 1 && r->Ok_0.lines@[0]@
            == "Invalid MachineDefinition JSON: "@ + why@,
{
    if r is Ok {
        let lines = r->Ok_0.lines@;
        assert(texts(lines).len() == lines.len());
        assert(texts(lines)[0] == lines[0]@);
    }
}

/// Where a text reads as a definition, the tool says that it is defined only where
/// it is in force afterwards, rule for rule. Otherwise the tool tells of an error, and
/// what is stored stays, unless the store failed.
pub proof fn law_the_tool_puts_definitions_in_force<
    S: StorageEngine,
    G: Fn(&EntityState, &serde_json::Value) -> bool,
>(
    e: &mut Engine<S, G>,
    after: Engine<S, G>,
    file: String,
    text: String,
    given: &str,
    read: MachineDefinition,
    r: Result<Vec<String>, String>,
)
    requires
        old(e).wf(),
        after == *final(e),
        call_ensures(run::<S, G>, (CtlCommand::Define { file, text }, e), r),
        given@ == text@,
        call_ensures(read_definition, (given,), Ok::<MachineDefinition, String>(read)),
    ensures
        ({
            let m0 = old(e).model();
            let m1 = after.model();
            let d = read@;
            ||| r is Ok && r->Ok_0@.len() == 1 && r->Ok_0@[0]@ == "Machine '"@ + d.name
                + "' defined successfully."@ && {
            let k = (d.name, d.version);
            let stored = m1.machines[k];
            &&& m1.machines.contains_key(k)
            &&& stored.name == d.name && stored.version == d.version
            &&& stored.states == d.states && stored.initial_state == d.initial_state
            &&& stored.transitions == d.transitions
            &&& stored.effects.len() == d.effects.len()
            &&& forall|i: int|
                0 <= i < d.effects.len() ==> {
                    let was = #[trigger] d.effects[i];
                    let is = stored.effects[i];
                    &&& is.on_event == was.on_event && is.effect == was.effect
                    &&& (is.payload is None || is.payload == Some(Json::Null)) <==> (
                    was.payload is None || was.payload == Some(Json::Null))
                    &&& is.payload == was.payload || is.payload is None || was.payload is None
                }
            &&& forall|j: (Seq<char>, u32)|
                j != k ==> (#[trigger] m1.machines.contains_key(j)
                    <==> m0.machines.contains_key(j)) && m1.machines[j] == m0.machines[j]
            &&& m0.machines.contains_key(k) ==> m1 == m0
            &&& m1.entities == m0.entities && m1.log == m0.log
            }
            ||| r is Err && ("defining machine '"@ + d.name + "'"@
                + ": "@).is_prefix_of(r->Err_0@) && (m1 == m0
                || ("defining machine '"@ + d.name + "'"@ + ": "@
                + "storage error: "@).is_prefix_of(
                    r->Err_0@,
                ))
                && (!d.well_formed() || (m0.machines.contains_key((d.name, d.version))
                    && m0.machines[(
                d.name,
                d.version,
            )] != (MachineView { created_at: m0.machines[(d.name, d.version)].created_at, ..d }))
                || storing_broke(old(e).store(), d)) && (m1 == m0
                    || storing_broke(old(e).store(), d))
        }),
{
    old(e).law_store_is_in_order();
    let m0 = old(e).model();
    let m1 = after.model();
    let d = read@;
    let out = choose|out: Result<(), EngineErrorView>| #[trigger]
        defined(m0, m1, d, out) && (out matches Err(x) ==> x.is_fault() ==> storing_failed(
            old(e).store(),
            d,
            x->Storage_0,
        )) && match out {
                Ok(()) => prints(r, seq!["Machine '"@ + d.name + "' defined successfully."@]),
                Err(x) => fails(r, "defining machine '"@ + d.name + "'"@, x.message()),
            };
    if r is Ok {
        let lines = r->Ok_0@;
        assert(texts(lines).len() == lines.len());
        assert(texts(lines)[0] == lines[0]@);
    }
    law_fault_free_is_well_formed(d);
    if out is Ok {
        lemma_accepted_is_in_force(m0, m1, d);
    } else {
        if let EngineErrorView::Storage(StorageErrorView::AlreadyExists(label)) = out->Err_0 {
            lemma_refused_differs(m0, m1, d, label);
        }
        if out->Err_0.is_fault() {
            lemma_storing_broke(old(e).store(), d, out->Err_0->Storage_0);
        }
        
        if m1 != m0 {
            assert(("defining machine '"@ + d.name + "'"@ + ": "@
                + "storage error: "@).is_prefix_of(
                    r->Err_0@,
                ));
        }
    }
}

/// Where a text does not read as a definition, nothing changes, and the tool tells why.
pub proof fn law_the_tool_needs_a_definition<
    S: StorageEngine,
    G: Fn(&EntityState, &serde_json::Value) -> bool,
>(
    e: &mut Engine<S, G>,
    after: Engine<S, G>,
    file: String,
    text: String,
    given: &str,
    why: String,
    r: Result<Vec<String>, String>,
)
    requires
        old(e).wf(),
        after == *final(e),
        call_ensures(run::<S, G>, (CtlCommand::Define { file, text }, e), r),
        given@ == text@,
        call_ensures(read_definition, (given,), Err::<MachineDefinition, String>(why)),
    ensures
        after.model() == old(e).model(),
        r is Err && r->Err_0@ == "parsing MachineDefinition from '"@ + file@ + "'"@ + ": "@
            + why@,
{
    if r is Ok {
        let lines = r->Ok_0@;
        assert(texts(lines).len() == lines.len());
        assert(texts(lines)[0] == lines[0]@);
    }
}

/// The shell lists every definition that is stored, once, with its name, its version and
/// its initial state, unless the store fails to give them. Nothing changes.
pub proof fn law_the_shell_lists_machines<
    S: StorageEngine,
    G: Fn(&EntityState, &serde_json::Value) -> bool,
>(
    e: &mut Engine<S, G>,
    after: Engine<S, G>,
    r: Result<Shown, String>,
) -> (ms: Seq<MachineView>)
    requires
        old(e).wf(),
        after == *final(e),
        call_ensures(execute::<S, G>, (Cmd::ListMachines, e), r),
    ensures
        after == *old(e),
        r is Err ==> exists|f: StorageError| #[trigger]
            call_ensures(
                S::list_machines,
                (&old(e).store(),),
                Err::<Vec<MachineDefinition>, StorageError>(f),
            ),
        r is Ok ==> ({
            let stored = old(e).model().machines;
            &&& forall|i: int|
                0 <= i < ms.len() ==> stored.contains_key(((#[trigger] ms[i]).name, ms[i].version))
                    && stored[(ms[i].name, ms[i].version)] == ms[i]
            &&& forall|i: int, j: int|
                0 <= i < j < ms.len() ==> !((#[trigger] ms[i]).name == (#[trigger] ms[j]).name
                    && ms[i].version == ms[j].version)
            &&& forall|k: (Seq<char>, u32)| #[trigger]
                stored.contains_key(k) ==> ms.contains(stored[k])
            &&& ms.len() == 0 ==> r->Ok_0.lines@.len() == 1
                && r->Ok_0.lines@[0]@ == "No machines defined."@
            &&& ms.len() > 0 ==> r->Ok_0.lines@.len() == ms.len() + 4
                && r->Ok_0.lines@.last()@ == decimal(
                ms.len(),
            ) + " machine(s)"@ && forall|i: int|
                #![trigger ms[i]]
                0 <= i < ms.len() ==> r->Ok_0.lines@[2 + i]@ == left(ms[i].name, 30) + " "@ + right(
                    decimal(ms[i].version as nat),
                    7,
                ) + "  "@ + ms[i].initial_state
        }),
{
    let m = old(e).model();
    let ms = choose|ms: Seq<MachineView>| #[trigger]
        m.lists_machines(ms) && shows(r, machine_table(ms, " machine(s)"@));
    if r is Ok {
        assert(machines_shown(m, r));
        let lines = r->Ok_0.lines@;
        assert forall|i: int| 0 <= i < lines.len() implies #[trigger] lines[i]@ == texts(
            lines,
        )[i] by {}
        assert(texts(lines).len() == lines.len());
        assert forall|i: int, j: int| 0 <= i < j < ms.len() implies !((#[trigger] ms[i]).name == (
        #[trigger] ms[j]).name && ms[i].version == ms[j].version) by {
            if ms[i].name == ms[j].name && ms[i].version == ms[j].version {
                lemma_text_lt_irreflexive(machine_key(ms[i].name, ms[i].version));
            }
        }
    }
    ms
}

/// The tool lists every definition that is stored, once, with its name, its version and
/// its initial state, unless the store fails to give them. Nothing changes.
pub proof fn law_the_tool_lists_machines<
    S: StorageEngine,
    G: Fn(&EntityState, &serde_json::Value) -> bool,
>(
    e: &mut Engine<S, G>,
    after: Engine<S, G>,
    r: Result<Vec<String>, String>,
) -> (ms: Seq<MachineView>)
    requires
        old(e).wf(),
        after == *final(e),
        call_ensures(run::<S, G>, (CtlCommand::Machines, e), r),
    ensures
        after == *old(e),
        r is Err ==> exists|f: StorageError| #[trigger]
            call_ensures(
                S::list_machines,
                (&old(e).store(),),
                Err::<Vec<MachineDefinition>, StorageError>(f),
            ),
        r is Ok ==> ({
            let stored = old(e).model().machines;
            &&& forall|i: int|
                0 <= i < ms.len() ==> stored.contains_key(((#[trigger] ms[i]).name, ms[i].version))
                    && stored[(ms[i].name, ms[i].version)] == ms[i]
            &&& forall|i: int, j: int|
                0 <= i < j < ms.len() ==> !((#[trigger] ms[i]).name == (#[trigger] ms[j]).name
                    && ms[i].version == ms[j].version)
            &&& forall|k: (Seq<char>, u32)| #[trigger]
                stored.contains_key(k) ==> ms.contains(stored[k])
            &&& ms.len() == 0 ==> r->Ok_0@.len() == 1 && r->Ok_0@[0]@ == "No machines defined."@
            &&& ms.len() > 0 ==> r->Ok_0@.len() == ms.len() + 4 && r->Ok_0@.last()@ == decimal(
                ms.len(),
            ) + " machine(s) total."@ && forall|i: int|
                #![trigger ms[i]]
                0 <= i < ms.len() ==> r->Ok_0@[2 + i]@ == left(ms[i].name, 30) + " "@ + right(
                    decimal(ms[i].version as nat),
                    7,
                ) + "  "@ + ms[i].initial_state
        }),
{
    let m = old(e).model();
    let ms = choose|ms: Seq<MachineView>| #[trigger]
        m.lists_machines(ms) && prints(r, machine_table(ms, " machine(s) total."@));
    if r is Ok {
        assert(machines_printed(m, r));
        let lines = r->Ok_0@;
        assert forall|i: int| 0 <= i < lines.len() implies #[trigger] lines[i]@ == texts(
            lines,
        )[i] by {}
        assert(texts(lines).len() == lines.len());
        assert forall|i: int, j: int| 0 <= i < j < ms.len() implies !((#[trigger] ms[i]).name == (
        #[trigger] ms[j]).name && ms[i].version == ms[j].version) by {
            if ms[i].name == ms[j].name && ms[i].version == ms[j].version {
                lemma_text_lt_irreflexive(machine_key(ms[i].name, ms[i].version));
            }
        }
    }
    ms
}

} // verus!
