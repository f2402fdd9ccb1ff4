//! How machines and entities are described, line by line.
use crate::engine::engine::Engine;
use crate::fsm::machine::{MachineDefinition, MachineView};
use crate::fsm::record::{EntityState, EntityView};
use crate::shell::command::Cmd;
use crate::shell::ctl::{framed_machine, prints, run, CtlCommand};
use crate::shell::execute::{execute, is_found, shows, standings, standings_shown, Shown};
use crate::shell::layout::left;
use crate::shell::show::{
    effect_line, effect_lines, machine_head, machine_lines, rule_line, rule_lines, standing_line,
    state_line, state_lines,
};
use crate::storage::engine::StorageEngine;
use crate::storage::error::StorageError;
use crate::storage::laws::law_latest_definition_is_unique;
use crate::storage::model::entity_key;
use crate::text::{decimal, joined, texts};
use vstd::prelude::*;

verus! {

/// The lines on a machine, one by one.
proof fn lemma_machine_lines(m: MachineView, dated: bool)
    ensures
        machine_lines(m, dated).len() == 5 + (if dated {
            1int
        } else {
            0
        }) + m.states.len() + m.transitions.len() + (if m.effects.len() == 0 {
            0
        } else {
            1 + m.effects.len()
        }),
        !dated ==> ({
            let lines = machine_lines(m, false);
            &&& lines[0] == "Machine:      "@ + m.name
            &&& lines[1] == "Version:      "@ + decimal(m.version as nat)
            &&& lines[2] == "Initial:      "@ + m.initial_state
            &&& lines[3] == "States ("@ + decimal(m.states.len()) + "):"@
            &&& forall|i: int|
                #![trigger m.states[i]]
                0 <= i < m.states.len() ==> lines[4 + i] == "  "@ + (if m.states[i]
                    == m.initial_state {
                    " *"@
                } else {
                    "  "@
                }) + m.states[i]
            &&& lines[4 + m.states.len() as int] == "Transitions ("@ + decimal(
                m.transitions.len(),
            ) + "):"@
            &&& forall|i: int|
                #![trigger m.transitions[i]]
                0 <= i < m.transitions.len() ==> lines[5 + m.states.len() + i]
                    == "  "@ + left(m.transitions[i].event, 20) + " "@ + left(
                    "["@ + joined(m.transitions[i].from_states, ", "@) + "]"@,
                    30,
                ) + " -> "@ + m.transitions[i].to_state + (if m.transitions[i].guards.len()
                    == 0 {
                    ""@
                } else {
                    "  [guards: "@ + joined(m.transitions[i].guards, ", "@) + "]"@
                })
            &&& forall|i: int|
                #![trigger m.effects[i]]
                0 <= i < m.effects.len() ==> lines[6 + m.states.len() + m.transitions.len() + i]
                    == "  on '"@ + m.effects[i].on_event + "' -> emit '"@ + m.effects[i].effect
                    + "'"@
        }),
        dated ==> ({
            let lines = machine_lines(m, true);
            &&& lines[0] == "Machine:      "@ + m.name
            &&& lines[1] == "Version:      "@ + decimal(m.version as nat)
            &&& lines[3] == "Initial:      "@ + m.initial_state
            &&& lines[4] == "States ("@ + decimal(m.states.len()) + "):"@
            &&& forall|i: int|
                #![trigger m.states[i]]
                0 <= i < m.states.len() ==> lines[5 + i] == "  "@ + (if m.states[i]
                    == m.initial_state {
                    " *"@
                } else {
                    "  "@
                }) + m.states[i]
            &&& lines[5 + m.states.len() as int] == "Transitions ("@ + decimal(
                m.transitions.len(),
            ) + "):"@
            &&& forall|i: int|
                #![trigger m.transitions[i]]
                0 <= i < m.transitions.len() ==> lines[6 + m.states.len() + i]
                    == "  "@ + left(m.transitions[i].event, 20) + " "@ + left(
                    "["@ + joined(m.transitions[i].from_states, ", "@) + "]"@,
                    30,
                ) + " -> "@ + m.transitions[i].to_state + (if m.transitions[i].guards.len()
                    == 0 {
                    ""@
                } else {
                    "  [guards: "@ + joined(m.transitions[i].guards, ", "@) + "]"@
                })
            &&& forall|i: int|
                #![trigger m.effects[i]]
                0 <= i < m.effects.len() ==> lines[7 + m.states.len() + m.transitions.len() + i]
                    == "  on '"@ + m.effects[i].on_event + "' -> emit '"@ + m.effects[i].effect
                    + "'"@
        }),
{
    let a = machine_head(m, dated);
    let b = state_lines(m);
    let c = rule_lines(m);
    let d = effect_lines(m);
    let lines = machine_lines(m, dated);
    assert(lines == a + b + c + d);
    let x = a.len() as int;
    let y = x + b.len();
    let z = y + c.len();
    assert forall|i: int| 0 <= i < b.len() implies #[trigger] b[i] == lines[x + i] by {}
    assert forall|i: int| 0 <= i < c.len() implies #[trigger] c[i] == lines[y + i] by {}
    assert forall|i: int| 0 <= i < d.len() implies #[trigger] d[i] == lines[z + i] by {}
    assert forall|i: int| 0 <= i < m.states.len() implies b[1 + i] == state_line(
        #[trigger] m.states[i],
        m.initial_state,
    ) by {}
    assert forall|i: int| 0 <= i < m.transitions.len() implies c[1 + i] == rule_line(
        #[trigger] m.transitions[i],
    ) by {}
    assert forall|i: int| 0 <= i < m.effects.len() implies d[1 + i] == effect_line(
        #[trigger] m.effects[i],
    ) by {}
    assert(b[0] == "States ("@ + decimal(m.states.len()) + "):"@);
    assert(c[0] == "Transitions ("@ + decimal(m.transitions.len()) + "):"@);
    assert forall|i: int| 0 <= i < m.transitions.len() implies rule_line(
        #[trigger] m.transitions[i],
    ) == "  "@ + left(m.transitions[i].event, 20) + " "@ + left(
        "["@ + joined(m.transitions[i].from_states, ", "@) + "]"@,
        30,
    ) + " -> "@ + m.transitions[i].to_state + (if m.transitions[i].guards.len() == 0 {
        ""@
    } else {
        "  [guards: "@ + joined(m.transitions[i].guards, ", "@) + "]"@
    }) by {}
}

/// The shell describes a machine by its latest definition: its name, version and initial
/// state, every state, every rule and every effect, in their order; unless the store
/// fails to give it. Nothing changes.
pub proof fn law_the_shell_describes_machines<
    S: StorageEngine,
    G: Fn(&EntityState, &serde_json::Value) -> bool,
>(
    e: &mut Engine<S, G>,
    after: Engine<S, G>,
    name: String,
    def: MachineView,
    r: Result<Shown, String>,
)
    requires
        old(e).wf(),
        after == *final(e),
        call_ensures(execute::<S, G>, (Cmd::DescribeMachine { name }, e), r),
        old(e).model().machines.contains_key((name@, def.version)),
        old(e).model().machines[(name@, def.version)] == def,
        forall|v: u32| #[trigger]
            old(e).model().machines.contains_key((name@, v)) ==> v <= def.version,
    ensures
        after == *old(e),
        (exists|n: &str, f: StorageError|
            n@ == name@ && #[trigger] call_ensures(
                S::get_machine,
                (&old(e).store(), n, None::<u32>),
                Err::<MachineDefinition, StorageError>(f),
            )) || ({
            let lines = r->Ok_0.lines@;
            &&& r is Ok && r->Ok_0.proceed
            &&& lines.len() == 5 + def.states.len() + def.transitions.len()
                + (if def.effects.len() == 0 {
                0
            } else {
                1 + def.effects.len()
            })
            &&& lines[0]@ == "Machine:      "@ + def.name
            &&& lines[1]@ == "Version:      "@ + decimal(def.version as nat)
            &&& lines[2]@ == "Initial:      "@ + def.initial_state
            &&& lines[3]@ == "States ("@ + decimal(def.states.len()) + "):"@
            &&& forall|i: int|
                #![trigger def.states[i]]
                0 <= i < def.states.len() ==> lines[4 + i]@ == "  "@ + (if def.states[i]
                    == def.initial_state {
                    " *"@
                } else {
                    "  "@
                }) + def.states[i]
            &&& lines[4 + def.states.len() as int]@ == "Transitions ("@ + decimal(
                def.transitions.len(),
            ) + "):"@
            &&& forall|i: int|
                #![trigger def.transitions[i]]
                0 <= i < def.transitions.len() ==> lines[5 + def.states.len() + i]@
                    == "  "@ + left(def.transitions[i].event, 20) + " "@ + left(
                    "["@ + joined(def.transitions[i].from_states, ", "@) + "]"@,
                    30,
                ) + " -> "@ + def.transitions[i].to_state + (if def.transitions[i].guards.len()
                    == 0 {
                    ""@
                } else {
                    "  [guards: "@ + joined(def.transitions[i].guards, ", "@) + "]"@
                })
            &&& forall|i: int|
                #![trigger def.effects[i]]
                0 <= i < def.effects.len() ==> lines[6 + def.states.len()
                    + def.transitions.len() + i]@
                    == "  on '"@ + def.effects[i].on_event + "' -> emit '"@ + def.effects[i].effect
                    + "'"@
        }),
{
    old(e).law_store_is_in_order();
    let m = old(e).model();
    assert(m.finds_machine(name@, None, def));
    assert forall|d: MachineView| #[trigger] m.finds_machine(name@, None, d) implies d == def by {
        law_latest_definition_is_unique(m, name@, def, d);
    }
    lemma_machine_lines(def, false);
    if shows(r, machine_lines(def, false)) {
        let lines = r->Ok_0.lines@;
        assert(texts(lines) == machine_lines(def, false));
        assert(texts(lines).len() == lines.len());
        assert forall|i: int| 0 <= i < lines.len() implies #[trigger] lines[i]@
            == machine_lines(def, false)[i] by {
            assert(texts(lines)[i] == lines[i]@);
        }
    }
}

/// The tool describes a machine by its latest definition: its name, version and initial
/// state, every state, every rule and every effect, in their order; unless the store
/// fails to give it. Nothing changes.
pub proof fn law_the_tool_describes_machines<
    S: StorageEngine,
    G: Fn(&EntityState, &serde_json::Value) -> bool,
>(
    e: &mut Engine<S, G>,
    after: Engine<S, G>,
    name: String,
    def: MachineView,
    r: Result<Vec<String>, String>,
)
    requires
        old(e).wf(),
        after == *final(e),
        call_ensures(run::<S, G>, (CtlCommand::Machine { name }, e), r),
        old(e).model().machines.contains_key((name@, def.version)),
        old(e).model().machines[(name@, def.version)] == def,
        forall|v: u32| #[trigger]
            old(e).model().machines.contains_key((name@, v)) ==> v <= def.version,
    ensures
        after == *old(e),
        (exists|n: &str, f: StorageError|
            n@ == name@ && #[trigger] call_ensures(
                S::get_machine,
                (&old(e).store(), n, None::<u32>),
                Err::<MachineDefinition, StorageError>(f),
            )) || ({
            let lines = r->Ok_0@;
            &&& r is Ok
            &&& lines.len() == 8 + def.states.len() + def.transitions.len()
                + (if def.effects.len() == 0 {
                0
            } else {
                1 + def.effects.len()
            })
            &&& lines[1]@ == "Machine:      "@ + def.name
            &&& lines[2]@ == "Version:      "@ + decimal(def.version as nat)
            &&& lines[4]@ == "Initial:      "@ + def.initial_state
            &&& lines[5]@ == "States ("@ + decimal(def.states.len()) + "):"@
            &&& forall|i: int|
                #![trigger def.states[i]]
                0 <= i < def.states.len() ==> lines[6 + i]@ == "  "@ + (if def.states[i]
                    == def.initial_state {
                    " *"@
                } else {
                    "  "@
                }) + def.states[i]
            &&& lines[6 + def.states.len() as int]@ == "Transitions ("@ + decimal(
                def.transitions.len(),
            ) + "):"@
            &&& forall|i: int|
                #![trigger def.transitions[i]]
                0 <= i < def.transitions.len() ==> lines[7 + def.states.len() + i]@
                    == "  "@ + left(def.transitions[i].event, 20) + " "@ + left(
                    "["@ + joined(def.transitions[i].from_states, ", "@) + "]"@,
                    30,
                ) + " -> "@ + def.transitions[i].to_state + (if def.transitions[i].guards.len()
                    == 0 {
                    ""@
                } else {
                    "  [guards: "@ + joined(def.transitions[i].guards, ", "@) + "]"@
                })
            &&& forall|i: int|
                #![trigger def.effects[i]]
                0 <= i < def.effects.len() ==> lines[8 + def.states.len()
                    + def.transitions.len() + i]@
                    == "  on '"@ + def.effects[i].on_event + "' -> emit '"@ + def.effects[i].effect
                    + "'"@
        }),
{
    old(e).law_store_is_in_order();
    let m = old(e).model();
    assert(m.finds_machine(name@, None, def));
    assert forall|d: MachineView| #[trigger] m.finds_machine(name@, None, d) implies d == def by {
        law_latest_definition_is_unique(m, name@, def, d);
    }
    lemma_machine_lines(def, true);
    if prints(r, framed_machine(def)) {
        let lines = r->Ok_0@;
        assert(texts(lines) == framed_machine(def));
        assert(texts(lines).len() == lines.len());
        assert forall|i: int| 0 <= i < lines.len() implies #[trigger] lines[i]@
            == framed_machine(def)[i] by {
            assert(texts(lines)[i] == lines[i]@);
        }
        let inner = machine_lines(def, true);
        assert forall|i: int| 0 <= i < inner.len() implies #[trigger] inner[i] == framed_machine(
            def,
        )[1 + i] by {}
    }
}

/// The shell tells how an entity stands in every machine that is defined: its state and
/// version as they are stored, or, where it has made no transition, the initial state;
/// unless the store fails. Nothing changes.
pub proof fn law_the_shell_describes_entities<
    S: StorageEngine,
    G: Fn(&EntityState, &serde_json::Value) -> bool,
>(e: &mut Engine<S, G>, after: Engine<S, G>, entity_id: String, r: Result<Shown, String>) -> (ms:
    Seq<MachineView>)
    requires
        old(e).wf(),
        after == *final(e),
        call_ensures(execute::<S, G>, (Cmd::DescribeEntity { entity_id }, e), r),
    ensures
        after == *old(e),
        r is Err ==> exists|f: StorageError| #[trigger]
            call_ensures(
                S::list_machines,
                (&old(e).store(),),
                Err::<Vec<MachineDefinition>, StorageError>(f),
            ),
        r is Ok ==> ({
            let stored = old(e).model().machines;
            let entities = old(e).model().entities;
            let lines = r->Ok_0.lines@;
            &&& r->Ok_0.proceed
            &&& forall|i: int|
                0 <= i < ms.len() ==> stored.contains_key(((#[trigger] ms[i]).name, ms[i].version))
                    && stored[(ms[i].name, ms[i].version)] == ms[i]
            &&& forall|k: (Seq<char>, u32)| #[trigger]
                stored.contains_key(k) ==> ms.contains(stored[k])
            &&& ms.len() == 0 ==> lines.len() == 1 && lines[0]@ == "No machines defined."@
            &&& ms.len() > 0 ==> lines.len() >= 2 + ms.len()
                && lines[0]@ == "Entity: "@ + entity_id@
            &&& forall|i: int|
                #![trigger ms[i]]
                0 <= i < ms.len() ==> {
                    let key = entity_key(entity_id@, ms[i].name);
                    ||| entities.contains_key(key) && lines[2 + i]@ == "  "@ + left(ms[i].name, 30)
                        + "  state="@ + left(entities[key].current_state, 20) + "  v="@ + decimal(
                        entities[key].version as nat,
                    )
                    ||| lines[2 + i]@ == "  "@ + left(ms[i].name, 30) + "  state="@ + left(
                        ms[i].initial_state,
                        20,
                    ) + "  (not started)"@ && (!entities.contains_key(key) || exists|
                        a: &str,
                        b: &str,
                        f: StorageError,
                    |
                        a@ == entity_id@ && b@ == ms[i].name && #[trigger] call_ensures(
                            S::get_entity_state,
                            (&old(e).store(), a, b),
                            Err::<EntityState, StorageError>(f),
                        ))
                }
        }),
{
    let m = old(e).model();
    if r is Ok {
        assert(standings_shown(old(e).store(), entity_id@, r));
        let lines = r->Ok_0.lines@;
        assert(texts(lines).len() == lines.len());
        if forall|k: (Seq<char>, u32)| !#[trigger] m.machines.contains_key(k) {
            assert forall|ms: Seq<MachineView>| #[trigger] m.lists_machines(ms) implies ms.len()
                == 0 by {
                if ms.len() > 0 {
                    assert(m.machines.contains_key((ms[0].name, ms[0].version)));
                }
            }
            assert(texts(lines)[0] == lines[0]@);
            Seq::empty()
        } else {
            let (ms, found) = choose|ms: Seq<MachineView>, found: Seq<Option<EntityView>>|
                #![trigger m.lists_machines(ms), standings(entity_id@, ms, found)]
                m.lists_machines(ms) && found.len() == ms.len() && (forall|i: int|
                    0 <= i < found.len() ==> is_found(
                        old(e).store(),
                        entity_id@,
                        ms[i].name,
                        #[trigger] found[i],
                    )) && shows(
                    r,
                    if ms.len() == 0 {
                        seq!["No machines defined."@]
                    } else {
                        standings(entity_id@, ms, found)
                    },
                );
            assert forall|i: int| 0 <= i < lines.len() implies #[trigger] lines[i]@
                == texts(lines)[i] by {}
            assert(texts(lines).len() == lines.len());
            assert forall|i: int| 0 <= i < ms.len() implies lines[2 + i]@ == standing_line(
                #[trigger] ms[i],
                found[i],
            ) && is_found(old(e).store(), entity_id@, ms[i].name, found[i]) by {
                assert(standings(entity_id@, ms, found)[2 + i] == standing_line(ms[i], found[i]));
                assert(lines[2 + i]@ == texts(lines)[2 + i]);
            }
            ms
        }
    } else {
        Seq::empty()
    }
}

} // verus!
