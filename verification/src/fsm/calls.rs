//! What planning and building come to, in terms of what they are given.
use crate::fsm::builder::MachineBuilder;
use crate::fsm::error::{CoreError, CoreErrorView};
use crate::fsm::machine::{EffectRule, EffectRuleView, MachineDefinition, TransitionRule};
use crate::fsm::planner::{
    effect_ref_views, failed_guard, law_guards_pass_together, lemma_first_answer,
    lemma_planned_unique, rule_answers, FsmPlanner,
};
use crate::fsm::record::TransitionRecord;
use crate::id::is_uuid4;
use crate::json::json_view;
use crate::names::NameMap;
use crate::text::{opt_text, texts};
use vstd::prelude::*;

verus! {

/// The rule that is planned is the first of the definition that has the event and
/// takes the state; without such a rule there is no plan.
pub proof fn law_plans_take_the_first_rule(
    d: MachineDefinition,
    current_state: &str,
    event: &str,
    entity_id: &str,
    r: Result<&TransitionRule, CoreError>,
) -> (i: int)
    requires
        call_ensures(FsmPlanner::plan_transition, (&d, current_state, event, entity_id), r),
    ensures
        r matches Ok(rule) ==> {
            let t = d.transitions@[i];
            &&& 0 <= i < d.transitions@.len()
            &&& t.event@ == event@ && texts(t.from_states@).contains(current_state@)
            &&& forall|j: int|
                0 <= j < i ==> !((#[trigger] d.transitions@[j]).event@ == event@ && texts(
                    d.transitions@[j].from_states@,
                ).contains(current_state@))
            &&& rule.event@ == t.event@ && rule.to_state@ == t.to_state@
            &&& texts(rule.guards@) == texts(t.guards@)
            &&& texts(rule.from_states@) == texts(t.from_states@)
        },
        r matches Err(e) ==> e@ == (CoreErrorView::IllegalTransition {
            entity_id: entity_id@,
            machine: d.name@,
            event: event@,
            current_state: current_state@,
        }) && forall|j: int|
            0 <= j < d.transitions@.len() ==> !((#[trigger] d.transitions@[j]).event@ == event@
                && texts(d.transitions@[j].from_states@).contains(current_state@)),
{
    let m = d@;
    assert forall|j: int| 0 <= j < d.transitions@.len() implies m.transitions[j] == (
    #[trigger] d.transitions@[j])@ by {}
    if r is Ok {
        let k = choose|k: int|
            0 <= k < m.transitions.len() && rule_answers(
                #[trigger] m.transitions[k],
                current_state@,
                event@,
            );
        let i = lemma_first_answer(m, current_state@, event@, k);
        lemma_planned_unique(m, current_state@, event@, i);
        assert forall|j: int| 0 <= j < i implies !((#[trigger] d.transitions@[j]).event@ == event@
            && texts(d.transitions@[j].from_states@).contains(current_state@)) by {
            assert(!rule_answers(m.transitions[j], current_state@, event@));
        }
        assert(m.transitions[i] == d.transitions@[i]@);
        i
    } else {
        assert forall|j: int| 0 <= j < d.transitions@.len() implies !((
        #[trigger] d.transitions@[j]).event@ == event@ && texts(
            d.transitions@[j].from_states@,
        ).contains(current_state@)) by {
            assert(!rule_answers(m.transitions[j], current_state@, event@));
        }
        0
    }
}

/// The guards of a rule pass exactly where each of them has the answer yes.
pub proof fn law_guards_pass_where_all_say_yes(
    rule: TransitionRule,
    answers: NameMap<bool>,
    r: Result<(), CoreError>,
)
    requires
        call_ensures(FsmPlanner::validate_guards, (&rule, &answers), r),
    ensures
        r is Ok <==> forall|i: int|
            0 <= i < rule.guards@.len() ==> answers@.contains_key((#[trigger] rule.guards@[i])@)
                && answers@[rule.guards@[i]@],
        r matches Err(e) ==> (e@ matches CoreErrorView::GuardFailed { guard_name, .. } && texts(
            rule.guards@,
        ).contains(guard_name) && !(answers@.contains_key(guard_name) && answers@[guard_name])),
{
    let guards = rule@.guards;
    law_guards_pass_together(guards, answers@);
    assert forall|i: int| 0 <= i < guards.len() implies guards[i]
        == (#[trigger] rule.guards@[i])@ by {}
    if r is Err {
        lemma_failing(guards, answers@, guards.len());
    }
    if forall|i: int|
        0 <= i < rule.guards@.len() ==> answers@.contains_key((#[trigger] rule.guards@[i])@)
            && answers@[rule.guards@[i]@] {
        assert forall|i: int| 0 <= i < guards.len() implies answers@.contains_key(
            #[trigger] guards[i],
        ) && answers@[guards[i]] by {
            assert(guards[i] == rule.guards@[i]@);
        }
    } else {
        let i = choose|i: int|
            0 <= i < rule.guards@.len() && !(answers@.contains_key((#[trigger] rule.guards@[i])@)
                && answers@[rule.guards@[i]@]);
        assert(guards[i] == rule.guards@[i]@);
    }
}

/// The guard that fails is one of the rule's, and does not say yes.
proof fn lemma_failing(guards: Seq<Seq<char>>, answers: Map<Seq<char>, bool>, n: nat)
    requires
        n <= guards.len(),
    ensures
        failed_guard(guards, answers, n) matches Some(g) ==> guards.contains(g) && !(
        answers.contains_key(g) && answers[g]),
    decreases n,
{
    if n > 0 {
        lemma_failing(guards, answers, (n - 1) as nat);
    }
}

/// The effects on an event are those of the definition that name it, in their order.
pub proof fn law_effects_are_those_of_the_event(
    d: MachineDefinition,
    event: &str,
    r: Vec<&EffectRule>,
)
    requires
        call_ensures(FsmPlanner::compute_effects, (&d, event), r),
    ensures
        forall|i: int|
            0 <= i < r@.len() ==> (#[trigger] r@[i]).on_event@ == event@ && exists|j: int|
                0 <= j < d.effects@.len() && (#[trigger] d.effects@[j])@ == r@[i]@,
        forall|j: int|
            0 <= j < d.effects@.len() && (#[trigger] d.effects@[j]).on_event@ == event@
                ==> exists|i: int| 0 <= i < r@.len() && (#[trigger] r@[i])@ == d.effects@[j]@,
{
    let all = d@.effects;
    let fires = |e: EffectRuleView| e.on_event == event@;
    let got = effect_ref_views(r@);
    assert(got == all.filter(fires));
    assert forall|i: int| 0 <= i < r@.len() implies (#[trigger] r@[i]).on_event@ == event@
        && exists|j: int| 0 <= j < d.effects@.len() && (#[trigger] d.effects@[j])@ == r@[i]@ by {
        assert(got[i] == r@[i]@);
        all.lemma_filter_pred(fires, i);
        assert(fires(got[i]));
        assert(got.contains(got[i]));
        all.lemma_filter_contains_rev(fires, got[i]);
        let j = all.index_of(got[i]);
        assert(all[j] == d.effects@[j]@);
    }
    assert forall|j: int|
        0 <= j < d.effects@.len() && (#[trigger] d.effects@[j]).on_event@ == event@ implies exists|
        i: int,
    |
        0 <= i < r@.len() && (#[trigger] r@[i])@ == d.effects@[j]@ by {
        assert(all[j] == d.effects@[j]@);
        all.lemma_filter_contains(fires, j);
        let i = got.index_of(all[j]);
        assert(got[i] == r@[i]@);
    }
}

/// A record of a transition has what it was given.
pub proof fn law_records_have_what_they_were_given(
    entity_id: String,
    machine: String,
    from_state: String,
    to_state: String,
    event: String,
    actor: String,
    ctx: serde_json::Value,
    idempotency_key: Option<String>,
    r: TransitionRecord,
)
    requires
        call_ensures(
            FsmPlanner::build_transition_record,
            (entity_id, machine, from_state, to_state, event, actor, ctx, idempotency_key),
            r,
        ),
    ensures
        r.entity_id@ == entity_id@ && r.machine@ == machine@,
        r.from_state@ == from_state@ && r.to_state@ == to_state@,
        r.event@ == event@ && r.actor@ == actor@,
        json_view(r.ctx) == json_view(ctx) && opt_text(r.idempotency_key) == opt_text(
            idempotency_key,
        ),
        is_uuid4(r.id@),
{
    let v = r@;
    assert(v.entity_id == r.entity_id@ && v.machine == r.machine@);
}

/// A definition that is built with a name has that name, and all else as before.
pub proof fn law_built_with_name(
    a: MachineBuilder,
    b: MachineBuilder,
    name: &str,
    r: Result<MachineDefinition, CoreError>,
    s: Result<MachineDefinition, CoreError>,
)
    requires
        call_ensures(MachineBuilder::name, (a, name), b),
        call_ensures(MachineBuilder::build, (a,), r),
        call_ensures(MachineBuilder::build, (b,), s),
        r is Ok,
        s is Ok,
    ensures
        s->Ok_0@.version == r->Ok_0@.version,
        s->Ok_0@.states == r->Ok_0@.states,
        s->Ok_0@.initial_state == r->Ok_0@.initial_state,
        s->Ok_0@.transitions == r->Ok_0@.transitions,
        s->Ok_0@.effects == r->Ok_0@.effects,
        s->Ok_0.name@ == name@,
{
}

/// A definition that is built with a version has that version, and all else as before.
pub proof fn law_built_with_version(
    a: MachineBuilder,
    b: MachineBuilder,
    version: u32,
    r: Result<MachineDefinition, CoreError>,
    s: Result<MachineDefinition, CoreError>,
)
    requires
        call_ensures(MachineBuilder::version, (a, version), b),
        call_ensures(MachineBuilder::build, (a,), r),
        call_ensures(MachineBuilder::build, (b,), s),
        r is Ok,
        s is Ok,
    ensures
        s->Ok_0@.name == r->Ok_0@.name,
        s->Ok_0@.states == r->Ok_0@.states,
        s->Ok_0@.initial_state == r->Ok_0@.initial_state,
        s->Ok_0@.transitions == r->Ok_0@.transitions,
        s->Ok_0@.effects == r->Ok_0@.effects,
        s->Ok_0.version == version,
{
}

/// A definition that is built with an initial state has that one, and all else as
/// before.
pub proof fn law_built_with_initial_state(
    a: MachineBuilder,
    b: MachineBuilder,
    state: &str,
    r: Result<MachineDefinition, CoreError>,
    s: Result<MachineDefinition, CoreError>,
)
    requires
        call_ensures(MachineBuilder::initial_state, (a, state), b),
        call_ensures(MachineBuilder::build, (a,), r),
        call_ensures(MachineBuilder::build, (b,), s),
        r is Ok,
        s is Ok,
    ensures
        s->Ok_0@.name == r->Ok_0@.name,
        s->Ok_0@.version == r->Ok_0@.version,
        s->Ok_0@.states == r->Ok_0@.states,
        s->Ok_0@.transitions == r->Ok_0@.transitions,
        s->Ok_0@.effects == r->Ok_0@.effects,
        s->Ok_0.initial_state@ == state@,
{
}

/// A definition that is built with one more state has it at the end, and all else as
/// before.
pub proof fn law_built_with_state(
    a: MachineBuilder,
    b: MachineBuilder,
    state: &str,
    r: Result<MachineDefinition, CoreError>,
    s: Result<MachineDefinition, CoreError>,
)
    requires
        call_ensures(MachineBuilder::state, (a, state), b),
        call_ensures(MachineBuilder::build, (a,), r),
        call_ensures(MachineBuilder::build, (b,), s),
        r is Ok,
        s is Ok,
    ensures
        s->Ok_0@.name == r->Ok_0@.name,
        s->Ok_0@.version == r->Ok_0@.version,
        s->Ok_0@.initial_state == r->Ok_0@.initial_state,
        s->Ok_0@.transitions == r->Ok_0@.transitions,
        s->Ok_0@.effects == r->Ok_0@.effects,
        s->Ok_0@.states == r->Ok_0@.states.push(state@),
{
}

/// A definition that is built with one more rule has it at the end, and all else as
/// before.
pub proof fn law_built_with_transition(
    a: MachineBuilder,
    b: MachineBuilder,
    event: &str,
    from_states: &[&str],
    to_state: &str,
    r: Result<MachineDefinition, CoreError>,
    s: Result<MachineDefinition, CoreError>,
)
    requires
        call_ensures(MachineBuilder::transition, (a, event, from_states, to_state), b),
        call_ensures(MachineBuilder::build, (a,), r),
        call_ensures(MachineBuilder::build, (b,), s),
        r is Ok,
        s is Ok,
    ensures
        s->Ok_0@.name == r->Ok_0@.name,
        s->Ok_0@.version == r->Ok_0@.version,
        s->Ok_0@.states == r->Ok_0@.states,
        s->Ok_0@.initial_state == r->Ok_0@.initial_state,
        s->Ok_0@.effects == r->Ok_0@.effects,
        s->Ok_0@.transitions.len() == r->Ok_0@.transitions.len() + 1,
        s->Ok_0@.transitions.drop_last() == r->Ok_0@.transitions,
        ({
            let t = s->Ok_0@.transitions.last();
            &&& t.event == event@ && t.to_state == to_state@ && t.guards.len() == 0
            &&& t.from_states.len() == from_states@.len()
            &&& forall|i: int|
                0 <= i < from_states@.len() ==> t.from_states[i] == (#[trigger] from_states@[i])@
        }),
{
}

/// A definition that is built with one more guarded rule has it at the end, and all else
/// as before.
pub proof fn law_built_with_transition_with_guards(
    a: MachineBuilder,
    b: MachineBuilder,
    event: &str,
    from_states: &[&str],
    to_state: &str,
    guards: &[&str],
    r: Result<MachineDefinition, CoreError>,
    s: Result<MachineDefinition, CoreError>,
)
    requires
        call_ensures(MachineBuilder::transition_with_guards, (a, event, from_states, to_state,
            guards), b),
        call_ensures(MachineBuilder::build, (a,), r),
        call_ensures(MachineBuilder::build, (b,), s),
        r is Ok,
        s is Ok,
    ensures
        s->Ok_0@.name == r->Ok_0@.name,
        s->Ok_0@.version == r->Ok_0@.version,
        s->Ok_0@.states == r->Ok_0@.states,
        s->Ok_0@.initial_state == r->Ok_0@.initial_state,
        s->Ok_0@.effects == r->Ok_0@.effects,
        s->Ok_0@.transitions.len() == r->Ok_0@.transitions.len() + 1,
        s->Ok_0@.transitions.drop_last() == r->Ok_0@.transitions,
        ({
            let t = s->Ok_0@.transitions.last();
            &&& t.event == event@ && t.to_state == to_state@
            &&& t.from_states.len() == from_states@.len() && t.guards.len() == guards@.len()
            &&& forall|i: int|
                0 <= i < from_states@.len() ==> t.from_states[i] == (#[trigger] from_states@[i])@
            &&& forall|i: int|
                0 <= i < guards@.len() ==> t.guards[i] == (#[trigger] guards@[i])@
        }),
{
}

/// A definition that is built with one more effect has it at the end, and all else as
/// before.
pub proof fn law_built_with_effect(
    a: MachineBuilder,
    b: MachineBuilder,
    on_event: &str,
    effect: &str,
    payload: Option<serde_json::Value>,
    r: Result<MachineDefinition, CoreError>,
    s: Result<MachineDefinition, CoreError>,
)
    requires
        call_ensures(MachineBuilder::effect, (a, on_event, effect, payload), b),
        call_ensures(MachineBuilder::build, (a,), r),
        call_ensures(MachineBuilder::build, (b,), s),
        r is Ok,
        s is Ok,
    ensures
        s->Ok_0@.name == r->Ok_0@.name,
        s->Ok_0@.version == r->Ok_0@.version,
        s->Ok_0@.states == r->Ok_0@.states,
        s->Ok_0@.initial_state == r->Ok_0@.initial_state,
        s->Ok_0@.transitions == r->Ok_0@.transitions,
        s->Ok_0@.effects.len() == r->Ok_0@.effects.len() + 1,
        s->Ok_0@.effects.drop_last() == r->Ok_0@.effects,
        ({
            let t = s->Ok_0@.effects.last();
            &&& t.on_event == on_event@ && t.effect == effect@
            &&& match payload {
                Some(p) => t.payload == Some(json_view(p)),
                None => t.payload is None,
            }
        }),
{
}

} // verus!
