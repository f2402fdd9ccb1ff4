//! The planner: which rule a request uses, whether its guards let it pass, and
//! what it emits.
use crate::clock::now;
use crate::fsm::error::{CoreError, CoreErrorView};
use crate::fsm::machine::{
    effect_rule_views, EffectRule, EffectRuleView, MachineDefinition, MachineView, RuleView,
    TransitionRule,
};
use crate::fsm::record::{RecordView, TransitionRecord};
use crate::id::{fresh, is_uuid4};
use crate::json::json_view;
use crate::names::NameMap;
use crate::text::{contains_text, opt_text, texts};
use vstd::prelude::*;

verus! {

/// Whether a rule answers `event` in `state`.
pub open spec fn rule_answers(rule: RuleView, state: Seq<char>, event: Seq<char>) -> bool {
    rule.event == event && rule.from_states.contains(state)
}

/// Whether the rule at `i` is the first that answers `event` in `state`.
pub open spec fn is_planned(m: MachineView, state: Seq<char>, event: Seq<char>, i: int) -> bool {
    &&& 0 <= i < m.transitions.len()
    &&& rule_answers(m.transitions[i], state, event)
    &&& forall|j: int| 0 <= j < i ==> !rule_answers(#[trigger] m.transitions[j], state, event)
}

/// Whether some rule answers `event` in `state`.
pub open spec fn has_plan(m: MachineView, state: Seq<char>, event: Seq<char>) -> bool {
    exists|i: int|
        0 <= i < m.transitions.len() && rule_answers(#[trigger] m.transitions[i], state, event)
}

/// The first rule that answers `event` in `state`.
pub open spec fn planned_rule(m: MachineView, state: Seq<char>, event: Seq<char>) -> RuleView {
    m.transitions[choose|i: int| #[trigger] is_planned(m, state, event, i)]
}

/// The first guard of the first `n` that has no `true` among the results.
pub open spec fn failed_guard(
    guards: Seq<Seq<char>>,
    results: Map<Seq<char>, bool>,
    n: nat,
) -> Option<Seq<char>>
    decreases n,
{
    if n == 0 {
        None
    } else {
        match failed_guard(guards, results, (n - 1) as nat) {
            Some(g) => Some(g),
            None => if results.contains_key(guards[n - 1]) && results[guards[n - 1]] {
                None
            } else {
                Some(guards[n - 1])
            },
        }
    }
}

/// The effect rules that fire on `event`, in the order of the definition.
pub open spec fn effects_on(m: MachineView, event: Seq<char>) -> Seq<EffectRuleView> {
    m.effects.filter(|e: EffectRuleView| e.on_event == event)
}

/// The contents of a sequence of borrowed effect rules.
pub open spec fn effect_ref_views(s: Seq<&EffectRule>) -> Seq<EffectRuleView> {
    Seq::new(s.len(), |i: int| s[i]@)
}

/// Plans transitions.
pub struct FsmPlanner;

impl FsmPlanner {
    /// The first rule that answers `event` in `current_state`;
    /// `IllegalTransition` where there is none.
    pub fn plan_transition<'a>(
        definition: &'a MachineDefinition,
        current_state: &str,
        event: &str,
        entity_id: &str,
    ) -> (r: Result<&'a TransitionRule, CoreError>)
        ensures
            match r {
                Ok(rule) => {
                    &&& has_plan(definition@, current_state@, event@)
                    &&& rule@ == planned_rule(definition@, current_state@, event@)
                },
                Err(e) => {
                    &&& !has_plan(definition@, current_state@, event@)
                    &&& e@ == (CoreErrorView::IllegalTransition {
                        entity_id: entity_id@,
                        machine: definition.name@,
                        event: event@,
                        current_state: current_state@,
                    })
                },
            },
    {
        let ghost m = definition@;
        let mut i: usize = 0;
        while i < definition.transitions.len()
            invariant
                i <= definition.transitions.len(),
                m == definition@,
                forall|j: int|
                    0 <= j < i ==> !rule_answers(#[trigger] m.transitions[j], current_state@,
                        event@),
            decreases definition.transitions.len() - i,
        {
            let rule = &definition.transitions[i];
            assert(m.transitions[i as int] == rule@);
            if *rule.event.as_str() == *event && contains_text(&rule.from_states, current_state) {
                proof {
                    assert(is_planned(m, current_state@, event@, i as int));
                    lemma_planned_unique(m, current_state@, event@, i as int);
                }
                return Ok(rule);
            }
            i = i + 1;
        }
        Err(
            CoreError::IllegalTransition {
                entity_id: entity_id.to_owned(),
                machine: definition.name.clone(),
                event: event.to_owned(),
                current_state: current_state.to_owned(),
            },
        )
    }

    /// Checks that every guard of `rule` has the result `true`. The error
    /// names the first that has not, or has no result at all.
    pub fn validate_guards(rule: &TransitionRule, guard_results: &NameMap<bool>) -> (r: Result<
        (),
        CoreError,
    >)
        ensures
            match r {
                Ok(()) => failed_guard(
                    rule@.guards,
                    guard_results@,
                    rule@.guards.len(),
                ) is None,
                Err(e) => {
                    let failed = failed_guard(rule@.guards, guard_results@, rule@.guards.len());
                    failed is Some && e@ == (CoreErrorView::GuardFailed {
                        guard_name: failed->0,
                        reason: "guard evaluated to false"@,
                    })
                },
            },
    {
        let ghost guards = rule@.guards;
        let mut i: usize = 0;
        while i < rule.guards.len()
            invariant
                i <= rule.guards.len(),
                guards == texts(rule.guards@),
                guards == rule@.guards,
                failed_guard(guards, guard_results@, i as nat) is None,
            decreases rule.guards.len() - i,
        {
            let guard = &rule.guards[i];
            assert(guards[i as int] == guard@);
            let passed = match guard_results.get(guard.as_str()) {
                Some(b) => *b,
                None => false,
            };
            if !passed {
                proof {
                    lemma_failed_guard_stays(
                        guards,
                        guard_results@,
                        (i + 1) as nat,
                        guards.len(),
                    );
                }
                return Err(
                    CoreError::GuardFailed {
                        guard_name: guard.clone(),
                        reason: "guard evaluated to false".to_owned(),
                    },
                );
            }
            i = i + 1;
        }
        Ok(())
    }

    /// The effect rules that fire on `event`.
    pub fn compute_effects<'a>(definition: &'a MachineDefinition, event: &str) -> (r: Vec<
        &'a EffectRule,
    >)
        ensures
            effect_ref_views(r@) == effects_on(definition@, event@),
    {
        let ghost all = definition@.effects;
        let ghost fires = |e: EffectRuleView| e.on_event == event@;
        let mut r: Vec<&'a EffectRule> = Vec::new();
        let mut i: usize = 0;
        assert(effect_ref_views(r@) =~= all.take(0).filter(fires)) by {
            reveal_with_fuel(Seq::filter, 1);
        }
        while i < definition.effects.len()
            invariant
                i <= definition.effects.len(),
                all == effect_rule_views(definition.effects@),
                fires == (|e: EffectRuleView| e.on_event == event@),
                effect_ref_views(r@) == all.take(i as int).filter(fires),
            decreases definition.effects.len() - i,
        {
            let rule = &definition.effects[i];
            let ghost before = r@;
            proof {
                assert(all[i as int] == rule@);
                assert(all.take(i + 1).drop_last() =~= all.take(i as int));
                reveal_with_fuel(Seq::filter, 1);
            }
            if *rule.on_event.as_str() == *event {
                r.push(rule);
                assert(effect_ref_views(r@) =~= effect_ref_views(before).push(rule@));
            }
            i = i + 1;
        }
        assert(all.take(i as int) =~= all);
        r
    }

    /// A record of the transition, made now, with a fresh identifier, without
    /// a sequence number and without a version.
    pub fn build_transition_record(
        entity_id: String,
        machine: String,
        from_state: String,
        to_state: String,
        event: String,
        actor: String,
        ctx: serde_json::Value,
        idempotency_key: Option<String>,
    ) -> (r: TransitionRecord)
        ensures
            is_uuid4(r.id@),
            r.timestamp.valid(),
            r@ == (RecordView {
                id: r.id@,
                sequence: 0,
                entity_id: entity_id@,
                machine: machine@,
                from_state: from_state@,
                to_state: to_state@,
                event: event@,
                actor: actor@,
                ctx: json_view(ctx),
                idempotency_key: opt_text(idempotency_key),
                version: 0,
                timestamp: r.timestamp,
            }),
    {
        TransitionRecord {
            id: fresh(),
            sequence: 0,
            entity_id,
            machine,
            from_state,
            to_state,
            event,
            actor,
            ctx,
            idempotency_key,
            version: 0,
            timestamp: now(),
        }
    }
}

pub(crate) proof fn lemma_planned_unique(m: MachineView, state: Seq<char>, event: Seq<char>, i: int)
    requires
        is_planned(m, state, event, i),
    ensures
        planned_rule(m, state, event) == m.transitions[i],
{
    let k = choose|k: int| #[trigger] is_planned(m, state, event, k);
    assert(rule_answers(m.transitions[k], state, event));
    assert(k == i);
}

proof fn lemma_failed_guard_stays(
    guards: Seq<Seq<char>>,
    results: Map<Seq<char>, bool>,
    n: nat,
    m: nat,
)
    requires
        failed_guard(guards, results, n) is Some,
        n <= m,
    ensures
        failed_guard(guards, results, m) == failed_guard(guards, results, n),
    decreases m,
{
    if n < m {
        lemma_failed_guard_stays(guards, results, n, (m - 1) as nat);
    }
}

/// The least position among those where a rule answers.
pub(crate) proof fn lemma_first_answer(m: MachineView, state: Seq<char>, event: Seq<char>,
    n: int) -> (i: int)
    requires
        0 <= n < m.transitions.len(),
        rule_answers(m.transitions[n], state, event),
    ensures
        is_planned(m, state, event, i),
        i <= n,
    decreases n,
{
    if exists|j: int| 0 <= j < n && rule_answers(#[trigger] m.transitions[j], state, event) {
        let j = choose|j: int|
            0 <= j < n && rule_answers(#[trigger] m.transitions[j], state, event);
        lemma_first_answer(m, state, event, j)
    } else {
        n
    }
}

/// In a well-formed machine at most one rule answers an event in a state, so
/// the planned rule is the only one.
pub proof fn law_plan_is_deterministic(
    m: MachineView,
    state: Seq<char>,
    event: Seq<char>,
    i: int,
    j: int,
)
    requires
        m.well_formed(),
        0 <= i < m.transitions.len(),
        0 <= j < m.transitions.len(),
        rule_answers(m.transitions[i], state, event),
        rule_answers(m.transitions[j], state, event),
    ensures
        i == j,
        planned_rule(m, state, event) == m.transitions[i],
{
    let f = choose|f: int|
        0 <= f < m.transitions[i].from_states.len() && m.transitions[i].from_states[f] == state;
    let g = choose|g: int|
        0 <= g < m.transitions[j].from_states.len() && m.transitions[j].from_states[g] == state;
    assert(crate::fsm::machine::same_pair(m.transitions, i, f, j, g));
    assert(crate::fsm::machine::same_pair(m.transitions, j, g, i, f));
    let k = lemma_first_answer(m, state, event, i);
    lemma_planned_unique(m, state, event, k);
    let h = choose|h: int|
        0 <= h < m.transitions[k].from_states.len() && m.transitions[k].from_states[h] == state;
    assert(crate::fsm::machine::same_pair(m.transitions, k, h, i, f));
}

/// In a well-formed machine a planned transition starts and ends in states
/// that the machine lists.
pub proof fn law_plan_stays_in_states(m: MachineView, state: Seq<char>, event: Seq<char>)
    requires
        m.well_formed(),
        has_plan(m, state, event),
    ensures
        m.states.contains(state),
        m.states.contains(planned_rule(m, state, event).to_state),
{
    let n = choose|n: int|
        0 <= n < m.transitions.len() && rule_answers(#[trigger] m.transitions[n], state, event);
    law_plan_is_deterministic(m, state, event, n, n);
    let f = choose|f: int|
        0 <= f < m.transitions[n].from_states.len() && m.transitions[n].from_states[f] == state;
    assert(crate::fsm::machine::has_from(m.transitions, n, f));
    assert(m.states.contains(m.transitions[n].from_states[f]));
}

/// Guards let a transition pass exactly where each of them says yes; a rule
/// without guards always passes. Where they do not, the one that is named is a
/// guard of the rule that did not say yes.
pub proof fn law_guards_pass_together(guards: Seq<Seq<char>>, results: Map<Seq<char>, bool>)
    ensures
        failed_guard(guards, results, guards.len()) is None <==> forall|i: int|
            0 <= i < guards.len() ==> results.contains_key(#[trigger] guards[i])
                && results[guards[i]],
        failed_guard(guards, results, guards.len()) matches Some(g) ==> guards.contains(g) && !(
        results.contains_key(g) && results[g]),
{
    lemma_guards_pass(guards, results, guards.len());
}

proof fn lemma_guards_pass(guards: Seq<Seq<char>>, results: Map<Seq<char>, bool>, n: nat)
    requires
        n <= guards.len(),
    ensures
        failed_guard(guards, results, n) is None <==> forall|i: int|
            0 <= i < n ==> results.contains_key(#[trigger] guards[i]) && results[guards[i]],
        failed_guard(guards, results, n) matches Some(g) ==> guards.contains(g) && !(
        results.contains_key(g) && results[g]),
    decreases n,
{
    if n > 0 {
        lemma_guards_pass(guards, results, (n - 1) as nat);
        assert(guards.contains(guards[n - 1]));
    }
}

} // verus!
