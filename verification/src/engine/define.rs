//! When two definitions say the same.
use crate::fsm::machine::{
    effect_rule_views, rule_views, EffectRule, EffectRuleView, MachineDefinition, MachineView,
    TransitionRule,
};
use crate::json::same_json;
use crate::storage::rows::{settled, settled_payload, settled_rule};
use crate::text::same_texts;
use vstd::prelude::*;

verus! {

/// Whether two definitions say the same, whenever they were created.
pub open spec fn same_content(a: MachineView, b: MachineView) -> bool {
    settled(a) == (MachineView { created_at: a.created_at, ..settled(b) })
}

/// Whether two rules say the same.
fn same_rule(a: &TransitionRule, b: &TransitionRule) -> (r: bool)
    ensures
        r == (a@ == b@),
{
    a.event == b.event && same_texts(&a.from_states, &b.from_states) && a.to_state == b.to_state
        && same_texts(&a.guards, &b.guards)
}

/// Whether two lists of rules say the same.
fn same_rules(a: &Vec<TransitionRule>, b: &Vec<TransitionRule>) -> (r: bool)
    ensures
        r == (rule_views(a@) == rule_views(b@)),
{
    if a.len() != b.len() {
        assert(rule_views(a@).len() != rule_views(b@).len());
        return false;
    }
    let mut i: usize = 0;
    while i < a.len()
        invariant
            i <= a.len(),
            a.len() == b.len(),
            forall|j: int| 0 <= j < i ==> rule_views(a@)[j] == rule_views(b@)[j],
        decreases a.len() - i,
    {
        if !same_rule(&a[i], &b[i]) {
            assert(rule_views(a@)[i as int] != rule_views(b@)[i as int]);
            return false;
        }
        i = i + 1;
    }
    assert(rule_views(a@) =~= rule_views(b@));
    true
}

/// Whether two payloads say the same. The null value is no payload.
fn same_payload(a: &Option<serde_json::Value>, b: &Option<serde_json::Value>) -> (r: bool)
    ensures
        r == (settled_payload(crate::json::opt_json(*a)) == settled_payload(
            crate::json::opt_json(*b),
        )),
{
    match (a, b) {
        (Some(x), Some(y)) => same_json(x, y),
        (Some(x), None) => x.is_null(),
        (None, Some(y)) => y.is_null(),
        (None, None) => true,
    }
}

/// Effect rules as a store keeps them.
spec fn settled_rules(s: Seq<EffectRuleView>) -> Seq<EffectRuleView> {
    Seq::new(s.len(), |i: int| settled_rule(s[i]))
}

/// Whether two lists of effect rules say the same.
fn same_effects(a: &Vec<EffectRule>, b: &Vec<EffectRule>) -> (r: bool)
    ensures
        r == (settled_rules(effect_rule_views(a@)) == settled_rules(effect_rule_views(b@))),
{
    let ghost x = settled_rules(effect_rule_views(a@));
    let ghost y = settled_rules(effect_rule_views(b@));
    if a.len() != b.len() {
        assert(x.len() != y.len());
        return false;
    }
    let mut i: usize = 0;
    while i < a.len()
        invariant
            i <= a.len(),
            a.len() == b.len(),
            x == settled_rules(effect_rule_views(a@)),
            y == settled_rules(effect_rule_views(b@)),
            forall|j: int| 0 <= j < i ==> x[j] == y[j],
        decreases a.len() - i,
    {
        let p = &a[i];
        let q = &b[i];
        assert(x[i as int] == settled_rule(p@) && y[i as int] == settled_rule(q@));
        if p.on_event != q.on_event || p.effect != q.effect || !same_payload(
            &p.payload,
            &q.payload,
        ) {
            assert(x[i as int] != y[i as int]);
            return false;
        }
        i = i + 1;
    }
    assert(x =~= y);
    true
}

/// Whether two definitions say the same, whenever they were created.
pub fn same_definition(a: &MachineDefinition, b: &MachineDefinition) -> (r: bool)
    ensures
        r == same_content(a@, b@),
{
    proof {
        assert(settled(a@).effects =~= settled_rules(effect_rule_views(a.effects@)));
        assert(settled(b@).effects =~= settled_rules(effect_rule_views(b.effects@)));
    }
    a.name == b.name && a.version == b.version && same_texts(&a.states, &b.states)
        && a.initial_state == b.initial_state && same_rules(&a.transitions, &b.transitions)
        && same_effects(&a.effects, &b.effects)
}

} // verus!
