//! Machine definitions: what they hold, when they are valid, how to build one.
use crate::clock::Timestamp;
use crate::fsm::error::{CoreError, CoreErrorView};
use crate::json::{clone_opt, opt_json, Json};
use crate::text::{clone_texts, contains_text, texts};
use vstd::prelude::*;

verus! {

/// On `event`, an entity in one of `from_states` moves to `to_state`, unless a
/// guard objects.
#[derive(Debug)]
pub struct TransitionRule {
    pub event: String,
    pub from_states: Vec<String>,
    pub to_state: String,
    pub guards: Vec<String>,
}

/// The contents of a `TransitionRule`.
#[verifier::ext_equal]
pub struct RuleView {
    pub event: Seq<char>,
    pub from_states: Seq<Seq<char>>,
    pub to_state: Seq<char>,
    pub guards: Seq<Seq<char>>,
}

impl View for TransitionRule {
    type V = RuleView;

    open spec fn view(&self) -> RuleView {
        RuleView {
            event: self.event@,
            from_states: texts(self.from_states@),
            to_state: self.to_state@,
            guards: texts(self.guards@),
        }
    }
}

impl Clone for TransitionRule {
    fn clone(&self) -> (r: Self)
        ensures
            r@ == self@,
    {
        TransitionRule {
            event: self.event.clone(),
            from_states: clone_texts(&self.from_states),
            to_state: self.to_state.clone(),
            guards: clone_texts(&self.guards),
        }
    }
}

/// Every transition on `on_event` emits `effect`.
#[derive(Debug)]
pub struct EffectRule {
    pub on_event: String,
    pub effect: String,
    pub payload: Option<serde_json::Value>,
}

/// The contents of an `EffectRule`; the payload by its JSON value.
#[verifier::ext_equal]
pub struct EffectRuleView {
    pub on_event: Seq<char>,
    pub effect: Seq<char>,
    pub payload: Option<Json>,
}

impl View for EffectRule {
    type V = EffectRuleView;

    open spec fn view(&self) -> EffectRuleView {
        EffectRuleView {
            on_event: self.on_event@,
            effect: self.effect@,
            payload: opt_json(self.payload),
        }
    }
}

impl Clone for EffectRule {
    fn clone(&self) -> (r: Self)
        ensures
            r@ == self@,
    {
        EffectRule {
            on_event: self.on_event.clone(),
            effect: self.effect.clone(),
            payload: clone_opt(&self.payload),
        }
    }
}

/// The contents of a sequence of rules.
pub open spec fn rule_views(s: Seq<TransitionRule>) -> Seq<RuleView> {
    Seq::new(s.len(), |i: int| s[i]@)
}

/// The contents of a sequence of effect rules.
pub open spec fn effect_rule_views(s: Seq<EffectRule>) -> Seq<EffectRuleView> {
    Seq::new(s.len(), |i: int| s[i]@)
}

/// Copies a list of rules.
pub fn clone_rules(v: &Vec<TransitionRule>) -> (r: Vec<TransitionRule>)
    ensures
        rule_views(r@) == rule_views(v@),
{
    let mut r: Vec<TransitionRule> = Vec::new();
    let mut i: usize = 0;
    while i < v.len()
        invariant
            i <= v.len(),
            r.len() == i,
            forall|j: int| 0 <= j < i ==> r[j]@ == v[j]@,
        decreases v.len() - i,
    {
        r.push(v[i].clone());
        i = i + 1;
    }
    assert(rule_views(r@) =~= rule_views(v@));
    r
}

/// Copies a list of effect rules.
pub fn clone_effect_rules(v: &Vec<EffectRule>) -> (r: Vec<EffectRule>)
    ensures
        effect_rule_views(r@) == effect_rule_views(v@),
{
    let mut r: Vec<EffectRule> = Vec::new();
    let mut i: usize = 0;
    while i < v.len()
        invariant
            i <= v.len(),
            r.len() == i,
            forall|j: int| 0 <= j < i ==> r[j]@ == v[j]@,
        decreases v.len() - i,
    {
        r.push(v[i].clone());
        i = i + 1;
    }
    assert(effect_rule_views(r@) =~= effect_rule_views(v@));
    r
}

/// A machine: its states, its rules and what its events emit.
#[derive(Debug)]
pub struct MachineDefinition {
    pub name: String,
    pub version: u32,
    pub states: Vec<String>,
    pub initial_state: String,
    pub transitions: Vec<TransitionRule>,
    pub effects: Vec<EffectRule>,
    pub created_at: Timestamp,
}

/// The contents of a `MachineDefinition`.
#[verifier::ext_equal]
pub struct MachineView {
    pub name: Seq<char>,
    pub version: u32,
    pub states: Seq<Seq<char>>,
    pub initial_state: Seq<char>,
    pub transitions: Seq<RuleView>,
    pub effects: Seq<EffectRuleView>,
    pub created_at: Timestamp,
}

impl View for MachineDefinition {
    type V = MachineView;

    open spec fn view(&self) -> MachineView {
        MachineView {
            name: self.name@,
            version: self.version,
            states: texts(self.states@),
            initial_state: self.initial_state@,
            transitions: rule_views(self.transitions@),
            effects: effect_rule_views(self.effects@),
            created_at: self.created_at,
        }
    }
}

impl Clone for MachineDefinition {
    fn clone(&self) -> (r: Self)
        ensures
            r@ == self@,
    {
        MachineDefinition {
            name: self.name.clone(),
            version: self.version,
            states: clone_texts(&self.states),
            initial_state: self.initial_state.clone(),
            transitions: clone_rules(&self.transitions),
            effects: clone_effect_rules(&self.effects),
            created_at: self.created_at,
        }
    }
}

// ---------------------------------------------------------------------------
// Validity
// ---------------------------------------------------------------------------

/// The first element that repeats an earlier one.
pub open spec fn first_repeat(s: Seq<Seq<char>>) -> Option<Seq<char>>
    decreases s.len(),
{
    if s.len() == 0 {
        None
    } else {
        match first_repeat(s.drop_last()) {
            Some(x) => Some(x),
            None => if s.drop_last().contains(s.last()) {
                Some(s.last())
            } else {
                None
            },
        }
    }
}

/// Whether position `(r, f)` comes before `(r2, f2)` in reading order.
pub open spec fn reads_before(r: int, f: int, r2: int, f2: int) -> bool {
    r < r2 || (r == r2 && f < f2)
}

/// Whether the from-state at position `(r, f)` of the rules exists.
pub open spec fn has_from(rules: Seq<RuleView>, r: int, f: int) -> bool {
    0 <= r < rules.len() && 0 <= f < rules[r].from_states.len()
}

/// Whether positions `(r, f)` and `(r2, f2)` have one event and one from-state.
pub open spec fn same_pair(rules: Seq<RuleView>, r: int, f: int, r2: int, f2: int) -> bool {
    rules[r].event == rules[r2].event && rules[r].from_states[f] == rules[r2].from_states[f2]
}

/// Whether an earlier position repeats the pair of `(r, f)`.
pub open spec fn pair_taken(rules: Seq<RuleView>, r: int, f: int) -> bool {
    exists|r1: int, f1: int|
        has_from(rules, r1, f1) && reads_before(r1, f1, r, f) && #[trigger] same_pair(
            rules,
            r1,
            f1,
            r,
            f,
        )
}

/// What is wrong with the from-state at `(r, f)`, if anything.
pub open spec fn from_fault(
    states: Seq<Seq<char>>,
    rules: Seq<RuleView>,
    r: int,
    f: int,
) -> Option<CoreErrorView> {
    let event = rules[r].event;
    let from = rules[r].from_states[f];
    if !states.contains(from) {
        Some(
            CoreErrorView::InvalidDefinition {
                reason: "transition '"@ + event + "' references unknown from_state '"@ + from
                    + "'"@,
            },
        )
    } else if pair_taken(rules, r, f) {
        Some(
            CoreErrorView::InvalidDefinition {
                reason: "duplicate (event, from_state) pair: ('"@ + event + "', '"@ + from
                    + "')"@,
            },
        )
    } else {
        None
    }
}

/// The first fault among the first `n` from-states of rule `r`.
pub open spec fn from_faults(
    states: Seq<Seq<char>>,
    rules: Seq<RuleView>,
    r: int,
    n: nat,
) -> Option<CoreErrorView>
    decreases n,
{
    if n == 0 {
        None
    } else {
        match from_faults(states, rules, r, (n - 1) as nat) {
            Some(e) => Some(e),
            None => from_fault(states, rules, r, n - 1),
        }
    }
}

/// What is wrong with rule `r`, if anything: its from-states come first.
pub open spec fn rule_fault(states: Seq<Seq<char>>, rules: Seq<RuleView>, r: int) -> Option<
    CoreErrorView,
> {
    match from_faults(states, rules, r, rules[r].from_states.len()) {
        Some(e) => Some(e),
        None => if !states.contains(rules[r].to_state) {
            Some(
                CoreErrorView::InvalidDefinition {
                    reason: "transition '"@ + rules[r].event + "' references unknown to_state '"@
                        + rules[r].to_state + "'"@,
                },
            )
        } else {
            None
        },
    }
}

/// The first fault among the first `n` rules.
pub open spec fn rule_faults(states: Seq<Seq<char>>, rules: Seq<RuleView>, n: nat) -> Option<
    CoreErrorView,
>
    decreases n,
{
    if n == 0 {
        None
    } else {
        match rule_faults(states, rules, (n - 1) as nat) {
            Some(e) => Some(e),
            None => rule_fault(states, rules, n - 1),
        }
    }
}

impl MachineView {
    /// The first thing that is wrong with the definition: a repeated state,
    /// then an unknown initial state, then the rules in order.
    pub open spec fn fault(self) -> Option<CoreErrorView> {
        match first_repeat(self.states) {
            Some(name) => Some(CoreErrorView::DuplicateState { name }),
            None => if !self.states.contains(self.initial_state) {
                Some(
                    CoreErrorView::InvalidDefinition {
                        reason: "initial_state '"@ + self.initial_state
                            + "' is not in the states list"@,
                    },
                )
            } else {
                rule_faults(self.states, self.transitions, self.transitions.len())
            },
        }
    }

    /// Whether the definition is valid: no state is listed twice, every state
    /// that is referred to is listed, and no two rules answer the same event
    /// in the same state.
    pub open spec fn well_formed(self) -> bool {
        &&& self.states.no_duplicates()
        &&& self.states.contains(self.initial_state)
        &&& forall|r: int, f: int|
            #![trigger self.transitions[r].from_states[f]]
            has_from(self.transitions, r, f) ==> self.states.contains(
                self.transitions[r].from_states[f],
            )
        &&& forall|r: int|
            0 <= r < self.transitions.len() ==> self.states.contains(
                (#[trigger] self.transitions[r]).to_state,
            )
        &&& forall|r: int, f: int, r2: int, f2: int|
            has_from(self.transitions, r, f) && has_from(self.transitions, r2, f2) && reads_before(
                r,
                f,
                r2,
                f2,
            ) ==> !#[trigger] same_pair(self.transitions, r, f, r2, f2)
    }
}

proof fn lemma_first_repeat(s: Seq<Seq<char>>)
    ensures
        first_repeat(s) is None <==> s.no_duplicates(),
    decreases s.len(),
{
    if s.len() > 0 {
        let t = s.drop_last();
        lemma_first_repeat(t);
        if t.no_duplicates() && !t.contains(s.last()) {
            assert forall|i: int, j: int| 0 <= i < j < s.len() implies s[i] != s[j] by {
                assert(t[i] == s[i]);
                if j < t.len() {
                    assert(t[j] == s[j]);
                }
            }
        }
        if s.no_duplicates() {
            assert forall|i: int, j: int| 0 <= i < j < t.len() implies t[i] != t[j] by {
                assert(s[i] != s[j]);
            }
            if t.contains(s.last()) {
                let i = choose|i: int| 0 <= i < t.len() && t[i] == s.last();
                assert(s[i] == s[s.len() - 1]);
            }
        }
    }
}

/// Whether from-state `(r, f)` is listed and its pair is new.
spec fn from_ok(states: Seq<Seq<char>>, rules: Seq<RuleView>, r: int, f: int) -> bool {
    states.contains(rules[r].from_states[f]) && !pair_taken(rules, r, f)
}

proof fn lemma_from_faults(states: Seq<Seq<char>>, rules: Seq<RuleView>, r: int, n: nat)
    ensures
        from_faults(states, rules, r, n) is None <==> forall|f: int|
            0 <= f < n ==> #[trigger] from_ok(states, rules, r, f),
    decreases n,
{
    if n > 0 {
        lemma_from_faults(states, rules, r, (n - 1) as nat);
        assert(from_fault(states, rules, r, n - 1) is None <==> from_ok(states, rules, r, n - 1));
    }
}

/// Whether rule `r` has no fault.
spec fn rule_ok(states: Seq<Seq<char>>, rules: Seq<RuleView>, r: int) -> bool {
    rule_fault(states, rules, r) is None
}

proof fn lemma_rule_faults(states: Seq<Seq<char>>, rules: Seq<RuleView>, n: nat)
    ensures
        rule_faults(states, rules, n) is None <==> forall|r: int|
            0 <= r < n ==> #[trigger] rule_ok(states, rules, r),
    decreases n,
{
    if n > 0 {
        lemma_rule_faults(states, rules, (n - 1) as nat);
        assert(rule_fault(states, rules, n - 1) is None <==> rule_ok(states, rules, n - 1));
    }
}

/// A definition has no fault exactly when it is well formed.
pub proof fn law_fault_free_is_well_formed(m: MachineView)
    ensures
        m.fault() is None <==> m.well_formed(),
{
    let states = m.states;
    let rules = m.transitions;
    lemma_first_repeat(states);
    lemma_rule_faults(states, rules, rules.len());
    assert forall|r: int| 0 <= r < rules.len() implies (rule_ok(states, rules, r) <==> (
    states.contains(rules[r].to_state) && forall|f: int|
        0 <= f < rules[r].from_states.len() ==> #[trigger] from_ok(states, rules, r, f))) by {
        lemma_from_faults(states, rules, r, rules[r].from_states.len());
    }
    if m.fault() is None {
        assert forall|r: int, f: int| has_from(rules, r, f) implies states.contains(
            #[trigger] rules[r].from_states[f],
        ) by {
            assert(rule_ok(states, rules, r));
            assert(from_ok(states, rules, r, f));
        }
        assert forall|r: int| 0 <= r < rules.len() implies states.contains(
            (#[trigger] rules[r]).to_state,
        ) by {
            assert(rule_ok(states, rules, r));
        }
        assert forall|r: int, f: int, r2: int, f2: int|
            has_from(rules, r, f) && has_from(rules, r2, f2) && reads_before(r, f, r2, f2) implies
            !#[trigger] same_pair(rules, r, f, r2, f2) by {
            assert(rule_ok(states, rules, r2));
            assert(from_ok(states, rules, r2, f2));
        }
    }
    if m.well_formed() {
        assert forall|r: int| 0 <= r < rules.len() implies #[trigger] rule_ok(states, rules, r) by {
            assert forall|f: int| 0 <= f < rules[r].from_states.len() implies #[trigger] from_ok(
                states,
                rules,
                r,
                f,
            ) by {
                assert(has_from(rules, r, f));
                assert(states.contains(rules[r].from_states[f]));
            }
            assert(states.contains(rules[r].to_state));
        }
    }
}

/// Whether an earlier from-state, in reading order, has the event and the state
/// of the one at `(r, f)`.
fn is_pair_taken(rules: &Vec<TransitionRule>, r: usize, f: usize) -> (taken: bool)
    requires
        has_from(rule_views(rules@), r as int, f as int),
    ensures
        taken == pair_taken(rule_views(rules@), r as int, f as int),
{
    let ghost views = rule_views(rules@);
    let mut i: usize = 0;
    while i <= r
        invariant
            i <= r + 1,
            r < rules.len(),
            has_from(views, r as int, f as int),
            views == rule_views(rules@),
            forall|i1: int, j1: int|
                has_from(views, i1, j1) && reads_before(i1, j1, r as int, f as int) && i1 < i
                    ==> !#[trigger] same_pair(views, i1, j1, r as int, f as int),
        decreases r + 1 - i,
    {
        let mut j: usize = 0;
        while j < rules[i].from_states.len() && (i < r || j < f)
            invariant
                i <= r < rules.len(),
                j <= rules[i as int].from_states.len(),
                i == r ==> j <= f,
                has_from(views, r as int, f as int),
                views == rule_views(rules@),
                forall|j1: int|
                    0 <= j1 < j ==> !#[trigger] same_pair(
                        views,
                        i as int,
                        j1,
                        r as int,
                        f as int,
                    ),
            decreases rules[i as int].from_states.len() - j,
        {
            assert(views[i as int] == rules[i as int]@);
            assert(views[r as int] == rules[r as int]@);
            if rules[i].event == rules[r].event && rules[i].from_states[j]
                == rules[r].from_states[f] {
                assert(same_pair(views, i as int, j as int, r as int, f as int));
                return true;
            }
            j = j + 1;
        }
        assert(views[i as int] == rules[i as int]@);
        i = i + 1;
    }
    false
}

impl MachineDefinition {
    /// Checks the definition. The error names the first fault: a repeated
    /// state, an initial state that is not listed, or a rule that refers to an
    /// unlisted state or repeats the event and from-state of an earlier one.
    pub fn validate(&self) -> (r: Result<(), CoreError>)
        ensures
            match r {
                Ok(()) => self@.fault() is None && self@.well_formed(),
                Err(e) => self@.fault() == Some(e@) && !self@.well_formed(),
            },
    {
        proof {
            law_fault_free_is_well_formed(self@);
        }
        let ghost states = texts(self.states@);
        let ghost rules = rule_views(self.transitions@);
        let mut i: usize = 0;
        while i < self.states.len()
            invariant
                i <= self.states.len(),
                states == texts(self.states@),
                first_repeat(states.take(i as int)) is None,
                self@.fault() is None <==> self@.well_formed(),
                self@.states == states,
            decreases self.states.len() - i,
        {
            let ghost seen = states.take(i as int);
            let mut j: usize = 0;
            while j < i
                invariant
                    j <= i < self.states.len(),
                    states == texts(self.states@),
                    seen == states.take(i as int),
                    first_repeat(seen) is None,
                    self@.fault() is None <==> self@.well_formed(),
                    self@.states == states,
                    forall|k: int| 0 <= k < j ==> states[k] != states[i as int],
                decreases i - j,
            {
                if self.states[j] == self.states[i] {
                    proof {
                        let upto = states.take(i + 1);
                        assert(upto.drop_last() =~= seen);
                        assert(seen[j as int] == states[i as int]);
                        assert(first_repeat(upto) == Some(states[i as int]));
                        lemma_first_repeat_prefix(states, i + 1);
                    }
                    return Err(CoreError::DuplicateState { name: self.states[i].clone() });
                }
                j = j + 1;
            }
            proof {
                let upto = states.take(i + 1);
                assert(upto.drop_last() =~= seen);
                assert(!seen.contains(upto.last()));
            }
            i = i + 1;
        }
        assert(states.take(i as int) =~= states);
        if !contains_text(&self.states, self.initial_state.as_str()) {
            return Err(
                CoreError::InvalidDefinition {
                    reason: "initial_state '".to_owned().concat(
                        self.initial_state.as_str(),
                    ).concat("' is not in the states list"),
                },
            );
        }
        let mut r: usize = 0;
        while r < self.transitions.len()
            invariant
                r <= self.transitions.len(),
                states == texts(self.states@),
                rules == rule_views(self.transitions@),
                self@.states == states,
                self@.transitions == rules,
                first_repeat(states) is None,
                states.contains(self.initial_state@),
                rule_faults(states, rules, r as nat) is None,
                self@.fault() is None <==> self@.well_formed(),
            decreases self.transitions.len() - r,
        {
            let rule = &self.transitions[r];
            assert(rules[r as int] == rule@);
            let mut f: usize = 0;
            while f < rule.from_states.len()
                invariant
                    f <= rule.from_states.len(),
                    r < self.transitions.len(),
                    rule@ == rules[r as int],
                    rule == self.transitions[r as int],
                    states == texts(self.states@),
                    rules == rule_views(self.transitions@),
                    self@.states == states,
                    self@.transitions == rules,
                    first_repeat(states) is None,
                    states.contains(self.initial_state@),
                    rule_faults(states, rules, r as nat) is None,
                    from_faults(states, rules, r as int, f as nat) is None,
                    self@.fault() is None <==> self@.well_formed(),
                decreases rule.from_states.len() - f,
            {
                let from = &rule.from_states[f];
                assert(rules[r as int].from_states[f as int] == from@);
                if !contains_text(&self.states, from.as_str()) {
                    proof {
                        lemma_from_faults_prefix(states, rules, r as int, (f + 1) as nat);
                        lemma_rule_faults_prefix(states, rules, (r + 1) as nat);
                    }
                    return Err(
                        CoreError::InvalidDefinition {
                            reason: "transition '".to_owned().concat(rule.event.as_str()).concat(
                                "' references unknown from_state '",
                            ).concat(from.as_str()).concat("'"),
                        },
                    );
                }
                if is_pair_taken(&self.transitions, r, f) {
                    proof {
                        lemma_from_faults_prefix(states, rules, r as int, (f + 1) as nat);
                        lemma_rule_faults_prefix(states, rules, (r + 1) as nat);
                    }
                    return Err(
                        CoreError::InvalidDefinition {
                            reason: "duplicate (event, from_state) pair: ('".to_owned().concat(
                                rule.event.as_str(),
                            ).concat("', '").concat(from.as_str()).concat("')"),
                        },
                    );
                }
                f = f + 1;
            }
            if !contains_text(&self.states, rule.to_state.as_str()) {
                proof {
                    lemma_rule_faults_prefix(states, rules, (r + 1) as nat);
                }
                return Err(
                    CoreError::InvalidDefinition {
                        reason: "transition '".to_owned().concat(rule.event.as_str()).concat(
                            "' references unknown to_state '",
                        ).concat(rule.to_state.as_str()).concat("'"),
                    },
                );
            }
            r = r + 1;
        }
        Ok(())
    }
}

proof fn lemma_first_repeat_prefix(s: Seq<Seq<char>>, n: int)
    requires
        0 <= n <= s.len(),
        first_repeat(s.take(n)) is Some,
    ensures
        first_repeat(s) == first_repeat(s.take(n)),
    decreases s.len(),
{
    if n < s.len() {
        assert(s.drop_last().take(n) =~= s.take(n));
        lemma_first_repeat_prefix(s.drop_last(), n);
    } else {
        assert(s.take(n) =~= s);
    }
}

proof fn lemma_from_faults_prefix(states: Seq<Seq<char>>, rules: Seq<RuleView>, r: int, n: nat)
    requires
        from_faults(states, rules, r, n) is Some,
        n <= rules[r].from_states.len(),
    ensures
        rule_fault(states, rules, r) == from_faults(states, rules, r, n),
{
    lemma_from_faults_stay(states, rules, r, n, rules[r].from_states.len());
}

proof fn lemma_from_faults_stay(
    states: Seq<Seq<char>>,
    rules: Seq<RuleView>,
    r: int,
    n: nat,
    m: nat,
)
    requires
        from_faults(states, rules, r, n) is Some,
        n <= m,
    ensures
        from_faults(states, rules, r, m) == from_faults(states, rules, r, n),
    decreases m,
{
    if n < m {
        lemma_from_faults_stay(states, rules, r, n, (m - 1) as nat);
    }
}

proof fn lemma_rule_faults_prefix(states: Seq<Seq<char>>, rules: Seq<RuleView>, n: nat)
    requires
        rule_faults(states, rules, n) is Some,
        n <= rules.len(),
    ensures
        rule_faults(states, rules, rules.len()) == rule_faults(states, rules, n),
{
    lemma_rule_faults_stay(states, rules, n, rules.len());
}

proof fn lemma_rule_faults_stay(states: Seq<Seq<char>>, rules: Seq<RuleView>, n: nat, m: nat)
    requires
        rule_faults(states, rules, n) is Some,
        n <= m,
    ensures
        rule_faults(states, rules, m) == rule_faults(states, rules, n),
    decreases m,
{
    if n < m {
        lemma_rule_faults_stay(states, rules, n, (m - 1) as nat);
    }
}

} // verus!
