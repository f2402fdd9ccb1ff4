//! A fluent way to write a machine definition down.
use crate::clock::{now, Timestamp};
use crate::fsm::error::{CoreError, CoreErrorView};
use crate::fsm::machine::{
    effect_rule_views, rule_views, EffectRule, EffectRuleView, MachineDefinition, MachineView,
    RuleView, TransitionRule,
};
use crate::json::opt_json;
use crate::text::{opt_text, owned_texts, slice_texts, texts};
use vstd::prelude::*;

verus! {

/// A definition in the making.
#[derive(Debug)]
pub struct MachineBuilder {
    name: Option<String>,
    version: u32,
    states: Vec<String>,
    initial_state: Option<String>,
    transitions: Vec<TransitionRule>,
    effects: Vec<EffectRule>,
}

/// The contents of a `MachineBuilder`.
#[verifier::ext_equal]
pub struct BuilderView {
    pub name: Option<Seq<char>>,
    pub version: u32,
    pub states: Seq<Seq<char>>,
    pub initial_state: Option<Seq<char>>,
    pub transitions: Seq<RuleView>,
    pub effects: Seq<EffectRuleView>,
}

impl BuilderView {
    /// A builder that was told nothing yet.
    pub open spec fn blank() -> BuilderView {
        BuilderView {
            name: None,
            version: 0,
            states: Seq::empty(),
            initial_state: None,
            transitions: Seq::empty(),
            effects: Seq::empty(),
        }
    }

    /// The definition that the builder describes, with a time of creation.
    pub open spec fn definition(self, created_at: Timestamp) -> MachineView {
        MachineView {
            name: self.name->0,
            version: self.version,
            states: self.states,
            initial_state: self.initial_state->0,
            transitions: self.transitions,
            effects: self.effects,
            created_at,
        }
    }

    /// Why nothing can be built: a missing name, a missing initial state, or
    /// the first fault of the definition. The time of creation plays no part.
    pub open spec fn fault(self) -> Option<CoreErrorView> {
        if self.name is None {
            Some(CoreErrorView::InvalidDefinition { reason: "machine name is required"@ })
        } else if self.initial_state is None {
            Some(CoreErrorView::InvalidDefinition { reason: "initial_state is required"@ })
        } else {
            self.definition(Timestamp { secs: 0, nanos: 0 }).fault()
        }
    }
}

impl View for MachineBuilder {
    type V = BuilderView;

    closed spec fn view(&self) -> BuilderView {
        BuilderView {
            name: opt_text(self.name),
            version: self.version,
            states: texts(self.states@),
            initial_state: opt_text(self.initial_state),
            transitions: rule_views(self.transitions@),
            effects: effect_rule_views(self.effects@),
        }
    }
}

impl Default for MachineBuilder {
    fn default() -> (r: Self)
        ensures
            r@ == BuilderView::blank(),
    {
        MachineBuilder::new()
    }
}

impl MachineBuilder {
    /// A builder that was told nothing yet.
    pub fn new() -> (r: Self)
        ensures
            r@ == BuilderView::blank(),
    {
        let r = MachineBuilder {
            name: None,
            version: 0,
            states: Vec::new(),
            initial_state: None,
            transitions: Vec::new(),
            effects: Vec::new(),
        };
        assert(r@ =~= BuilderView::blank());
        r
    }

    /// Sets the name.
    pub fn name(self, name: &str) -> (r: Self)
        ensures
            r@ == (BuilderView { name: Some(name@), ..self@ }),
    {
        MachineBuilder { name: Some(name.to_owned()), ..self }
    }

    /// Sets the version.
    pub fn version(self, version: u32) -> (r: Self)
        ensures
            r@ == (BuilderView { version, ..self@ }),
    {
        MachineBuilder { version, ..self }
    }

    /// Adds a state.
    pub fn state(self, state: &str) -> (r: Self)
        ensures
            r@ == (BuilderView { states: self@.states.push(state@), ..self@ }),
    {
        let mut states = self.states;
        states.push(state.to_owned());
        assert(texts(states@) =~= texts(self.states@).push(state@));
        MachineBuilder { states, ..self }
    }

    /// Adds several states.
    pub fn states(self, states: &[&str]) -> (r: Self)
        ensures
            r@ == (BuilderView { states: self@.states + slice_texts(states@), ..self@ }),
    {
        let mut all = self.states;
        let mut more = owned_texts(states);
        let ghost added = more@;
        all.append(&mut more);
        assert(texts(all@) =~= texts(self.states@) + texts(added));
        MachineBuilder { states: all, ..self }
    }

    /// Sets the initial state.
    pub fn initial_state(self, state: &str) -> (r: Self)
        ensures
            r@ == (BuilderView { initial_state: Some(state@), ..self@ }),
    {
        MachineBuilder { initial_state: Some(state.to_owned()), ..self }
    }

    /// Adds a rule without guards.
    pub fn transition(self, event: &str, from_states: &[&str], to_state: &str) -> (r: Self)
        ensures
            r@ == (BuilderView {
                transitions: self@.transitions.push(
                    RuleView {
                        event: event@,
                        from_states: slice_texts(from_states@),
                        to_state: to_state@,
                        guards: Seq::empty(),
                    },
                ),
                ..self@
            }),
    {
        let none: [&str; 0] = [];
        let r = self.transition_with_guards(event, from_states, to_state, &none);
        assert(slice_texts(none@) =~= Seq::<Seq<char>>::empty());
        r
    }

    /// Adds a rule with guards.
    pub fn transition_with_guards(
        self,
        event: &str,
        from_states: &[&str],
        to_state: &str,
        guards: &[&str],
    ) -> (r: Self)
        ensures
            r@ == (BuilderView {
                transitions: self@.transitions.push(
                    RuleView {
                        event: event@,
                        from_states: slice_texts(from_states@),
                        to_state: to_state@,
                        guards: slice_texts(guards@),
                    },
                ),
                ..self@
            }),
    {
        let rule = TransitionRule {
            event: event.to_owned(),
            from_states: owned_texts(from_states),
            to_state: to_state.to_owned(),
            guards: owned_texts(guards),
        };
        let mut transitions = self.transitions;
        transitions.push(rule);
        assert(rule_views(transitions@) =~= rule_views(self.transitions@).push(rule@));
        MachineBuilder { transitions, ..self }
    }

    /// Adds an effect rule.
    pub fn effect(
        self,
        on_event: &str,
        effect: &str,
        payload: Option<serde_json::Value>,
    ) -> (r: Self)
        ensures
            r@ == (BuilderView {
                effects: self@.effects.push(
                    EffectRuleView {
                        on_event: on_event@,
                        effect: effect@,
                        payload: opt_json(payload),
                    },
                ),
                ..self@
            }),
    {
        let rule = EffectRule {
            on_event: on_event.to_owned(),
            effect: effect.to_owned(),
            payload,
        };
        let mut effects = self.effects;
        effects.push(rule);
        assert(effect_rule_views(effects@) =~= effect_rule_views(self.effects@).push(rule@));
        MachineBuilder { effects, ..self }
    }

    /// Builds the definition, created now. It comes out exactly where the
    /// builder has a name, an initial state and no fault, and is then valid.
    pub fn build(self) -> (r: Result<MachineDefinition, CoreError>)
        ensures
            match r {
                Ok(m) => {
                    &&& self@.fault() is None
                    &&& self@.name is Some
                    &&& self@.initial_state is Some
                    &&& m.created_at.valid()
                    &&& m@ == self@.definition(m.created_at)
                    &&& m@.well_formed()
                },
                Err(e) => self@.fault() == Some(e@),
            },
    {
        let name = match self.name {
            Some(name) => name,
            None => {
                return Err(
                    CoreError::InvalidDefinition { reason: "machine name is required".to_owned() },
                );
            },
        };
        let initial_state = match self.initial_state {
            Some(state) => state,
            None => {
                return Err(
                    CoreError::InvalidDefinition {
                        reason: "initial_state is required".to_owned(),
                    },
                );
            },
        };
        let definition = MachineDefinition {
            name,
            version: self.version,
            states: self.states,
            initial_state,
            transitions: self.transitions,
            effects: self.effects,
            created_at: now(),
        };
        match definition.validate() {
            Ok(()) => Ok(definition),
            Err(e) => Err(e),
        }
    }
}

} // verus!
