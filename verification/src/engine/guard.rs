//! Guards: named predicates that may veto a transition.
use crate::fsm::record::EntityState;
use crate::names::NameMap;
use vstd::prelude::*;

verus! {

/// Guards by name. A guard that is not registered lets everything pass.
pub struct GuardRegistry<G> {
    guards: NameMap<G>,
}

impl<G> View for GuardRegistry<G> {
    type V = Map<Seq<char>, G>;

    closed spec fn view(&self) -> Map<Seq<char>, G> {
        self.guards@
    }
}

/// Whether a guard answers whatever it is asked.
pub open spec fn answers_all<G: Fn(&EntityState, &serde_json::Value) -> bool>(guard: G) -> bool {
    forall|s: &EntityState, c: &serde_json::Value| #[trigger] call_requires(guard, (s, c))
}

/// Whether all registered guards answer whatever they are asked.
pub open spec fn all_answer<G: Fn(&EntityState, &serde_json::Value) -> bool>(
    guards: Map<Seq<char>, G>,
) -> bool {
    forall|name: Seq<char>| #[trigger] guards.contains_key(name) ==> answers_all(guards[name])
}

/// Whether the guard called `name` may answer `passed`: what its function
/// returns, or `true` where it is not registered.
pub open spec fn guard_says<G: Fn(&EntityState, &serde_json::Value) -> bool>(
    guards: Map<Seq<char>, G>,
    name: Seq<char>,
    state: &EntityState,
    ctx: &serde_json::Value,
    passed: bool,
) -> bool {
    if guards.contains_key(name) {
        call_ensures(guards[name], (state, ctx), passed)
    } else {
        passed
    }
}

impl<G: Fn(&EntityState, &serde_json::Value) -> bool> GuardRegistry<G> {
    /// A registry without guards.
    pub fn new() -> (r: Self)
        ensures
            r@ == Map::<Seq<char>, G>::empty(),
    {
        GuardRegistry { guards: NameMap::new() }
    }

    /// Registers a guard, in place of one with the same name.
    pub fn register(&mut self, name: &str, guard: G)
        ensures
            final(self)@ == old(self)@.insert(name@, guard),
    {
        self.guards.insert(name.to_owned(), guard);
    }

    /// Asks the guard called `name`.
    pub fn evaluate(&self, name: &str, state: &EntityState, ctx: &serde_json::Value) -> (r: bool)
        requires
            self@.contains_key(name@) ==> call_requires(self@[name@], (state, ctx)),
        ensures
            guard_says(self@, name@, state, ctx, r),
    {
        match self.guards.get(name) {
            Some(guard) => guard(state, ctx),
            None => true,
        }
    }
}

impl<G: Fn(&EntityState, &serde_json::Value) -> bool> Default for GuardRegistry<G> {
    fn default() -> (r: Self)
        ensures
            r@ == Map::<Seq<char>, G>::empty(),
    {
        GuardRegistry::new()
    }
}

} // verus!
