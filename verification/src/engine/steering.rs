//! How an engine is begun, steered and stopped.
use crate::engine::engine::Engine;
use crate::engine::error::EngineError;
use crate::engine::guard::GuardRegistry;
use crate::engine::outcome::TransitionResult;
use crate::fsm::record::EntityState;
use crate::storage::engine::StorageEngine;
use vstd::prelude::*;

verus! {

/// An engine begins over what is stored, runs, and has neither guards nor
/// subscribers.
pub proof fn law_engines_begin_empty<
    S: StorageEngine,
    G: Fn(&EntityState, &serde_json::Value) -> bool,
>(storage: S, limit: usize, a: Engine<S, G>, b: Engine<S, G>, stopped: bool)
    requires
        storage.wf(),
        call_ensures(Engine::<S, G>::new, (storage,), a),
        call_ensures(Engine::<S, G>::with_limit, (storage, limit), b),
        call_ensures(Engine::<S, G>::is_shutting_down, (&a,), stopped),
    ensures
        a.model() == storage.model() && b.model() == storage.model(),
        !stopped && !a.stopped() && !b.stopped(),
        forall|k: Seq<char>| !#[trigger] a.guard_map().contains_key(k),
        forall|k: Seq<char>| !#[trigger] b.guard_map().contains_key(k),
        a.subscribed().len() == 0 && b.subscribed().len() == 0,
        a.subscriber_limit() == 1024 && b.subscriber_limit() == limit,
{
}

/// Once an engine was shut down it says so, and no transition is made: the answer is
/// that it shuts down, and nothing that is stored changes.
pub proof fn law_shutting_down_stops_transitions<
    S: StorageEngine,
    G: Fn(&EntityState, &serde_json::Value) -> bool,
>(
    e: &mut Engine<S, G>,
    between: Engine<S, G>,
    f: &mut Engine<S, G>,
    after: Engine<S, G>,
    says: bool,
    entity_id: &str,
    machine: &str,
    event: &str,
    actor: &str,
    ctx: serde_json::Value,
    expected_version: Option<u64>,
    idempotency_key: Option<String>,
    r: Result<TransitionResult, EngineError>,
)
    requires
        old(e).wf(),
        call_ensures(Engine::<S, G>::shutdown, (e,), ()),
        between == *final(e),
        call_ensures(Engine::<S, G>::is_shutting_down, (&between,), says),
        *old(f) == between,
        call_ensures(
            Engine::<S, G>::transition,
            (f, entity_id, machine, event, actor, ctx, expected_version, idempotency_key),
            r,
        ),
        after == *final(f),
    ensures
        says,
        between.model() == old(e).model(),
        r matches Err(x) && x@ is ShuttingDown,
        after.model() == old(e).model(),
{
}

/// A guard that is registered answers under its name from then on; the other guards,
/// the subscribers and what is stored stay.
pub proof fn law_guards_are_registered<
    S: StorageEngine,
    G: Fn(&EntityState, &serde_json::Value) -> bool,
>(e: &mut Engine<S, G>, after: Engine<S, G>, name: &str, guard: G)
    requires
        old(e).wf(),
        call_ensures(Engine::<S, G>::register_guard, (e, name, guard), ()),
        after == *final(e),
    ensures
        after.guard_map().contains_key(name@) && after.guard_map()[name@] == guard,
        forall|k: Seq<char>|
            k != name@ ==> (#[trigger] after.guard_map().contains_key(k) <==> old(
                e,
            ).guard_map().contains_key(k)) && after.guard_map()[k] == old(e).guard_map()[k],
        after.model() == old(e).model() && after.subscribed() == old(e).subscribed(),
        after.stopped() == old(e).stopped(),
{
}

/// A guard that was registered is asked, and what it says counts; a guard that was not
/// registered does not object.
pub proof fn law_guards_are_asked<G: Fn(&EntityState, &serde_json::Value) -> bool>(
    guards: GuardRegistry<G>,
    name: &str,
    state: &EntityState,
    ctx: &serde_json::Value,
    r: bool,
)
    requires
        call_ensures(GuardRegistry::<G>::evaluate, (&guards, name, state, ctx), r),
    ensures
        guards@.contains_key(name@) ==> call_ensures(guards@[name@], (state, ctx), r),
        !guards@.contains_key(name@) ==> r,
{
}

} // verus!
