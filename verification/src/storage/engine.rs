//! The interface to a store.
use crate::fsm::machine::MachineDefinition;
use crate::fsm::record::{
    effect_views, entity_views, record_views, Effect, EffectStatus, EffectView, EntityState,
    EntityView, RecordView, TransitionRecord,
};
use crate::storage::error::{StorageError, StorageErrorView};
use crate::storage::model::{entity_key, StoreModel};
use crate::text::decimal;
use vstd::prelude::*;

verus! {

/// What is not found where a definition is missing.
pub open spec fn machine_label(name: Seq<char>, version: Option<u32>) -> Seq<char> {
    match version {
        Some(v) => "machine '"@ + name + "' version "@ + decimal(v as nat),
        None => "machine '"@ + name + "'"@,
    }
}

/// What is not found where an entity is missing.
pub open spec fn entity_label(entity_id: Seq<char>, machine: Seq<char>) -> Seq<char> {
    "entity '"@ + entity_id + "' in machine '"@ + machine + "'"@
}

/// What is not found where a transition is missing.
pub open spec fn transition_label(id: Seq<char>) -> Seq<char> {
    "transition '"@ + id + "'"@
}

/// What is not found where an effect is missing.
pub open spec fn effect_label(id: Seq<char>) -> Seq<char> {
    "effect '"@ + id + "'"@
}

/// What exists already where an idempotency key was used before.
pub open spec fn key_label(key: Seq<char>) -> Seq<char> {
    "idempotency key '"@ + key + "'"@
}

/// What is left after a change that failed: what was there before, or, where
/// the change was in order and only the commit failed, possibly the new
/// contents.
pub open spec fn kept(
    before: StoreModel,
    after: StoreModel,
    in_order: bool,
    changed: StoreModel,
    e: StorageErrorView,
) -> bool {
    after == before || (in_order && e is TransactionFailed && after == changed)
}

/// The version that an entity must have before `version` is written over it.
pub open spec fn version_before(version: u64) -> u64 {
    if version == 0 {
        0
    } else {
        (version - 1) as u64
    }
}

/// Why an entity cannot be written: the stored version is not the one before.
pub open spec fn upsert_conflict(m: StoreModel, e: EntityView) -> Option<StorageErrorView> {
    let k = entity_key(e.entity_id, e.machine);
    if m.entities.contains_key(k) && (e.version == 0 || m.entities[k].version != e.version - 1) {
        Some(
            StorageErrorView::VersionConflict {
                entity_id: e.entity_id,
                expected: version_before(e.version),
                actual: m.entities[k].version,
            },
        )
    } else {
        None
    }
}

/// Why a transition cannot be executed: the stored version is not the one
/// before, or the idempotency key was used.
pub open spec fn execute_conflict(m: StoreModel, r: RecordView, e: EntityView) -> Option<
    StorageErrorView,
> {
    let k = entity_key(e.entity_id, e.machine);
    if m.entities.contains_key(k) && m.entities[k].version != version_before(e.version) {
        Some(
            StorageErrorView::VersionConflict {
                entity_id: e.entity_id,
                expected: version_before(e.version),
                actual: m.entities[k].version,
            },
        )
    } else if r.idempotency_key is Some && m.idempotency.contains_key(r.idempotency_key->0) {
        Some(StorageErrorView::AlreadyExists(key_label(r.idempotency_key->0)))
    } else {
        None
    }
}

/// An effect that was just put into the outbox.
pub open spec fn as_pending(e: EffectView) -> EffectView {
    EffectView { status: EffectStatus::Pending, ..e }
}

/// Effects that were just put into the outbox.
pub open spec fn all_pending(s: Seq<EffectView>) -> Seq<EffectView> {
    Seq::new(s.len(), |i: int| as_pending(s[i]))
}

/// The store after the status of an effect changed.
pub open spec fn with_status(m: StoreModel, id: Seq<char>, status: EffectStatus) -> StoreModel {
    StoreModel {
        effects: m.effects.insert(id, EffectView { status, ..m.effects[id] }),
        ..m
    }
}

/// A store of machines, entities, transitions and effects.
///
/// Any operation may fail with a fault of the database; an implementation says
/// when. Beyond that each fails exactly where its contract names another error.
pub trait StorageEngine: Sized {
    /// What the store holds.
    spec fn model(&self) -> StoreModel;

    /// Whether the store is in order.
    spec fn wf(&self) -> bool;

    /// A store in order holds a model in order.
    proof fn lemma_wf(&self)
        requires
            self.wf(),
        ensures
            self.model().wf(),
    ;

    /// Adds a definition. `AlreadyExists` where the name has that version.
    fn store_machine(&mut self, machine: &MachineDefinition) -> (r: Result<(), StorageError>)
        requires
            old(self).wf(),
        ensures
            final(self).wf(),
            match r {
                Ok(()) => {
                    &&& !old(self).model().machines.contains_key((machine.name@, machine.version))
                    &&& final(self).model() == old(self).model().with_machine(machine@)
                },
                Err(e) => {
                    let known = old(self).model().machines.contains_key(
                        (machine.name@, machine.version),
                    );
                    &&& kept(
                        old(self).model(),
                        final(self).model(),
                        !known,
                        old(self).model().with_machine(machine@),
                        e@,
                    )
                    &&& e@.is_fault() || (known && e@ == StorageErrorView::AlreadyExists(
                        machine_label(machine.name@, Some(machine.version)),
                    ))
                },
            },
    ;

    /// The definition with a name: of a version, or the latest.
    fn get_machine(&self, name: &str, version: Option<u32>) -> (r: Result<
        MachineDefinition,
        StorageError,
    >)
        requires
            self.wf(),
        ensures
            match r {
                Ok(m) => self.model().finds_machine(name@, version, m@),
                Err(e) => e@.is_fault() || (!self.model().has_machine(name@, version) && e@
                    == StorageErrorView::NotFound(machine_label(name@, version))),
            },
    ;

    /// All definitions, one for each name and version.
    fn list_machines(&self) -> (r: Result<Vec<MachineDefinition>, StorageError>)
        requires
            self.wf(),
        ensures
            match r {
                Ok(v) => self.model().lists_machines(
                    Seq::new(v@.len(), |i: int| v@[i]@),
                ),
                Err(e) => e@.is_fault(),
            },
    ;

    /// The state of an entity.
    fn get_entity_state(&self, entity_id: &str, machine: &str) -> (r: Result<
        EntityState,
        StorageError,
    >)
        requires
            self.wf(),
        ensures
            ({
                let k = entity_key(entity_id@, machine@);
                match r {
                    Ok(s) => self.model().entities.contains_key(k) && s@
                        == self.model().entities[k],
                    Err(e) => e@.is_fault() || (!self.model().entities.contains_key(k) && e@
                        == StorageErrorView::NotFound(entity_label(entity_id@, machine@))),
                }
            }),
    ;

    /// Puts an entity in place. Where there is one already, its version must be
    /// the one before.
    fn upsert_entity_state(&mut self, state: &EntityState) -> (r: Result<(), StorageError>)
        requires
            old(self).wf(),
        ensures
            final(self).wf(),
            match r {
                Ok(()) => {
                    &&& upsert_conflict(old(self).model(), state@) is None
                    &&& final(self).model() == old(self).model().with_entity(state@)
                },
                Err(e) => {
                    ||| e@.is_fault() && kept(
                        old(self).model(),
                        final(self).model(),
                        upsert_conflict(old(self).model(), state@) is None,
                        old(self).model().with_entity(state@),
                        e@,
                    )
                    ||| upsert_conflict(old(self).model(), state@) == Some(e@)
                        && final(self).model() == old(self).model()
                },
            },
    ;

    /// The entities that stand in a state of a machine.
    fn list_entities_in_state(&self, machine: &str, state_name: &str) -> (r: Result<
        Vec<EntityState>,
        StorageError,
    >)
        requires
            self.wf(),
        ensures
            match r {
                Ok(v) => self.model().lists_entities(machine@, state_name@, entity_views(v@)),
                Err(e) => e@.is_fault(),
            },
    ;

    /// Appends a transition to the log, under the next sequence number, which
    /// is written into the record too.
    fn append_transition(&mut self, record: &mut TransitionRecord) -> (r: Result<
        u64,
        StorageError,
    >)
        requires
            old(self).wf(),
        ensures
            final(self).wf(),
            match r {
                Ok(n) => {
                    &&& n == old(self).model().sequence + 1
                    &&& final(record)@ == old(self).model().numbered(old(record)@)
                    &&& final(self).model() == old(self).model().with_record(old(record)@)
                },
                Err(e) => {
                    &&& e@.is_fault()
                    &&& final(record)@ == old(record)@
                    &&& kept(
                        old(self).model(),
                        final(self).model(),
                        old(self).model().sequence < u64::MAX,
                        old(self).model().with_record(old(record)@),
                        e@,
                    )
                },
            },
    ;

    /// The transition with an identifier.
    fn get_transition(&self, id: &str) -> (r: Result<TransitionRecord, StorageError>)
        requires
            self.wf(),
        ensures
            match r {
                Ok(t) => self.model().by_id.contains_key(id@) && t@
                    == self.model().log[self.model().by_id[id@]],
                Err(e) => e@.is_fault() || (!self.model().by_id.contains_key(id@) && e@
                    == StorageErrorView::NotFound(transition_label(id@))),
            },
    ;

    /// The transitions of an entity after a sequence number, in order.
    fn get_history(
        &self,
        entity_id: &str,
        machine: &str,
        limit: Option<u32>,
        after_sequence: Option<u64>,
    ) -> (r: Result<Vec<TransitionRecord>, StorageError>)
        requires
            self.wf(),
        ensures
            match r {
                Ok(v) => record_views(v@) == self.model().history(
                    entity_id@,
                    machine@,
                    limit,
                    after_sequence,
                ),
                Err(e) => e@.is_fault(),
            },
    ;

    /// The transitions after a sequence number, in order.
    fn get_transitions_after(&self, after_sequence: u64, limit: u32) -> (r: Result<
        Vec<TransitionRecord>,
        StorageError,
    >)
        requires
            self.wf(),
        ensures
            match r {
                Ok(v) => record_views(v@) == self.model().records_after(after_sequence, limit),
                Err(e) => e@.is_fault(),
            },
    ;

    /// Puts effects into the outbox, as pending.
    fn insert_effects(&mut self, effects: &Vec<Effect>) -> (r: Result<(), StorageError>)
        requires
            old(self).wf(),
        ensures
            final(self).wf(),
            match r {
                Ok(()) => final(self).model() == old(self).model().with_effects(
                    all_pending(effect_views(effects@)),
                ),
                Err(e) => e@.is_fault() && kept(
                    old(self).model(),
                    final(self).model(),
                    true,
                    old(self).model().with_effects(all_pending(effect_views(effects@))),
                    e@,
                ),
            },
    ;

    /// The first pending effects, earliest first.
    fn get_pending_effects(&self, limit: u32) -> (r: Result<Vec<Effect>, StorageError>)
        requires
            self.wf(),
        ensures
            match r {
                Ok(v) => self.model().takes_pending(limit, effect_views(v@)),
                Err(e) => e@.is_fault(),
            },
    ;

    /// The effects that a transition emitted, in the order of insertion.
    fn get_effects_for_transition(&self, transition_id: &str) -> (r: Result<
        Vec<Effect>,
        StorageError,
    >)
        requires
            self.wf(),
        ensures
            match r {
                Ok(v) => effect_views(v@) == self.model().effects_of(transition_id@),
                Err(e) => e@.is_fault(),
            },
    ;

    /// Marks an effect as published.
    fn mark_effect_published(&mut self, effect_id: &str) -> (r: Result<(), StorageError>)
        requires
            old(self).wf(),
        ensures
            final(self).wf(),
            marked(
                old(self).model(),
                final(self).model(),
                effect_id@,
                EffectStatus::Published,
                r,
            ),
    ;

    /// Marks an effect as failed.
    fn mark_effect_failed(&mut self, effect_id: &str) -> (r: Result<(), StorageError>)
        requires
            old(self).wf(),
        ensures
            final(self).wf(),
            marked(old(self).model(), final(self).model(), effect_id@, EffectStatus::Failed, r),
    ;

    /// The transition stored under an idempotency key, if any.
    fn check_idempotency(&self, key: &str) -> (r: Result<Option<TransitionRecord>, StorageError>)
        requires
            self.wf(),
        ensures
            match r {
                Ok(Some(t)) => self.model().keyed(key@) == Some(t@),
                Ok(None) => self.model().keyed(key@) is None,
                Err(e) => e@.is_fault(),
            },
    ;

    /// In one transaction: appends the transition under the next sequence
    /// number, puts the entity in place, puts the effects into the outbox and
    /// stores the idempotency key.
    fn execute_transition(
        &mut self,
        record: &mut TransitionRecord,
        new_state: &EntityState,
        effects: &Vec<Effect>,
    ) -> (r: Result<u64, StorageError>)
        requires
            old(self).wf(),
        ensures
            final(self).wf(),
            match r {
                Ok(n) => {
                    &&& execute_conflict(old(self).model(), old(record)@, new_state@) is None
                    &&& n == old(self).model().sequence + 1
                    &&& final(record)@ == old(self).model().numbered(old(record)@)
                    &&& final(self).model() == old(self).model().executed(
                        old(record)@,
                        new_state@,
                        effect_views(effects@),
                    )
                },
                Err(e) => {
                    &&& final(record)@ == old(record)@
                    &&& {
                        ||| e@.is_fault() && kept(
                            old(self).model(),
                            final(self).model(),
                            execute_conflict(old(self).model(), old(record)@, new_state@) is None
                                && old(self).model().sequence < u64::MAX,
                            old(self).model().executed(
                                old(record)@,
                                new_state@,
                                effect_views(effects@),
                            ),
                            e@,
                        )
                        ||| execute_conflict(old(self).model(), old(record)@, new_state@) == Some(
                            e@,
                        ) && final(self).model() == old(self).model()
                    }
                },
            },
    ;

    /// The last sequence number that was assigned.
    fn current_sequence(&self) -> (r: Result<u64, StorageError>)
        requires
            self.wf(),
        ensures
            match r {
                Ok(n) => n == self.model().sequence,
                Err(e) => e@.is_fault(),
            },
    ;
}

/// The outcome of marking an effect.
pub open spec fn marked(
    before: StoreModel,
    after: StoreModel,
    id: Seq<char>,
    status: EffectStatus,
    r: Result<(), StorageError>,
) -> bool {
    match r {
        Ok(()) => before.effects.contains_key(id) && after == with_status(before, id, status),
        Err(e) => {
            ||| e@.is_fault() && kept(
                before,
                after,
                before.effects.contains_key(id),
                with_status(before, id, status),
                e@,
            )
            ||| !before.effects.contains_key(id) && after == before && e@
                == StorageErrorView::NotFound(effect_label(id))
        },
    }
}

} // verus!
