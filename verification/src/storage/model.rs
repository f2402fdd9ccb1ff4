//! What a store holds, as a mathematical value, and what each change makes of it.
use crate::fsm::machine::MachineView;
use crate::fsm::record::{EffectStatus, EffectView, EntityView, RecordView};
use crate::order::{lemma_fixed_injective, lemma_fixed_len, lemma_widths, text_lt};
use crate::storage::rows::settled;
use crate::text::fixed;
use vstd::prelude::*;

verus! {

/// The contents of a store.
#[verifier::ext_equal]
pub struct StoreModel {
    /// Definitions by name and version.
    pub machines: Map<(Seq<char>, u32), MachineView>,
    /// Entities by their key: see `entity_key`.
    pub entities: Map<Seq<char>, EntityView>,
    /// Transitions by sequence number.
    pub log: Map<u64, RecordView>,
    /// Sequence numbers by transition identifier.
    pub by_id: Map<Seq<char>, u64>,
    /// Effects by identifier.
    pub effects: Map<Seq<char>, EffectView>,
    /// For every transition identifier, the identifiers of the effects it
    /// emitted, in the order they were inserted.
    pub emitted: Map<Seq<char>, Seq<Seq<char>>>,
    /// Sequence numbers by idempotency key.
    pub idempotency: Map<Seq<char>, u64>,
    /// The last sequence number that was assigned; zero at first.
    pub sequence: u64,
}

/// The key of an entity: its identifier, a NUL, and the name of its machine.
pub open spec fn entity_key(entity_id: Seq<char>, machine: Seq<char>) -> Seq<char> {
    entity_id + seq!['\0'] + machine
}

/// The key of a definition: its name, a NUL, and its version in ten digits.
pub open spec fn machine_key(name: Seq<char>, version: u32) -> Seq<char> {
    name + seq!['\0'] + fixed(version as nat, 10)
}

/// Definitions have different keys.
pub proof fn law_machine_keys_differ(n1: Seq<char>, v1: u32, n2: Seq<char>, v2: u32)
    requires
        machine_key(n1, v1) == machine_key(n2, v2),
    ensures
        n1 == n2,
        v1 == v2,
{
    lemma_fixed_len(v1 as nat, 10);
    lemma_fixed_len(v2 as nat, 10);
    lemma_suffix(n1 + seq!['\0'], fixed(v1 as nat, 10), n2 + seq!['\0'], fixed(v2 as nat, 10));
    lemma_suffix(n1, seq!['\0'], n2, seq!['\0']);
    lemma_widths();
    lemma_fixed_injective(v1 as nat, v2 as nat, 10);
}

/// Two concatenations whose second parts are equally long agree part by part.
pub proof fn lemma_suffix(a: Seq<char>, x: Seq<char>, b: Seq<char>, y: Seq<char>)
    requires
        a + x == b + y,
        x.len() == y.len(),
    ensures
        a == b,
        x == y,
{
    assert((a + x).len() == (b + y).len());
    assert(a =~= (a + x).take(a.len() as int));
    assert(b =~= (b + y).take(b.len() as int));
    assert(x =~= (a + x).skip(a.len() as int));
    assert(y =~= (b + y).skip(b.len() as int));
}

/// Whether a text holds no NUL.
pub open spec fn nul_free(s: Seq<char>) -> bool {
    !s.contains('\0')
}

/// Entities whose identifiers hold no NUL have different keys.
pub proof fn law_entity_keys_differ(
    e1: Seq<char>,
    m1: Seq<char>,
    e2: Seq<char>,
    m2: Seq<char>,
)
    requires
        nul_free(e1),
        nul_free(e2),
        entity_key(e1, m1) == entity_key(e2, m2),
    ensures
        e1 == e2,
        m1 == m2,
{
    let k1 = entity_key(e1, m1);
    let k2 = entity_key(e2, m2);
    if e1.len() < e2.len() {
        assert(k1[e1.len() as int] == '\0');
        assert(k2[e1.len() as int] == e2[e1.len() as int]);
        assert(e2.contains('\0'));
    }
    if e2.len() < e1.len() {
        assert(k2[e2.len() as int] == '\0');
        assert(k1[e2.len() as int] == e1[e2.len() as int]);
        assert(e1.contains('\0'));
    }
    assert forall|i: int| 0 <= i < e1.len() implies e1[i] == e2[i] by {
        assert(k1[i] == k2[i]);
    }
    assert(e1 =~= e2);
    assert(k1.len() == k2.len());
    assert(m1.len() == m2.len());
    assert forall|i: int| 0 <= i < m1.len() implies m1[i] == m2[i] by {
        let at = e1.len() + 1 + i;
        assert(k1[at] == m1[i] && k2[at] == m2[i]);
    }
    assert(m1 =~= m2);
}

/// The key of the entity that a transition moved.
pub open spec fn record_key(r: RecordView) -> Seq<char> {
    entity_key(r.entity_id, r.machine)
}

impl StoreModel {
    /// An empty store.
    pub open spec fn empty() -> StoreModel {
        StoreModel {
            machines: Map::empty(),
            entities: Map::empty(),
            log: Map::empty(),
            by_id: Map::empty(),
            effects: Map::empty(),
            emitted: Map::total(|t: Seq<char>| Seq::empty()),
            idempotency: Map::empty(),
            sequence: 0,
        }
    }

    /// What holds of every store: the log is numbered from one without gaps,
    /// every index leads into it, and everything stands under its own key.
    pub open spec fn wf(self) -> bool {
        &&& forall|n: u64| #[trigger] self.log.contains_key(n) <==> 1 <= n <= self.sequence
        &&& forall|n: u64| self.log.contains_key(n) ==> (#[trigger] self.log[n]).sequence == n
        &&& forall|k: Seq<char>| #[trigger]
            self.by_id.contains_key(k) ==> self.log.contains_key(self.by_id[k])
                && self.log[self.by_id[k]].id == k
        &&& forall|n: u64|
            self.log.contains_key(n) ==> self.by_id.contains_key((#[trigger] self.log[n]).id)
        &&& forall|k: Seq<char>| #[trigger]
            self.idempotency.contains_key(k) ==> self.log.contains_key(self.idempotency[k])
                && self.log[self.idempotency[k]].idempotency_key == Some(k)
        &&& forall|k: Seq<char>| #[trigger]
            self.entities.contains_key(k) ==> entity_key(
                self.entities[k].entity_id,
                self.entities[k].machine,
            ) == k
        &&& forall|k: Seq<char>| #[trigger]
            self.effects.contains_key(k) ==> self.effects[k].id == k
        &&& forall|k: (Seq<char>, u32)| #[trigger]
            self.machines.contains_key(k) ==> (self.machines[k].name, self.machines[k].version)
                == k
        &&& forall|t: Seq<char>| #[trigger] self.emitted.contains_key(t)
        &&& forall|t: Seq<char>, i: int|
            0 <= i < self.emitted[t].len() ==> self.effects.contains_key(
                #[trigger] self.emitted[t][i],
            )
    }

    // -- Changes ------------------------------------------------------------

    /// The store after a definition was added.
    pub open spec fn with_machine(self, m: MachineView) -> StoreModel {
        StoreModel { machines: self.machines.insert((m.name, m.version), settled(m)), ..self }
    }

    /// The store after an entity was put in place.
    pub open spec fn with_entity(self, e: EntityView) -> StoreModel {
        StoreModel {
            entities: self.entities.insert(entity_key(e.entity_id, e.machine), e),
            ..self
        }
    }

    /// The record with the next sequence number.
    pub open spec fn numbered(self, r: RecordView) -> RecordView {
        RecordView { sequence: (self.sequence + 1) as u64, ..r }
    }

    /// The store after a transition was appended to the log.
    pub open spec fn with_record(self, r: RecordView) -> StoreModel {
        let n = (self.sequence + 1) as u64;
        StoreModel {
            log: self.log.insert(n, self.numbered(r)),
            by_id: self.by_id.insert(r.id, n),
            sequence: n,
            ..self
        }
    }

    /// The store after an effect was put into the outbox.
    pub open spec fn with_effect(self, e: EffectView) -> StoreModel {
        let ids = self.emitted[e.transition_id];
        StoreModel {
            effects: self.effects.insert(e.id, e),
            emitted: if ids.contains(e.id) {
                self.emitted
            } else {
                self.emitted.insert(e.transition_id, ids.push(e.id))
            },
            ..self
        }
    }

    /// The store after several effects were put into the outbox, in order.
    pub open spec fn with_effects(self, s: Seq<EffectView>) -> StoreModel
        decreases s.len(),
    {
        if s.len() == 0 {
            self
        } else {
            self.with_effects(s.drop_last()).with_effect(s.last())
        }
    }

    /// The store after an idempotency key, if any, was tied to the last
    /// sequence number.
    pub open spec fn with_key(self, key: Option<Seq<char>>) -> StoreModel {
        match key {
            Some(k) => StoreModel { idempotency: self.idempotency.insert(k, self.sequence), ..self },
            None => self,
        }
    }

    /// The store after a transition: the log entry, the entity, the effects and
    /// the idempotency key.
    pub open spec fn executed(
        self,
        r: RecordView,
        state: EntityView,
        effects: Seq<EffectView>,
    ) -> StoreModel {
        self.with_record(r).with_entity(state).with_effects(effects).with_key(r.idempotency_key)
    }

    // -- Questions ----------------------------------------------------------

    /// Whether `m` is the definition asked for: that of the version, or the one
    /// with the highest version.
    pub open spec fn finds_machine(
        self,
        name: Seq<char>,
        version: Option<u32>,
        m: MachineView,
    ) -> bool {
        match version {
            Some(v) => self.machines.contains_key((name, v)) && self.machines[(name, v)] == m,
            None => {
                &&& self.machines.contains_key((name, m.version))
                &&& self.machines[(name, m.version)] == m
                &&& forall|v: u32| #[trigger]
                    self.machines.contains_key((name, v)) ==> v <= m.version
            },
        }
    }

    /// Whether some definition answers.
    pub open spec fn has_machine(self, name: Seq<char>, version: Option<u32>) -> bool {
        match version {
            Some(v) => self.machines.contains_key((name, v)),
            None => exists|v: u32| #[trigger] self.machines.contains_key((name, v)),
        }
    }

    /// Whether `s` lists all definitions, in the order of their keys.
    pub open spec fn lists_machines(self, s: Seq<MachineView>) -> bool {
        &&& forall|i: int|
            0 <= i < s.len() ==> self.machines.contains_key(
                ((#[trigger] s[i]).name, s[i].version),
            ) && self.machines[(s[i].name, s[i].version)] == s[i]
        &&& forall|i: int, j: int|
            0 <= i < j < s.len() ==> text_lt(
                machine_key((#[trigger] s[i]).name, s[i].version),
                machine_key((#[trigger] s[j]).name, s[j].version),
            )
        &&& forall|k: (Seq<char>, u32)| #[trigger]
            self.machines.contains_key(k) ==> s.contains(self.machines[k])
    }

    /// Whether an entity stands in a state of a machine.
    pub open spec fn stands_in(e: EntityView, machine: Seq<char>, state: Seq<char>) -> bool {
        e.machine == machine && e.current_state == state
    }

    /// Whether `s` lists the entities that stand in a state of a machine, in
    /// the order of their keys.
    pub open spec fn lists_entities(
        self,
        machine: Seq<char>,
        state: Seq<char>,
        s: Seq<EntityView>,
    ) -> bool {
        &&& forall|i: int|
            0 <= i < s.len() ==> {
                let k = entity_key((#[trigger] s[i]).entity_id, s[i].machine);
                &&& self.entities.contains_key(k)
                &&& self.entities[k] == s[i]
                &&& Self::stands_in(s[i], machine, state)
            }
        &&& forall|i: int, j: int|
            0 <= i < j < s.len() ==> text_lt(
                entity_key((#[trigger] s[i]).entity_id, s[i].machine),
                entity_key((#[trigger] s[j]).entity_id, s[j].machine),
            )
        &&& forall|k: Seq<char>| #[trigger]
            self.entities.contains_key(k) && Self::stands_in(self.entities[k], machine, state)
                ==> s.contains(self.entities[k])
    }

    /// The sequence numbers after `after` and up to `upto` of the transitions
    /// of one entity, ascending.
    pub open spec fn numbers_of(self, key: Seq<char>, after: u64, upto: u64) -> Seq<u64>
        decreases upto,
    {
        if upto <= after {
            Seq::empty()
        } else {
            let rest = self.numbers_of(key, after, (upto - 1) as u64);
            if self.log.contains_key(upto) && record_key(self.log[upto]) == key {
                rest.push(upto)
            } else {
                rest
            }
        }
    }

    /// The transitions with given sequence numbers.
    pub open spec fn records_at(self, numbers: Seq<u64>) -> Seq<RecordView> {
        Seq::new(numbers.len(), |i: int| self.log[numbers[i]])
    }

    /// The history of an entity: its transitions after a sequence number, in
    /// order, at most `limit` of them.
    pub open spec fn history(
        self,
        entity_id: Seq<char>,
        machine: Seq<char>,
        limit: Option<u32>,
        after: Option<u64>,
    ) -> Seq<RecordView> {
        let from = match after {
            Some(a) => a,
            None => 0,
        };
        let all = self.numbers_of(entity_key(entity_id, machine), from, self.sequence);
        self.records_at(
            match limit {
                Some(l) if l < all.len() => all.take(l as int),
                _ => all,
            },
        )
    }

    /// The transitions after a sequence number, in order, at most `limit`.
    pub open spec fn records_after(self, after: u64, limit: u32) -> Seq<RecordView> {
        let left = if after < self.sequence {
            self.sequence - after
        } else {
            0
        };
        let n = if left < limit {
            left
        } else {
            limit as int
        };
        Seq::new(n as nat, |i: int| self.log[(after + 1 + i) as u64])
    }

    /// The effects that a transition emitted, in the order of insertion.
    pub open spec fn effects_of(self, transition_id: Seq<char>) -> Seq<EffectView> {
        let ids = self.emitted[transition_id];
        Seq::new(ids.len(), |i: int| self.effects[ids[i]])
    }

    /// Whether `a` leaves the outbox before `b`: by time, then by identifier.
    pub open spec fn leaves_before(a: EffectView, b: EffectView) -> bool {
        a.created_at.earlier(b.created_at) || (a.created_at == b.created_at && text_lt(a.id, b.id))
    }

    /// Whether `s` lists the pending effects, earliest first.
    pub open spec fn lists_pending(self, s: Seq<EffectView>) -> bool {
        &&& forall|i: int|
            0 <= i < s.len() ==> self.effects.contains_key((#[trigger] s[i]).id)
                && self.effects[s[i].id] == s[i] && s[i].status == EffectStatus::Pending
        &&& forall|i: int, j: int|
            0 <= i < j < s.len() ==> Self::leaves_before(#[trigger] s[i], #[trigger] s[j])
        &&& forall|k: Seq<char>| #[trigger]
            self.effects.contains_key(k) && self.effects[k].status == EffectStatus::Pending
                ==> s.contains(self.effects[k])
    }

    /// Whether `s` is what a request for `limit` pending effects gets.
    pub open spec fn takes_pending(self, limit: u32, s: Seq<EffectView>) -> bool {
        exists|all: Seq<EffectView>| #[trigger]
            self.lists_pending(all) && s == (if limit < all.len() {
                all.take(limit as int)
            } else {
                all
            })
    }

    /// The transition that was stored under an idempotency key.
    pub open spec fn keyed(self, key: Seq<char>) -> Option<RecordView> {
        if self.idempotency.contains_key(key) {
            Some(self.log[self.idempotency[key]])
        } else {
            None
        }
    }
}

} // verus!
