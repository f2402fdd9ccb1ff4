//! Delivery of change records: which records a subscriber gets, in what order,
//! and how its cursor moves.
use crate::fsm::record::{
    effect_views, payload_views, record_views, ChangeRecord, ChangeView, Effect, EffectPayload,
    EffectPayloadView, EffectView, RecordView, TransitionRecord,
};
use crate::storage::engine::StorageEngine;
use crate::storage::error::StorageError;
use crate::storage::model::StoreModel;
use crate::text::opt_text;
use vstd::prelude::*;

verus! {

#[verifier::external_type_specification]
#[verifier::external_body]
#[verifier::reject_recursive_types(T)]
pub struct ExUnboundedSender<T>(tokio::sync::mpsc::UnboundedSender<T>);

#[verifier::external_type_specification]
#[verifier::external_body]
#[verifier::reject_recursive_types(T)]
pub struct ExUnboundedReceiver<T>(tokio::sync::mpsc::UnboundedReceiver<T>);

/// What went into a channel through this sender.
pub uninterp spec fn sent(tx: tokio::sync::mpsc::UnboundedSender<ChangeRecord>) -> Seq<ChangeView>;

/// Which channel a sender sends into.
pub uninterp spec fn channel_from(tx: tokio::sync::mpsc::UnboundedSender<ChangeRecord>) -> int;

/// Which channel a receiver receives from.
pub uninterp spec fn channel_to(rx: tokio::sync::mpsc::UnboundedReceiver<ChangeRecord>) -> int;

/// `tokio::sync::mpsc::unbounded_channel`: the two ends of one channel, into
/// which nothing was sent yet.
#[verifier::external_body]
pub(crate) fn channel() -> (r: (
    tokio::sync::mpsc::UnboundedSender<ChangeRecord>,
    tokio::sync::mpsc::UnboundedReceiver<ChangeRecord>,
))
    ensures
        channel_from(r.0) == channel_to(r.1),
        sent(r.0) == Seq::<ChangeView>::empty(),
{
    tokio::sync::mpsc::unbounded_channel()
}

/// `tokio::sync::mpsc::UnboundedSender::send`: the record goes into the
/// channel, or, where the receiver is gone, nowhere. Which of the two depends
/// on the receiver's owner.
#[verifier::external_body]
fn feed(tx: &mut tokio::sync::mpsc::UnboundedSender<ChangeRecord>, change: ChangeRecord) -> (ok:
    bool)
    ensures
        channel_from(*final(tx)) == channel_from(*old(tx)),
        sent(*final(tx)) == (if ok {
            sent(*old(tx)).push(change@)
        } else {
            sent(*old(tx))
        }),
{
    tx.send(change).is_ok()
}

/// What a subscriber wants to hear of: all machines or one, all entities or
/// one.
#[verifier::ext_equal]
pub struct FilterView {
    pub machine: Option<Seq<char>>,
    pub entity: Option<Seq<char>>,
}

impl FilterView {
    /// Whether a transition is wanted.
    pub open spec fn wants(self, r: RecordView) -> bool {
        &&& self.machine matches Some(m) ==> r.machine == m
        &&& self.entity matches Some(e) ==> r.entity_id == e
    }
}

/// A subscriber and how far it was served.
pub struct Subscriber {
    pub id: String,
    pub machine_filter: Option<String>,
    pub entity_filter: Option<String>,
    pub sender: tokio::sync::mpsc::UnboundedSender<ChangeRecord>,
    /// The highest sequence number that was looked at for this subscriber.
    pub delivered_through: u64,
}

/// The contents of a `Subscriber`: who it is, what it wants, how far it was
/// served, through which channel and with what.
#[verifier::ext_equal]
pub struct SubscriberView {
    pub id: Seq<char>,
    pub filter: FilterView,
    pub cursor: u64,
    pub channel: int,
    pub sent: Seq<ChangeView>,
}

impl View for Subscriber {
    type V = SubscriberView;

    open spec fn view(&self) -> SubscriberView {
        SubscriberView {
            id: self.id@,
            filter: FilterView {
                machine: opt_text(self.machine_filter),
                entity: opt_text(self.entity_filter),
            },
            cursor: self.delivered_through,
            channel: channel_from(self.sender),
            sent: sent(self.sender),
        }
    }
}

/// The sequence numbers after `after` and up to `upto` of the transitions that
/// a filter wants, ascending.
pub open spec fn wanted(m: StoreModel, f: FilterView, after: u64, upto: u64) -> Seq<u64>
    decreases upto,
{
    if upto <= after {
        Seq::empty()
    } else {
        let rest = wanted(m, f, after, (upto - 1) as u64);
        if f.wants(m.log[upto]) {
            rest.push(upto)
        } else {
            rest
        }
    }
}

/// Effects as a change record shows them.
pub open spec fn shown(s: Seq<EffectView>) -> Seq<EffectPayloadView> {
    Seq::new(
        s.len(),
        |i: int| EffectPayloadView { effect_name: s[i].effect_name, payload: s[i].payload },
    )
}

/// The change record of a transition that emitted the given effects.
pub open spec fn change_with(r: RecordView, effects: Seq<EffectPayloadView>) -> ChangeView {
    ChangeView {
        sequence: r.sequence,
        transition_id: r.id,
        entity_id: r.entity_id,
        machine: r.machine,
        from_state: r.from_state,
        to_state: r.to_state,
        event: r.event,
        actor: r.actor,
        version: r.version,
        timestamp: r.timestamp,
        ctx: r.ctx,
        effects,
    }
}

/// Whether `c` tells of transition `n`: with the effects it emitted, or, where
/// the store failed to give them, with none.
pub open spec fn tells(m: StoreModel, n: u64, c: ChangeView) -> bool {
    ||| c == change_with(m.log[n], shown(m.effects_of(m.log[n].id)))
    ||| c == change_with(m.log[n], Seq::empty())
}

/// Whether `list` tells of all wanted transitions after `after` and up to
/// `upto`, once each and in order.
pub open spec fn delivers(
    m: StoreModel,
    f: FilterView,
    after: u64,
    upto: u64,
    list: Seq<ChangeView>,
) -> bool {
    let numbers = wanted(m, f, after, upto);
    &&& list.len() == numbers.len()
    &&& forall|i: int| 0 <= i < list.len() ==> tells(m, numbers[i], #[trigger] list[i])
}

/// How draining the log for a subscriber went.
pub struct Drained {
    /// How many records went into the channel.
    pub delivered: u64,
    /// Whether the receiver turned out to be gone.
    pub dead: bool,
    /// Whether the end of the log was reached.
    pub complete: bool,
}

/// What draining did to a subscriber. The cursor never moves back. What was
/// sent is, in order and without gaps, all that the filter wants between the
/// old cursor and the new one; where the receiver was found gone, the record at
/// the new cursor is the one that could not be sent.
pub open spec fn drained(
    m: StoreModel,
    before: SubscriberView,
    after: SubscriberView,
    d: Drained,
) -> bool {
    &&& after.id == before.id
    &&& after.filter == before.filter
    &&& after.channel == before.channel
    &&& after.cursor >= before.cursor
    &&& after.cursor == before.cursor || after.cursor <= m.sequence
    &&& before.sent.len() + d.delivered == after.sent.len()
    &&& before.sent.is_prefix_of(after.sent)
    &&& d.dead ==> after.cursor > before.cursor && before.filter.wants(m.log[after.cursor])
    &&& delivers(
        m,
        before.filter,
        before.cursor,
        if d.dead {
            (after.cursor - 1) as u64
        } else {
            after.cursor
        },
        after.sent.skip(before.sent.len() as int),
    )
    &&& d.complete ==> !d.dead && after.cursor >= m.sequence
}

/// Whether a channel, into which `sent_before` was sent, refused a record.
pub closed spec fn channel_refused(
    channel: int,
    sent_before: Seq<ChangeView>,
    c: ChangeView,
) -> bool {
    exists|
        tx: &mut tokio::sync::mpsc::UnboundedSender<ChangeRecord>,
        change: ChangeRecord,
    |
        channel_from(*tx) == channel && sent(*tx) == sent_before && change@ == c
            && #[trigger] call_ensures(feed, (tx, change), false)
}

/// Whether the channel of a subscriber refused the record at its cursor.
pub open spec fn found_gone<S: StorageEngine>(storage: &S, x: SubscriberView) -> bool {
    exists|c: ChangeView| #[trigger]
        channel_refused(x.channel, x.sent, c) && tells(storage.model(), x.cursor, c) && told_by(
            storage,
            x.cursor,
            c,
        )
}

/// Whether the store failed when it was asked for the transitions behind a
/// cursor.
pub open spec fn log_failed<S: StorageEngine>(storage: &S, cursor: u64) -> bool {
    exists|e: StorageError| #[trigger]
        call_ensures(
            S::get_transitions_after,
            (storage, cursor, 256u32),
            Err::<Vec<TransitionRecord>, StorageError>(e),
        )
}

/// Whether the store failed when it was asked for the effects of a transition.
pub open spec fn effects_failed<S: StorageEngine>(storage: &S, transition_id: Seq<char>) -> bool {
    exists|id: &str, e: StorageError|
        id@ == transition_id && #[trigger] call_ensures(
            S::get_effects_for_transition,
            (storage, id),
            Err::<Vec<Effect>, StorageError>(e),
        )
}

/// Whether `c` is the change record of transition `n` with the effects that it
/// emitted, but for those that the store failed to give.
pub open spec fn told_by<S: StorageEngine>(storage: &S, n: u64, c: ChangeView) -> bool {
    let m = storage.model();
    c != change_with(m.log[n], shown(m.effects_of(m.log[n].id))) ==> effects_failed(
        storage,
        m.log[n].id,
    )
}

/// Whether the records that a subscriber was sent lack only what the store
/// failed to give.
pub open spec fn all_told<S: StorageEngine>(
    storage: &S,
    before: SubscriberView,
    after: SubscriberView,
) -> bool {
    let numbers = wanted(storage.model(), before.filter, before.cursor, after.cursor);
    let list = after.sent.skip(before.sent.len() as int);
    forall|i: int| 0 <= i < list.len() ==> told_by(storage, numbers[i], #[trigger] list[i])
}

/// Whether all that is missing of what draining a subscriber should do is owed
/// to the store or the receiver: a subscriber is found gone only where its
/// channel refused the record at the new cursor, draining stopped otherwise only
/// at the end of the log or where the store failed at the new cursor, and
/// records lack their effects only where the store failed to give them.
pub open spec fn served_by<S: StorageEngine>(
    storage: &S,
    before: SubscriberView,
    after: SubscriberView,
    d: Drained,
) -> bool {
    &&& d.dead ==> found_gone(storage, after)
    &&& !d.dead && !d.complete ==> log_failed(storage, after.cursor)
    &&& all_told(storage, before, after)
}

/// The effects of a transition as a change record shows them.
fn payloads(effects: &Vec<Effect>) -> (r: Vec<EffectPayload>)
    ensures
        payload_views(r@) == shown(effect_views(effects@)),
{
    let mut r: Vec<EffectPayload> = Vec::new();
    let mut i: usize = 0;
    while i < effects.len()
        invariant
            i <= effects.len(),
            r.len() == i,
            forall|j: int| 0 <= j < i ==> (#[trigger] r[j])@ == shown(effect_views(effects@))[j],
        decreases effects.len() - i,
    {
        r.push(
            EffectPayload {
                effect_name: effects[i].effect_name.clone(),
                payload: effects[i].payload.clone(),
            },
        );
        i = i + 1;
    }
    assert(payload_views(r@) =~= shown(effect_views(effects@)));
    r
}

/// The change record of a transition that emitted the given effects.
pub fn change_record(record: &TransitionRecord, effects: &Vec<Effect>) -> (r: ChangeRecord)
    ensures
        r@ == change_with(record@, shown(effect_views(effects@))),
{
    ChangeRecord {
        sequence: record.sequence,
        transition_id: record.id.clone(),
        entity_id: record.entity_id.clone(),
        machine: record.machine.clone(),
        from_state: record.from_state.clone(),
        to_state: record.to_state.clone(),
        event: record.event.clone(),
        actor: record.actor.clone(),
        version: record.version,
        timestamp: record.timestamp,
        ctx: record.ctx.clone(),
        effects: payloads(effects),
    }
}

impl Subscriber {
    /// Whether the subscriber wants to hear of a transition.
    fn wants(&self, record: &TransitionRecord) -> (r: bool)
        ensures
            r == self@.filter.wants(record@),
    {
        let machine_ok = match &self.machine_filter {
            Some(m) => record.machine == *m,
            None => true,
        };
        let entity_ok = match &self.entity_filter {
            Some(e) => record.entity_id == *e,
            None => true,
        };
        machine_ok && entity_ok
    }

    /// Sends the subscriber all it wants of what the log holds behind its
    /// cursor.
    pub fn drain<S: StorageEngine>(&mut self, storage: &S) -> (d: Drained)
        requires
            storage.wf(),
        ensures
            drained(storage.model(), old(self)@, final(self)@, d),
            served_by(storage, old(self)@, final(self)@, d),
    {
        let ghost m = storage.model();
        proof {
            storage.lemma_wf();
        }
        let ghost before = self@;
        let ghost base = before.sent.len() as int;
        let mut delivered: u64 = 0;
        assert(self@.sent.skip(base) =~= Seq::<ChangeView>::empty());
        loop
            invariant
                storage.wf(),
                m == storage.model(),
                m.wf(),
                before == old(self)@,
                base == before.sent.len(),
                drained(m, before, self@, (Drained { delivered, dead: false, complete: false })),
                all_told(storage, before, self@),
                delivered <= self@.cursor - before.cursor,
            decreases m.sequence - self.delivered_through,
        {
            let records = match storage.get_transitions_after(self.delivered_through, 256) {
                Ok(records) => records,
                Err(_) => {
                    return Drained { delivered, dead: false, complete: false };
                },
            };
            let ghost start = self@.cursor;
            let ghost views = m.records_after(start, 256);
            assert(record_views(records@).len() == records.len());
            if records.len() == 0 {
                return Drained { delivered, dead: false, complete: true };
            }
            let mut i: usize = 0;
            while i < records.len()
                invariant
                    storage.wf(),
                    m == storage.model(),
                    m.wf(),
                    before == old(self)@,
                    base == before.sent.len(),
                    views == m.records_after(start, 256),
                    record_views(records@) == views,
                    records.len() == views.len(),
                    i <= records.len(),
                    start + records.len() <= m.sequence,
                    self@.cursor == start + i,
                    drained(m, before, self@, (Drained { delivered, dead: false, complete: false })),
                    all_told(storage, before, self@),
                    delivered <= self@.cursor - before.cursor,
                decreases records.len() - i,
            {
                let record = &records[i];
                let ghost n = (start + 1 + i) as u64;
                let ghost sub0 = self@;
                proof {
                    assert(views[i as int] == record@);
                    assert(record@ == m.log[n]);
                    assert(m.log.contains_key(n));
                    assert(record.sequence == n);
                }
                self.delivered_through = record.sequence;
                if self.wants(record) {
                    let effects = match storage.get_effects_for_transition(record.id.as_str()) {
                        Ok(effects) => effects,
                        Err(_) => Vec::new(),
                    };
                    let change = change_record(record, &effects);
                    let ghost c = change@;
                    proof {
                        if effects.len() == 0 {
                            assert(shown(effect_views(effects@)) =~= Seq::empty());
                        }
                        assert(tells(m, n, c));
                        assert(told_by(storage, n, c));
                    }
                    let ok = feed(&mut self.sender, change);
                    if !ok {
                        assert(channel_refused(self@.channel, self@.sent, c));
                        return Drained { delivered, dead: true, complete: false };
                    }
                    delivered = delivered + 1;
                    proof {
                        let list0 = sub0.sent.skip(base);
                        let list = self@.sent.skip(base);
                        assert(list =~= list0.push(c));
                        assert(before.sent.is_prefix_of(self@.sent)) by {
                            assert(before.sent =~= self@.sent.take(base));
                        }
                    }
                }
                i = i + 1;
            }
            if records.len() < 256 {
                return Drained { delivered, dead: false, complete: true };
            }
        }
    }
}

} // verus!
