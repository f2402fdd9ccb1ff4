//! What it comes to when subscribers are added, served and dropped.
use crate::engine::engine::{all_served, is_dead, passed, Engine};
use crate::engine::error::EngineError;
use crate::engine::laws::law_delivery_is_ordered_and_complete;
use crate::engine::stream::{
    channel_refused, channel_to, delivers, drained, served_by, tells, told_by, wanted, Drained,
    SubscriberView,
};
use crate::fsm::record::{ChangeRecord, ChangeView, Effect, EntityState, TransitionRecord};
use crate::storage::engine::StorageEngine;
use crate::storage::error::StorageError;
use vstd::prelude::*;

verus! {

/// What a filter leaves was there before.
proof fn lemma_kept<T>(s: Seq<T>, keeps: spec_fn(T) -> bool, b: int) -> (a: int)
    requires
        0 <= b < s.filter(keeps).len(),
    ensures
        0 <= a < s.len(),
        s[a] == s.filter(keeps)[b],
        keeps(s[a]),
    decreases s.len(),
{
    reveal(Seq::filter);
    let shorter = s.drop_last();
    if b < shorter.filter(keeps).len() {
        assert(s.filter(keeps)[b] == shorter.filter(keeps)[b]);
        let a = lemma_kept(shorter, keeps, b);
        assert(s[a] == shorter[a]);
        a
    } else {
        s.len() - 1
    }
}

/// What a pass sends.
proof fn lemma_sent<S: StorageEngine>(
    storage: S,
    before: Seq<SubscriberView>,
    subscribed: Seq<SubscriberView>,
    count: usize,
    b: int,
) -> (a: int)
    requires
        storage.model().wf(),
        exists|mid: Seq<SubscriberView>, ds: Seq<Drained>| #[trigger]
            passed(storage.model(), before, subscribed, mid, ds, count) && all_served(
                storage,
                before,
                mid,
                ds,
            ),
        0 <= b < subscribed.len(),
    ensures
        ({
            let m = storage.model();
            let x = before[a];
            let y = subscribed[b];
            let base = x.sent.len() as int;
            &&& 0 <= a < before.len()
            &&& y.id == x.id && y.channel == x.channel
            &&& y.filter.machine == x.filter.machine && y.filter.entity == x.filter.entity
            &&& x.cursor <= y.cursor
            &&& y.cursor < m.sequence ==> exists|f: StorageError| #[trigger]
                call_ensures(
                    S::get_transitions_after,
                    (&storage, y.cursor, 256u32),
                    Err::<Vec<TransitionRecord>, StorageError>(f),
                )
            &&& base <= y.sent.len()
            &&& y.sent.take(base) == x.sent
            &&& forall|i: int|
                base <= i < y.sent.len() ==> {
                    let c = #[trigger] y.sent[i];
                    let t = m.log[c.sequence];
                    &&& m.log.contains_key(c.sequence)
                    &&& x.cursor < c.sequence <= y.cursor
                    &&& x.filter.machine matches Some(n) ==> t.machine == n
                    &&& x.filter.entity matches Some(n) ==> t.entity_id == n
                    &&& c.transition_id == t.id
                    &&& c.entity_id == t.entity_id
                    &&& c.machine == t.machine
                    &&& c.from_state == t.from_state
                    &&& c.to_state == t.to_state
                    &&& c.event == t.event
                    &&& c.actor == t.actor
                    &&& c.version == t.version
                    &&& c.timestamp == t.timestamp
                    &&& c.ctx == t.ctx
                    &&& (c.effects.len() == m.emitted[t.id].len() && forall|k: int|
                        0 <= k < c.effects.len() ==> (#[trigger] c.effects[k]).effect_name
                            == m.effects[m.emitted[t.id][k]].effect_name && c.effects[k].payload
                            == m.effects[m.emitted[t.id][k]].payload) || (c.effects.len() == 0
                        && exists|id: &str, f: StorageError|
                        id@ == t.id && #[trigger] call_ensures(
                            S::get_effects_for_transition,
                            (&storage, id),
                            Err::<Vec<Effect>, StorageError>(f),
                        ))
                }
            &&& forall|i: int, j: int|
                base <= i < j < y.sent.len() ==> (#[trigger] y.sent[i]).sequence < (
                #[trigger] y.sent[j]).sequence
            &&& forall|n: u64|
                x.cursor < n <= y.cursor && #[trigger] m.log.contains_key(n) && (
                x.filter.machine matches Some(k) ==> m.log[n].machine == k) && (
                x.filter.entity matches Some(k) ==> m.log[n].entity_id == k) ==> exists|i: int|
                    base <= i < y.sent.len() && (#[trigger] y.sent[i]).sequence == n
        }),
{
    let m = storage.model();
    let (mid, ds) = choose|mid: Seq<SubscriberView>, ds: Seq<Drained>| #[trigger]
        passed(m, before, subscribed, mid, ds, count) && all_served(
            storage,
            before,
            mid,
            ds,
        );
    let alive = |x: SubscriberView| !is_dead(mid, ds, x.id);
    let a = lemma_kept(mid, alive, b);
    let x = before[a];
    let y = mid[a];
    assert(drained(m, x, y, ds[a]));
    assert(served_by(&storage, x, y, ds[a]));
    assert(!ds[a].dead) by {
        if ds[a].dead {
            assert(mid[a].id == y.id);
        }
    }
    let base = x.sent.len() as int;
    let new = y.sent.skip(base);
    assert(y.sent.take(base) =~= x.sent);
    let numbers = wanted(m, x.filter, x.cursor, y.cursor);
    law_delivery_is_ordered_and_complete(m, x.filter, x.cursor, y.cursor);
    assert(delivers(m, x.filter, x.cursor, y.cursor, new));
    assert forall|i: int| base <= i < y.sent.len() implies {
        let c = #[trigger] y.sent[i];
        &&& c == new[i - base]
        &&& tells(m, numbers[i - base], c)
        &&& told_by(&storage, numbers[i - base], c)
        &&& numbers.contains(numbers[i - base])
        &&& x.cursor < numbers[i - base] <= y.cursor
        &&& m.log.contains_key(numbers[i - base])
        &&& c.sequence == numbers[i - base]
    } by {
        assert(y.sent[i] == new[i - base]);
        assert(numbers.contains(numbers[i - base]));
        assert(m.log.contains_key(numbers[i - base]) <==> 1 <= numbers[i - base] <= m.sequence);
    }
    assert forall|n: u64|
        x.cursor < n <= y.cursor && #[trigger] m.log.contains_key(n)
            && (x.filter.machine matches Some(
            k,
        ) ==> m.log[n].machine == k) && (x.filter.entity matches Some(k) ==> m.log[n].entity_id
            == k) implies exists|i: int|
        base <= i < y.sent.len() && (#[trigger] y.sent[i]).sequence == n by {
        assert(numbers.contains(n));
        let j = choose|j: int| 0 <= j < numbers.len() && numbers[j] == n;
        assert(y.sent[base + j].sequence == n);
    }
    a
}

/// A pass sends a subscriber what it wants and nothing else. Each record that goes
/// out tells of one logged transition behind the old cursor, of the machine and
/// the entity that the subscriber asked for, with every field as it is logged and
/// with the effects that it emitted, unless the store failed to give those. The
/// records go out in the order of the log, each once; none that is wanted is left
/// out up to the new cursor, which stands at the end of the log, unless the store
/// failed to give the log behind it.
pub proof fn law_a_pass_sends_what_is_logged<
    S: StorageEngine,
    G: Fn(&EntityState, &serde_json::Value) -> bool,
>(e: &mut Engine<S, G>, after: Engine<S, G>, count: usize, b: int) -> (a: int)
    requires
        old(e).wf(),
        call_ensures(Engine::<S, G>::dispatch_pass, (e,), count),
        after == *final(e),
        0 <= b < after.subscribed().len(),
    ensures
        ({
            let m = old(e).model();
            let x = old(e).subscribed()[a];
            let y = after.subscribed()[b];
            let base = x.sent.len() as int;
            &&& 0 <= a < old(e).subscribed().len()
            &&& after.model() == m
            &&& y.id == x.id && y.channel == x.channel
            &&& y.filter.machine == x.filter.machine && y.filter.entity == x.filter.entity
            &&& x.cursor <= y.cursor
            &&& y.cursor < m.sequence ==> exists|f: StorageError| #[trigger]
                call_ensures(
                    S::get_transitions_after,
                    (&old(e).store(), y.cursor, 256u32),
                    Err::<Vec<TransitionRecord>, StorageError>(f),
                )
            &&& base <= y.sent.len()
            &&& y.sent.take(base) == x.sent
            &&& forall|i: int|
                base <= i < y.sent.len() ==> {
                    let c = #[trigger] y.sent[i];
                    let t = m.log[c.sequence];
                    &&& m.log.contains_key(c.sequence)
                    &&& x.cursor < c.sequence <= y.cursor
                    &&& x.filter.machine matches Some(n) ==> t.machine == n
                    &&& x.filter.entity matches Some(n) ==> t.entity_id == n
                    &&& c.transition_id == t.id
                    &&& c.entity_id == t.entity_id
                    &&& c.machine == t.machine
                    &&& c.from_state == t.from_state
                    &&& c.to_state == t.to_state
                    &&& c.event == t.event
                    &&& c.actor == t.actor
                    &&& c.version == t.version
                    &&& c.timestamp == t.timestamp
                    &&& c.ctx == t.ctx
                    &&& (c.effects.len() == m.emitted[t.id].len() && forall|k: int|
                        0 <= k < c.effects.len() ==> (#[trigger] c.effects[k]).effect_name
                            == m.effects[m.emitted[t.id][k]].effect_name && c.effects[k].payload
                            == m.effects[m.emitted[t.id][k]].payload) || (c.effects.len() == 0
                        && exists|id: &str, f: StorageError|
                        id@ == t.id && #[trigger] call_ensures(
                            S::get_effects_for_transition,
                            (&old(e).store(), id),
                            Err::<Vec<Effect>, StorageError>(f),
                        ))
                }
            &&& forall|i: int, j: int|
                base <= i < j < y.sent.len() ==> (#[trigger] y.sent[i]).sequence < (
                #[trigger] y.sent[j]).sequence
            &&& forall|n: u64|
                x.cursor < n <= y.cursor && #[trigger] m.log.contains_key(n) && (
                x.filter.machine matches Some(k) ==> m.log[n].machine == k) && (
                x.filter.entity matches Some(k) ==> m.log[n].entity_id == k) ==> exists|i: int|
                    base <= i < y.sent.len() && (#[trigger] y.sent[i]).sequence == n
        }),
{
    old(e).law_store_is_in_order();
    lemma_sent(old(e).store(), old(e).subscribed(), after.subscribed(), count, b)
}

/// A round of the dispatcher sends a subscriber what a pass sends it.
pub proof fn law_a_round_sends_what_is_logged<
    S: StorageEngine,
    G: Fn(&EntityState, &serde_json::Value) -> bool,
>(e: &mut Engine<S, G>, after: Engine<S, G>, count: usize, b: int) -> (a: int)
    requires
        old(e).wf(),
        call_ensures(Engine::<S, G>::dispatch, (e,), count),
        after == *final(e),
        0 <= b < after.subscribed().len(),
    ensures
        ({
            let m = old(e).model();
            let x = old(e).subscribed()[a];
            let y = after.subscribed()[b];
            let base = x.sent.len() as int;
            &&& 0 <= a < old(e).subscribed().len()
            &&& y.id == x.id && y.channel == x.channel
            &&& y.filter.machine == x.filter.machine && y.filter.entity == x.filter.entity
            &&& x.cursor <= y.cursor
            &&& y.cursor < m.sequence ==> exists|f: StorageError| #[trigger]
                call_ensures(
                    S::get_transitions_after,
                    (&old(e).store(), y.cursor, 256u32),
                    Err::<Vec<TransitionRecord>, StorageError>(f),
                )
            &&& base <= y.sent.len()
            &&& y.sent.take(base) == x.sent
            &&& forall|i: int|
                base <= i < y.sent.len() ==> {
                    let c = #[trigger] y.sent[i];
                    let t = m.log[c.sequence];
                    &&& m.log.contains_key(c.sequence)
                    &&& x.cursor < c.sequence <= y.cursor
                    &&& x.filter.machine matches Some(n) ==> t.machine == n
                    &&& x.filter.entity matches Some(n) ==> t.entity_id == n
                    &&& c.transition_id == t.id
                    &&& c.entity_id == t.entity_id
                    &&& c.machine == t.machine
                    &&& c.from_state == t.from_state
                    &&& c.to_state == t.to_state
                    &&& c.event == t.event
                    &&& c.actor == t.actor
                    &&& c.version == t.version
                    &&& c.timestamp == t.timestamp
                    &&& c.ctx == t.ctx
                    &&& (c.effects.len() == m.emitted[t.id].len() && forall|k: int|
                        0 <= k < c.effects.len() ==> (#[trigger] c.effects[k]).effect_name
                            == m.effects[m.emitted[t.id][k]].effect_name && c.effects[k].payload
                            == m.effects[m.emitted[t.id][k]].payload) || (c.effects.len() == 0
                        && exists|id: &str, f: StorageError|
                        id@ == t.id && #[trigger] call_ensures(
                            S::get_effects_for_transition,
                            (&old(e).store(), id),
                            Err::<Vec<Effect>, StorageError>(f),
                        ))
                }
            &&& forall|i: int, j: int|
                base <= i < j < y.sent.len() ==> (#[trigger] y.sent[i]).sequence < (
                #[trigger] y.sent[j]).sequence
            &&& forall|n: u64|
                x.cursor < n <= y.cursor && #[trigger] m.log.contains_key(n) && (
                x.filter.machine matches Some(k) ==> m.log[n].machine == k) && (
                x.filter.entity matches Some(k) ==> m.log[n].entity_id == k) ==> exists|i: int|
                    base <= i < y.sent.len() && (#[trigger] y.sent[i]).sequence == n
        }),
{
    old(e).law_store_is_in_order();
    lemma_sent(old(e).store(), old(e).subscribed(), after.subscribed(), count, b)
}

/// A pass drops only subscribers that are gone: where one is no longer served, a
/// channel under its name refused a record.
pub proof fn law_only_the_gone_are_dropped<
    S: StorageEngine,
    G: Fn(&EntityState, &serde_json::Value) -> bool,
>(e: &mut Engine<S, G>, after: Engine<S, G>, count: usize, a: int)
    requires
        old(e).wf(),
        call_ensures(Engine::<S, G>::dispatch_pass, (e,), count),
        after == *final(e),
        0 <= a < old(e).subscribed().len(),
    ensures
        ({
            let x = old(e).subscribed()[a];
            ||| exists|b: int|
                0 <= b < after.subscribed().len() && (#[trigger] after.subscribed()[b]).id == x.id
                    && after.subscribed()[b].channel == x.channel
            ||| exists|j: int, s: Seq<ChangeView>, c: ChangeView|
                0 <= j < old(e).subscribed().len() && (#[trigger] old(e).subscribed()[j]).id == x.id
                    && #[trigger] channel_refused(old(e).subscribed()[j].channel, s, c)
        }),
{
    let m = old(e).model();
    let before = old(e).subscribed();
    let (mid, ds) = choose|mid: Seq<SubscriberView>, ds: Seq<Drained>| #[trigger]
        passed(m, before, after.subscribed(), mid, ds, count) && all_served(
            old(e).store(),
            before,
            mid,
            ds,
        );
    let alive = |x: SubscriberView| !is_dead(mid, ds, x.id);
    let y = mid[a];
    assert(drained(m, before[a], mid[a], ds[a]));
    if alive(y) {
        mid.lemma_filter_contains(alive, a);
        let b = mid.filter(alive).index_of(y);
        assert(after.subscribed()[b] == y);
    } else {
        let j = choose|j: int| 0 <= j < mid.len() && (#[trigger] mid[j]).id == y.id && ds[j].dead;
        assert(drained(m, before[j], mid[j], ds[j]));
        assert(served_by(&old(e).store(), before[j], mid[j], ds[j]));
        let c = choose|c: ChangeView| #[trigger]
            channel_refused(mid[j].channel, mid[j].sent, c) && tells(m, mid[j].cursor, c)
                && told_by(&old(e).store(), mid[j].cursor, c);
        assert(channel_refused(before[j].channel, mid[j].sent, c));
    }
}

/// A new subscriber begins behind the number that it asks for, with what it asks
/// for, and nothing was sent to it; the newest of those before it stay as they
/// are, as many as the limit leaves room for.
pub proof fn law_subscriptions_begin_where_asked<
    S: StorageEngine,
    G: Fn(&EntityState, &serde_json::Value) -> bool,
>(
    e: &mut Engine<S, G>,
    after: Engine<S, G>,
    id: String,
    machine_filter: Option<String>,
    after_sequence: u64,
    r: Result<tokio::sync::mpsc::UnboundedReceiver<ChangeRecord>, EngineError>,
)
    requires
        old(e).wf(),
        old(e).subscriber_limit() > 0,
        call_ensures(
            Engine::<S, G>::subscribe,
            (e, id, machine_filter, after_sequence),
            r,
        ),
        after == *final(e),
    ensures
        r is Ok,
        ({
            let s = old(e).subscribed();
            let t = after.subscribed();
            let new = t.last();
            &&& t.len() > 0
            &&& new.id == id@ && new.cursor == after_sequence && new.sent.len() == 0
            &&& new.channel == channel_to(r->Ok_0)
            &&& new.filter.entity is None
            &&& match machine_filter {
                Some(n) => new.filter.machine == Some(n@),
                None => new.filter.machine is None,
            }
            &&& t.len() == (if s.len() < old(e).subscriber_limit() {
                s.len() + 1
            } else {
                old(e).subscriber_limit() as nat
            })
            &&& forall|i: int|
                1 <= i < t.len() ==> #[trigger] t[t.len() - 1 - i] == s[s.len() - i]
            &&& after.model() == old(e).model() && after.stopped() == old(e).stopped()
        }),
{
    old(e).law_store_is_in_order();
}

/// A subscriber to one entity hears of that entity alone.
pub proof fn law_enrolling_takes_both_filters<
    S: StorageEngine,
    G: Fn(&EntityState, &serde_json::Value) -> bool,
>(
    e: &mut Engine<S, G>,
    after: Engine<S, G>,
    id: String,
    machine_filter: Option<String>,
    entity_filter: Option<String>,
    after_sequence: u64,
    rx: tokio::sync::mpsc::UnboundedReceiver<ChangeRecord>,
)
    requires
        old(e).wf(),
        old(e).subscriber_limit() > 0,
        call_ensures(
            Engine::<S, G>::enroll,
            (e, id, machine_filter, entity_filter, after_sequence),
            rx,
        ),
        after == *final(e),
    ensures
        ({
            let new = after.subscribed().last();
            &&& new.id == id@ && new.cursor == after_sequence && new.sent.len() == 0
            &&& new.channel == channel_to(rx)
            &&& match machine_filter {
                Some(n) => new.filter.machine == Some(n@),
                None => new.filter.machine is None,
            }
            &&& match entity_filter {
                Some(n) => new.filter.entity == Some(n@),
                None => new.filter.entity is None,
            }
            &&& after.model() == old(e).model()
        }),
{
}

/// To unsubscribe drops those with the name and leaves the others, in their order.
pub proof fn law_unsubscribing_drops_the_name<
    S: StorageEngine,
    G: Fn(&EntityState, &serde_json::Value) -> bool,
>(e: &mut Engine<S, G>, after: Engine<S, G>, id: &str)
    requires
        old(e).wf(),
        call_ensures(Engine::<S, G>::unsubscribe, (e, id), ()),
        after == *final(e),
    ensures
        after.subscribed() == old(e).subscribed().filter(|x: SubscriberView| x.id != id@),
        forall|i: int| 0 <= i < after.subscribed().len() ==> (#[trigger] after.subscribed()[i]).id
            != id@,
        forall|i: int|
            0 <= i < old(e).subscribed().len() && (#[trigger] old(e).subscribed()[i]).id != id@
                ==> after.subscribed().contains(old(e).subscribed()[i]),
        after.model() == old(e).model(),
{
    let s = old(e).subscribed();
    let other = |x: SubscriberView| x.id != id@;
    assert forall|i: int| 0 <= i < after.subscribed().len() implies (
    #[trigger] after.subscribed()[i]).id != id@ by {
        let a = lemma_kept(s, other, i);
    }
    assert forall|i: int| 0 <= i < s.len() && (#[trigger] s[i]).id != id@ implies
        after.subscribed().contains(s[i]) by {
        s.lemma_filter_contains(other, i);
    }
}

/// To acknowledge moves the cursors of those with the name forward, never back,
/// and touches nothing else.
pub proof fn law_acknowledging_moves_forward<
    S: StorageEngine,
    G: Fn(&EntityState, &serde_json::Value) -> bool,
>(e: &mut Engine<S, G>, after: Engine<S, G>, id: &str, up_to_sequence: u64, i: int)
    requires
        old(e).wf(),
        call_ensures(Engine::<S, G>::acknowledge, (e, id, up_to_sequence), ()),
        after == *final(e),
        0 <= i < old(e).subscribed().len(),
    ensures
        ({
            let x = old(e).subscribed()[i];
            let y = after.subscribed()[i];
            &&& after.subscribed().len() == old(e).subscribed().len()
            &&& y.id == x.id && y.filter == x.filter && y.channel == x.channel && y.sent == x.sent
            &&& y.cursor >= x.cursor
            &&& x.id == id@ ==> y.cursor >= up_to_sequence
            &&& y.cursor == x.cursor || (x.id == id@ && y.cursor == up_to_sequence)
            &&& after.model() == old(e).model()
        }),
{
}

} // verus!
