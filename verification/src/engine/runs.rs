//! What a subscriber receives over a whole run of calls.
use crate::engine::delivery::{
    alone, is_served, keeps, law_a_new_subscriber_stands_alone, law_publishing_keeps_the_log,
    law_requests_keep_the_log, lemma_one_is_drained, lemma_served_after_change,
    lemma_served_after_drain, lemma_total_is_sent, lemma_wanted_is_kept, relates_all, sent_between,
};
use crate::engine::engine::{
    all_served, all_taken_off, defined, is_dead, newest, passed, pending_published, yeses, Engine,
};
use crate::engine::error::EngineErrorView;
use crate::engine::laws::{law_delivery_is_ordered_and_complete, law_rounds_leave_no_gap};
use crate::engine::outcome::{came_of, RequestView, ResultView};
use crate::engine::stream::{
    drained, found_gone, log_failed, served_by, told_by, wanted, Drained, SubscriberView,
};
use crate::fsm::machine::MachineView;
use crate::fsm::record::{ChangeView, EffectView, EntityState};
use crate::storage::engine::StorageEngine;
use vstd::prelude::*;

verus! {

/// A call to an engine, with what came of it.
pub enum Call {
    /// A transition was asked for.
    Transition { request: RequestView, outcome: Result<ResultView, EngineErrorView> },
    /// A definition was handed in.
    Define { definition: MachineView, taken: Result<(), EngineErrorView> },
    /// Pending effects were published.
    Publish { published: Result<usize, EngineErrorView> },
    /// The subscribers were served, with so many records.
    Pass { count: usize },
}

/// Whether a pass led from one state of an engine to the next.
pub open spec fn pass_made<S: StorageEngine, G: Fn(&EntityState, &serde_json::Value) -> bool>(
    a: Engine<S, G>,
    b: Engine<S, G>,
    count: usize,
) -> bool {
    exists|mid: Seq<SubscriberView>, ds: Seq<Drained>| #[trigger]
        passed(a.model(), a.subscribed(), b.subscribed(), mid, ds, count) && all_served(
            a.store(),
            a.subscribed(),
            mid,
            ds,
        )
}

/// Whether a call led from one state of an engine to the next.
pub open spec fn call_made<S: StorageEngine, G: Fn(&EntityState, &serde_json::Value) -> bool>(
    a: Engine<S, G>,
    call: Call,
    b: Engine<S, G>,
) -> bool {
    match call {
        Call::Transition { request, outcome } => b.same_but_store(&a) && came_of(
            a.store(),
            b.model(),
            a.guard_map(),
            a.stopped(),
            request,
            outcome,
        ),
        Call::Define { definition, taken } => b.same_but_store(&a) && defined(
            a.model(),
            b.model(),
            definition,
            taken,
        ),
        Call::Publish { published } => b.same_but_store(&a) && pending_published(
            a.store(),
            b.model(),
            published,
        ),
        Call::Pass { count } => b.same_but_subscribers(&a) && pass_made(a, b, count),
    }
}

/// Whether states of an engine follow each other by calls.
pub open spec fn calls_made<S: StorageEngine, G: Fn(&EntityState, &serde_json::Value) -> bool>(
    states: Seq<Engine<S, G>>,
    calls: Seq<Call>,
) -> bool {
    &&& states.len() == calls.len() + 1
    &&& forall|i: int| 0 <= i < states.len() ==> (#[trigger] states[i]).wf()
    &&& forall|i: int|
        #![trigger calls[i]]
        0 <= i < calls.len() ==> call_made(states[i], calls[i], states[i + 1])
}

/// Whether a store gives the log to all who ask.
pub open spec fn log_is_given<S: StorageEngine>(storage: S) -> bool {
    forall|cursor: u64| !#[trigger] log_failed(&storage, cursor)
}

/// Whether a channel takes all that is sent into it.
pub open spec fn channel_is_kept<S: StorageEngine>(storage: S, channel: int) -> bool {
    forall|x: SubscriberView| x.channel == channel ==> !#[trigger] found_gone(&storage, x)
}

/// Whether every pass of a run gets the log from the store and finds the
/// receiver of a channel in place.
pub open spec fn passes_succeed<
    S: StorageEngine,
    G: Fn(&EntityState, &serde_json::Value) -> bool,
>(states: Seq<Engine<S, G>>, calls: Seq<Call>, channel: int) -> bool {
    forall|i: int|
        #![trigger calls[i]]
        0 <= i < calls.len() && calls[i] is Pass ==> log_is_given(states[i].store())
            && channel_is_kept(states[i].store(), channel)
}

/// Whether a subscriber was added to an engine as `Engine::subscribe` does it.
pub open spec fn added<S: StorageEngine, G: Fn(&EntityState, &serde_json::Value) -> bool>(
    a: Engine<S, G>,
    b: Engine<S, G>,
    x: SubscriberView,
) -> bool {
    &&& b.same_but_subscribers(&a)
    &&& b.subscribed() == newest(a.subscribed().push(x), a.subscriber_limit())
    &&& x.sent == Seq::<ChangeView>::empty()
}

/// Whether a pass of a run sent `c` for transition `n`, with the effects that the
/// store held then, but for those that it failed to give.
pub open spec fn told_then<S: StorageEngine, G: Fn(&EntityState, &serde_json::Value) -> bool>(
    states: Seq<Engine<S, G>>,
    calls: Seq<Call>,
    n: u64,
    c: ChangeView,
) -> bool {
    exists|j: int|
        0 <= j < calls.len() && calls[j] is Pass && #[trigger] told_by(&states[j].store(), n, c)
}

/// Whether all that a subscriber was sent came of the passes of a run.
pub open spec fn told_in_run<S: StorageEngine, G: Fn(&EntityState, &serde_json::Value) -> bool>(
    states: Seq<Engine<S, G>>,
    calls: Seq<Call>,
    first: SubscriberView,
    x: SubscriberView,
) -> bool {
    let numbers = wanted(states.last().model(), first.filter, first.cursor, x.cursor);
    forall|i: int|
        0 <= i < x.sent.len() ==> told_then(states, calls, numbers[i], #[trigger] x.sent[i])
}

/// All with the name of one who stands alone are that one.
proof fn lemma_alone(s: Seq<SubscriberView>, x: SubscriberView, i: int)
    requires
        alone(s, x),
        0 <= i < s.len(),
        s[i].id == x.id,
    ensures
        s[i] == x,
{
    let is_x = |y: SubscriberView| y.id == x.id;
    s.lemma_filter_contains(is_x, i);
    assert(s.filter(is_x).contains(s[i]));
}

/// Other calls than passes keep the log and the subscribers.
proof fn lemma_other_call<S: StorageEngine, G: Fn(&EntityState, &serde_json::Value) -> bool>(
    a: Engine<S, G>,
    call: Call,
    b: Engine<S, G>,
)
    requires
        a.wf(),
        call_made(a, call, b),
        !(call is Pass),
    ensures
        keeps(a.model(), b.model()),
        b.subscribed() == a.subscribed(),
{
    a.law_store_is_in_order();
    match call {
        Call::Transition { request, outcome } => {
            law_requests_keep_the_log(
                a.store(),
                b.model(),
                a.guard_map(),
                a.stopped(),
                request,
                outcome,
            );
        },
        Call::Define { .. } => {},
        Call::Publish { published } => {
            if published is Ok {
                let (list, done) = choose|list: Seq<EffectView>, done: Seq<bool>|
                    a.model().takes_pending(256, list) && #[trigger] all_taken_off::<S>(
                        a.model(),
                        b.model(),
                        list,
                        done,
                    ) && published->Ok_0 == yeses(done);
                law_publishing_keeps_the_log(a.model(), b.model(), list);
            }
        },
        Call::Pass { .. } => {},
    }
}

/// A pass serves a subscriber to the end of the log.
proof fn lemma_pass<S: StorageEngine, G: Fn(&EntityState, &serde_json::Value) -> bool>(
    a: Engine<S, G>,
    b: Engine<S, G>,
    count: usize,
    first: SubscriberView,
    x: SubscriberView,
) -> (y: SubscriberView)
    requires
        pass_made(a, b, count),
        b.same_but_subscribers(&a),
        log_is_given(a.store()),
        channel_is_kept(a.store(), first.channel),
        alone(a.subscribed(), x),
        is_served(a.model(), first, x),
    ensures
        alone(b.subscribed(), y),
        is_served(b.model(), first, y),
        y.cursor >= b.model().sequence,
        x.cursor <= y.cursor,
        x.sent.is_prefix_of(y.sent),
        forall|i: int|
            x.sent.len() <= i < y.sent.len() ==> told_by(
                &a.store(),
                wanted(b.model(), first.filter, first.cursor, y.cursor)[i],
                #[trigger] y.sent[i],
            ),
        forall|i: int|
            0 <= i < x.sent.len() ==> wanted(b.model(), first.filter, first.cursor, y.cursor)[i]
                == #[trigger] wanted(a.model(), first.filter, first.cursor, x.cursor)[i],
{
    let m = a.model();
    let before = a.subscribed();
    let (mid, ds) = choose|mid: Seq<SubscriberView>, ds: Seq<Drained>| #[trigger]
        passed(m, before, b.subscribed(), mid, ds, count) && all_served(
            a.store(),
            before,
            mid,
            ds,
        );
    assert forall|i: int| 0 <= i < mid.len() && (#[trigger] mid[i]).id == x.id implies !ds[i].dead by {
        assert(drained(m, before[i], mid[i], ds[i]));
        lemma_alone(before, x, i);
        assert(served_by(&a.store(), before[i], mid[i], ds[i]));
        assert(!found_gone(&a.store(), mid[i]));
    }
    assert(!is_dead(mid, ds, x.id));
    let gone = |id: Seq<char>| is_dead(mid, ds, id);
    let k = lemma_one_is_drained(m, before, mid, ds, x, gone);
    let y = mid[k];
    let stays = |y: SubscriberView| !gone(y.id);
    let alive = |y: SubscriberView| !is_dead(mid, ds, y.id);
    assert(stays =~= alive);
    assert(drained(m, before[k], y, ds[k]));
    assert(served_by(&a.store(), before[k], y, ds[k]));
    assert(!log_failed(&a.store(), y.cursor));
    lemma_served_after_drain(m, first, x, y, ds[k]);
    law_rounds_leave_no_gap(m, first.filter, first.cursor, x.cursor, y.cursor);
    let head = wanted(m, first.filter, first.cursor, x.cursor);
    let tail = wanted(m, first.filter, x.cursor, y.cursor);
    let base = x.sent.len() as int;
    let new = y.sent.skip(base);
    assert forall|i: int| base <= i < y.sent.len() implies told_by(
        &a.store(),
        wanted(m, first.filter, first.cursor, y.cursor)[i],
        #[trigger] y.sent[i],
    ) by {
        assert(new[i - base] == y.sent[i]);
        assert((head + tail)[i] == tail[i - base]);
    }
    y
}

/// Over a run of calls a subscriber stays in place and is served as far as the
/// passes went.
proof fn lemma_calls<S: StorageEngine, G: Fn(&EntityState, &serde_json::Value) -> bool>(
    states: Seq<Engine<S, G>>,
    calls: Seq<Call>,
    first: SubscriberView,
) -> (x: SubscriberView)
    requires
        calls_made(states, calls),
        passes_succeed(states, calls, first.channel),
        alone(states[0].subscribed(), first),
        first.sent.len() == 0,
    ensures
        alone(states.last().subscribed(), x),
        is_served(states.last().model(), first, x),
        told_in_run(states, calls, first, x),
        calls.len() > 0 && calls.last() is Pass ==> x.cursor >= states.last().model().sequence,
    decreases calls.len(),
{
    if calls.len() == 0 {
        assert(wanted(states[0].model(), first.filter, first.cursor, first.cursor).len() == 0);
        first
    } else {
        let s0 = states.drop_last();
        let c0 = calls.drop_last();
        let n = calls.len() - 1;
        assert forall|i: int| #![trigger c0[i]] 0 <= i < c0.len() implies call_made(
            s0[i],
            c0[i],
            s0[i + 1],
        ) by {
            assert(c0[i] == calls[i]);
        }
        assert forall|i: int| 0 <= i < s0.len() implies (#[trigger] s0[i]).wf() by {
            assert(s0[i] == states[i]);
        }
        assert forall|i: int| #![trigger c0[i]] 0 <= i < c0.len() && c0[i] is Pass implies log_is_given(
            s0[i].store(),
        ) && channel_is_kept(s0[i].store(), first.channel) by {
            assert(c0[i] == calls[i]);
        }
        let x = lemma_calls(s0, c0, first);
        let a = states[n];
        let b = states[n + 1];
        assert(call_made(a, calls[n], b));
        a.law_store_is_in_order();
        let old_numbers = wanted(a.model(), first.filter, first.cursor, x.cursor);
        assert forall|i: int| 0 <= i < x.sent.len() implies told_then(
            states,
            calls,
            old_numbers[i],
            #[trigger] x.sent[i],
        ) by {
            assert(told_then(s0, c0, old_numbers[i], x.sent[i]));
            let j = choose|j: int|
                0 <= j < c0.len() && c0[j] is Pass && #[trigger] told_by(
                    &s0[j].store(),
                    old_numbers[i],
                    x.sent[i],
                );
            assert(told_by(&states[j].store(), old_numbers[i], x.sent[i]));
            assert(calls[j] == c0[j]);
        }
        match calls[n] {
            Call::Pass { count } => {
                let y = lemma_pass(a, b, count, first, x);
                let numbers = wanted(b.model(), first.filter, first.cursor, y.cursor);
                assert forall|i: int| 0 <= i < y.sent.len() implies told_then(
                    states,
                    calls,
                    numbers[i],
                    #[trigger] y.sent[i],
                ) by {
                    if i < x.sent.len() {
                        assert(y.sent[i] == x.sent[i]);
                        assert(numbers[i] == old_numbers[i]);
                    } else {
                        assert(told_by(&states[n].store(), numbers[i], y.sent[i]));
                    }
                }
                y
            },
            _ => {
                lemma_other_call(a, calls[n], b);
                lemma_served_after_change(a.model(), b.model(), first, x);
                lemma_wanted_is_kept(a.model(), b.model(), first.filter, first.cursor, x.cursor);
                x
            },
        }
    }
}

/// Over any run of calls that follows a subscription and ends with a pass, a
/// subscriber receives exactly the transitions after its cursor that it wants:
/// each once, in the order of their numbers, with all that is logged of it, and
/// with the effects that the store held when it was sent, but for those that the
/// store failed to give. Its name is used by no other, its receiver is kept, and
/// the store gives each pass the log.
pub proof fn law_calls_deliver_everything_once<
    S: StorageEngine,
    G: Fn(&EntityState, &serde_json::Value) -> bool,
>(before: Engine<S, G>, states: Seq<Engine<S, G>>, calls: Seq<Call>, first: SubscriberView)
    requires
        before.subscriber_limit() > 0,
        forall|i: int|
            0 <= i < before.subscribed().len() ==> (#[trigger] before.subscribed()[i]).id
                != first.id,
        calls_made(states, calls),
        added(before, states[0], first),
        passes_succeed(states, calls, first.channel),
        calls.len() > 0,
        calls.last() is Pass,
    ensures
        exists|x: SubscriberView| #[trigger]
            alone(states.last().subscribed(), x) && {
                let m = states.last().model();
                let numbers = wanted(m, first.filter, first.cursor, m.sequence);
                &&& x.id == first.id
                &&& x.channel == first.channel
                &&& relates_all(m, first.filter, first.cursor, m.sequence, x.sent)
                &&& forall|i: int|
                    0 <= i < x.sent.len() ==> told_then(
                        states,
                        calls,
                        numbers[i],
                        #[trigger] x.sent[i],
                    )
                &&& forall|i: int, j: int| 0 <= i < j < numbers.len() ==> numbers[i] < numbers[j]
                &&& forall|n: u64| #[trigger]
                    numbers.contains(n) <==> first.cursor < n <= m.sequence && first.filter.wants(
                        m.log[n],
                    )
            },
{
    law_a_new_subscriber_stands_alone(before.subscribed(), first, before.subscriber_limit());
    let x = lemma_calls(states, calls, first);
    let m = states.last().model();
    law_delivery_is_ordered_and_complete(m, first.filter, first.cursor, m.sequence);
    assert(wanted(m, first.filter, first.cursor, x.cursor) == wanted(
        m,
        first.filter,
        first.cursor,
        m.sequence,
    ));
    assert(alone(states.last().subscribed(), x));
}

/// A pass returns how many records it sent over all subscribers, as far as the
/// number can be told.
pub proof fn law_a_pass_returns_what_it_sends<
    S: StorageEngine,
    G: Fn(&EntityState, &serde_json::Value) -> bool,
>(a: Engine<S, G>, b: Engine<S, G>, count: usize)
    requires
        call_made(a, Call::Pass { count }, b),
    ensures
        exists|mid: Seq<SubscriberView>, ds: Seq<Drained>| #[trigger]
            passed(a.model(), a.subscribed(), b.subscribed(), mid, ds, count) && count == (
            if sent_between(a.subscribed(), mid) > usize::MAX {
                usize::MAX as int
            } else {
                sent_between(a.subscribed(), mid)
            }),
{
    let (mid, ds) = choose|mid: Seq<SubscriberView>, ds: Seq<Drained>| #[trigger]
        passed(a.model(), a.subscribed(), b.subscribed(), mid, ds, count) && all_served(
            a.store(),
            a.subscribed(),
            mid,
            ds,
        );
    lemma_total_is_sent(a.model(), a.subscribed(), mid, ds);
    assert(passed(a.model(), a.subscribed(), b.subscribed(), mid, ds, count));
}

} // verus!
