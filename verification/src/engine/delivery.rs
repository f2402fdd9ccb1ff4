//! What subscribers receive over a whole run of transitions and passes.
use crate::clock::Timestamp;
use crate::engine::engine::{all_served, is_dead, newest, only_statuses, passed, total};
use crate::engine::error::EngineErrorView;
use crate::engine::laws::{
    law_delivery_is_ordered_and_complete, law_rounds_leave_no_gap, lemma_effects_touch_outbox_only,
};
use crate::engine::outcome::{
    came_of, carried_out, entity_for, performed_as, record_for, state_in, version_in,
    was_carried_out, RequestView, ResultView,
};
use crate::engine::stream::{
    change_with, delivers, drained, found_gone, log_failed, served_by, tells, wanted, Drained,
    FilterView, SubscriberView,
};
use crate::fsm::machine::MachineView;
use crate::fsm::planner::planned_rule;
use crate::fsm::record::{ChangeView, EffectPayloadView, EffectView, EntityState, RecordView};
use crate::storage::engine::StorageEngine;
use crate::storage::model::StoreModel;
use vstd::prelude::*;

verus! {

// ---------------------------------------------------------------------------
// What stays in the log
// ---------------------------------------------------------------------------

/// Whether everything logged, and every idempotency key, is still there.
pub open spec fn keeps(m0: StoreModel, m1: StoreModel) -> bool {
    &&& m0.sequence <= m1.sequence
    &&& forall|n: u64| #[trigger]
        m0.log.contains_key(n) ==> m1.log.contains_key(n) && m1.log[n] == m0.log[n]
    &&& forall|k: Seq<char>| #[trigger]
        m0.idempotency.contains_key(k) ==> m1.idempotency.contains_key(k) && m1.idempotency[k]
            == m0.idempotency[k]
}

/// What was kept twice was kept.
pub proof fn law_keeping_goes_on(a: StoreModel, b: StoreModel, c: StoreModel)
    requires
        keeps(a, b),
        keeps(b, c),
    ensures
        keeps(a, c),
{
    assert forall|n: u64| #[trigger] a.log.contains_key(n) implies c.log.contains_key(n)
        && c.log[n] == a.log[n] by {
        assert(b.log.contains_key(n));
    }
    assert forall|k: Seq<char>| #[trigger] a.idempotency.contains_key(k) implies
        c.idempotency.contains_key(k) && c.idempotency[k] == a.idempotency[k] by {
        assert(b.idempotency.contains_key(k));
    }
}

/// A transition that was carried out keeps what is logged.
pub proof fn law_transitions_keep_the_log<G: Fn(&EntityState, &serde_json::Value) -> bool>(
    m0: StoreModel,
    m1: StoreModel,
    guards: Map<Seq<char>, G>,
    req: RequestView,
    out: ResultView,
)
    requires
        m0.wf(),
        was_carried_out(m0, m1, guards, req, out),
    ensures
        keeps(m0, m1),
{
    let def = choose|def: MachineView| #[trigger] carried_out(m0, m1, guards, def, req, out);
    let (id, at, now, effects) = choose|
        id: Seq<char>,
        at: Timestamp,
        now: Timestamp,
        effects: Seq<EffectView>,
    | #[trigger] performed_as(m0, m1, def, req, out, id, at, now, effects);
    let from = state_in(m0, def, req.key());
    let to = planned_rule(def, from, req.event).to_state;
    let version = (version_in(m0, req.key()) + 1) as u64;
    let record = record_for(req, from, to, version, id, at);
    let entity = entity_for(m0, req, to, version, now);
    lemma_effects_touch_outbox_only(m0.with_record(record).with_entity(entity), effects);
    let n = (m0.sequence + 1) as u64;
    assert(m0.log.contains_key(n) <==> 1 <= n <= m0.sequence);
}

/// Whatever comes of a request, what is logged stays.
pub proof fn law_requests_keep_the_log<
    S: StorageEngine,
    G: Fn(&EntityState, &serde_json::Value) -> bool,
>(
    storage: S,
    m1: StoreModel,
    guards: Map<Seq<char>, G>,
    stopped: bool,
    req: RequestView,
    r: Result<ResultView, EngineErrorView>,
)
    requires
        storage.model().wf(),
        came_of(storage, m1, guards, stopped, req, r),
    ensures
        keeps(storage.model(), m1),
{
    let m0 = storage.model();
    if m1 != m0 {
        let out = match r {
            Ok(out) => out,
            Err(_) => choose|out: ResultView| #[trigger]
                was_carried_out(m0, m1, guards, req, out),
        };
        law_transitions_keep_the_log(m0, m1, guards, req, out);
    }
}

/// To publish effects changes nothing that is logged.
pub proof fn law_publishing_keeps_the_log(
    m0: StoreModel,
    m1: StoreModel,
    list: Seq<EffectView>,
)
    requires
        only_statuses(m0, m1, list),
    ensures
        keeps(m0, m1),
{
}

// ---------------------------------------------------------------------------
// Runs
// ---------------------------------------------------------------------------

/// A moment of a run: what the store holds and who is subscribed.
pub struct Moment {
    pub model: StoreModel,
    pub subscribers: Seq<SubscriberView>,
}

/// A step of a run.
pub enum Step {
    /// The store changed, and what is logged stayed.
    Changed,
    /// A pass served the subscribers.
    Pass { mid: Seq<SubscriberView>, ds: Seq<Drained>, count: usize },
}

/// Whether a step leads from one moment to the next. A pass here reaches the
/// end of the log for the subscribers called `id`, and finds them there.
pub open spec fn leads(a: Moment, s: Step, b: Moment, id: Seq<char>) -> bool {
    match s {
        Step::Changed => keeps(a.model, b.model) && b.subscribers == a.subscribers,
        Step::Pass { mid, ds, count } => {
            &&& b.model == a.model
            &&& passed(a.model, a.subscribers, b.subscribers, mid, ds, count)
            &&& !is_dead(mid, ds, id)
            &&& forall|i: int| 0 <= i < mid.len() && (#[trigger] mid[i]).id == id ==> ds[i].complete
        },
    }
}

/// Whether moments follow each other by steps.
pub open spec fn is_run(moments: Seq<Moment>, steps: Seq<Step>, id: Seq<char>) -> bool {
    &&& moments.len() == steps.len() + 1
    &&& forall|i: int| 0 <= i < moments.len() ==> (#[trigger] moments[i]).model.wf()
    &&& forall|i: int|
        #![trigger steps[i]]
        0 <= i < steps.len() ==> leads(moments[i], steps[i], moments[i + 1], id)
}

/// Whether a subscriber is the only one with its name.
pub open spec fn alone(s: Seq<SubscriberView>, x: SubscriberView) -> bool {
    s.filter(|y: SubscriberView| y.id == x.id) == seq![x]
}

/// Whether `c` is the change record of a transition, whatever effects it shows.
pub open spec fn relates(c: ChangeView, r: RecordView) -> bool {
    exists|effects: Seq<EffectPayloadView>| #[trigger] change_with(r, effects) == c
}

/// Whether a list relates all wanted transitions after `after` and up to `upto`,
/// once each and in order.
pub open spec fn relates_all(
    m: StoreModel,
    f: FilterView,
    after: u64,
    upto: u64,
    list: Seq<ChangeView>,
) -> bool {
    let numbers = wanted(m, f, after, upto);
    &&& list.len() == numbers.len()
    &&& forall|i: int| 0 <= i < list.len() ==> relates(#[trigger] list[i], m.log[numbers[i]])
}

/// How far a subscriber that began behind `after` is served at some time.
pub open spec fn is_served(m: StoreModel, first: SubscriberView, x: SubscriberView) -> bool {
    &&& x.id == first.id
    &&& x.filter == first.filter
    &&& x.channel == first.channel
    &&& first.cursor <= x.cursor
    &&& x.cursor == first.cursor || x.cursor <= m.sequence
    &&& relates_all(m, first.filter, first.cursor, x.cursor, x.sent)
}

/// What is wanted up to some number does not depend on what is logged later.
pub(crate) proof fn lemma_wanted_is_kept(
    m0: StoreModel,
    m1: StoreModel,
    f: FilterView,
    after: u64,
    upto: u64,
)
    requires
        m0.wf(),
        keeps(m0, m1),
        upto <= after || upto <= m0.sequence,
    ensures
        wanted(m1, f, after, upto) == wanted(m0, f, after, upto),
    decreases upto,
{
    if upto > after {
        lemma_wanted_is_kept(m0, m1, f, after, (upto - 1) as u64);
        assert(m0.log.contains_key(upto) <==> 1 <= upto <= m0.sequence);
    }
}

pub(crate) proof fn lemma_served_after_change(
    m0: StoreModel,
    m1: StoreModel,
    first: SubscriberView,
    x: SubscriberView,
)
    requires
        m0.wf(),
        keeps(m0, m1),
        is_served(m0, first, x),
    ensures
        is_served(m1, first, x),
{
    let f = first.filter;
    lemma_wanted_is_kept(m0, m1, f, first.cursor, x.cursor);
    law_delivery_is_ordered_and_complete(m0, f, first.cursor, x.cursor);
    let numbers = wanted(m0, f, first.cursor, x.cursor);
    assert forall|i: int| 0 <= i < x.sent.len() implies relates(
        #[trigger] x.sent[i],
        m1.log[numbers[i]],
    ) by {
        assert(numbers.contains(numbers[i]));
        assert(m0.log.contains_key(numbers[i]) <==> 1 <= numbers[i] <= m0.sequence);
    }
}

pub(crate) proof fn lemma_served_after_drain(
    m: StoreModel,
    first: SubscriberView,
    x: SubscriberView,
    y: SubscriberView,
    d: Drained,
)
    requires
        is_served(m, first, x),
        drained(m, x, y, d),
        d.complete,
    ensures
        is_served(m, first, y),
        y.cursor >= m.sequence,
{
    let f = first.filter;
    law_rounds_leave_no_gap(m, f, first.cursor, x.cursor, y.cursor);
    let head = wanted(m, f, first.cursor, x.cursor);
    let tail = wanted(m, f, x.cursor, y.cursor);
    let base = x.sent.len() as int;
    let new = y.sent.skip(base);
    assert(delivers(m, f, x.cursor, y.cursor, new));
    assert(y.sent =~= x.sent + new) by {
        assert(x.sent =~= y.sent.take(base));
    }
    assert forall|i: int| 0 <= i < y.sent.len() implies relates(
        #[trigger] y.sent[i],
        m.log[(head + tail)[i]],
    ) by {
        if i < base {
            assert(y.sent[i] == x.sent[i]);
        } else {
            assert(y.sent[i] == new[i - base]);
            assert(tells(m, tail[i - base], new[i - base]));
        }
    }
}

/// The one subscriber of a name is drained, and stays where it was not found
/// gone.
pub(crate) proof fn lemma_one_is_drained(
    m: StoreModel,
    before: Seq<SubscriberView>,
    mid: Seq<SubscriberView>,
    ds: Seq<Drained>,
    x: SubscriberView,
    gone: spec_fn(Seq<char>) -> bool,
) -> (k: int)
    requires
        mid.len() == before.len(),
        ds.len() == before.len(),
        forall|i: int| 0 <= i < before.len() ==> drained(m, before[i], #[trigger] mid[i], ds[i]),
        alone(before, x),
        !gone(x.id),
    ensures
        0 <= k < before.len(),
        before[k] == x,
        alone(mid.filter(|y: SubscriberView| !gone(y.id)), mid[k]),
    decreases before.len(),
{
    let is_x = |y: SubscriberView| y.id == x.id;
    let stays = |y: SubscriberView| !gone(y.id);
    reveal(Seq::filter);
    let n = before.len() - 1;
    if before.len() == 0 {
        assert(before.filter(is_x).len() == 0);
        assert(false);
    }
    let before0 = before.drop_last();
    let mid0 = mid.drop_last();
    let ds0 = ds.drop_last();
    assert forall|i: int| 0 <= i < before0.len() implies drained(
        m,
        before0[i],
        #[trigger] mid0[i],
        ds0[i],
    ) by {
        assert(mid0[i] == mid[i]);
    }
    assert(drained(m, before[n], mid[n], ds[n]));
    if before.last().id == x.id {
        assert(before.filter(is_x) == before0.filter(is_x).push(before.last()));
        assert(before0.filter(is_x).len() == 0);
        assert(before.filter(is_x)[0] == x);
        lemma_none_are_drained(m, before0, mid0, ds0, x.id, gone);
        let rest = mid0.filter(stays);
        assert(mid.filter(stays) == rest.push(mid.last()));
        assert(rest.push(mid.last()).drop_last() =~= rest);
        let is_y = |y: SubscriberView| y.id == mid[n].id;
        assert(is_y =~= is_x);
        assert(mid.filter(stays).filter(is_y) =~= seq![mid[n]]);
        n
    } else {
        assert(before.filter(is_x) == before0.filter(is_x));
        let k = lemma_one_is_drained(m, before0, mid0, ds0, x, gone);
        let rest = mid0.filter(stays);
        assert(mid[k] == mid0[k]);
        assert(drained(m, before[k], mid[k], ds[k]));
        let is_y = |y: SubscriberView| y.id == mid[k].id;
        if !gone(mid.last().id) {
            assert(mid.filter(stays) == rest.push(mid.last()));
            assert(rest.push(mid.last()).drop_last() =~= rest);
        }
        assert(mid.filter(stays).filter(is_y) == rest.filter(is_y));
        k
    }
}

proof fn lemma_none_are_drained(
    m: StoreModel,
    before: Seq<SubscriberView>,
    mid: Seq<SubscriberView>,
    ds: Seq<Drained>,
    id: Seq<char>,
    gone: spec_fn(Seq<char>) -> bool,
)
    requires
        mid.len() == before.len(),
        ds.len() == before.len(),
        forall|i: int| 0 <= i < before.len() ==> drained(m, before[i], #[trigger] mid[i], ds[i]),
        before.filter(|y: SubscriberView| y.id == id).len() == 0,
    ensures
        mid.filter(|y: SubscriberView| !gone(y.id)).filter(|y: SubscriberView| y.id == id).len()
            == 0,
    decreases before.len(),
{
    let is_x = |y: SubscriberView| y.id == id;
    let stays = |y: SubscriberView| !gone(y.id);
    reveal(Seq::filter);
    if before.len() > 0 {
        let before0 = before.drop_last();
        let mid0 = mid.drop_last();
        let ds0 = ds.drop_last();
        assert forall|i: int| 0 <= i < before0.len() implies drained(
            m,
            before0[i],
            #[trigger] mid0[i],
            ds0[i],
        ) by {
            assert(mid0[i] == mid[i]);
        }
        assert(drained(m, before[before.len() - 1], mid[before.len() - 1], ds[before.len() - 1]));
        lemma_none_are_drained(m, before0, mid0, ds0, id, gone);
        let rest = mid0.filter(stays);
        if !gone(mid.last().id) {
            assert(mid.filter(stays) == rest.push(mid.last()));
            assert(rest.push(mid.last()).drop_last() =~= rest);
        }
    }
}

/// One step leaves a subscriber in place and served as far as it goes.
proof fn lemma_step(a: Moment, s: Step, b: Moment, first: SubscriberView, x: SubscriberView) -> (y:
    SubscriberView)
    requires
        a.model.wf(),
        leads(a, s, b, first.id),
        alone(a.subscribers, x),
        is_served(a.model, first, x),
    ensures
        alone(b.subscribers, y),
        is_served(b.model, first, y),
        s is Pass ==> y.cursor >= b.model.sequence,
{
    match s {
        Step::Changed => {
            lemma_served_after_change(a.model, b.model, first, x);
            x
        },
        Step::Pass { mid, ds, count } => {
            let gone = |id: Seq<char>| is_dead(mid, ds, id);
            let k = lemma_one_is_drained(a.model, a.subscribers, mid, ds, x, gone);
            let stays = |y: SubscriberView| !gone(y.id);
            let alive = |y: SubscriberView| !is_dead(mid, ds, y.id);
            assert(stays =~= alive);
            assert(drained(a.model, a.subscribers[k], mid[k], ds[k]));
            lemma_served_after_drain(a.model, first, x, mid[k], ds[k]);
            mid[k]
        },
    }
}

/// Over a whole run a subscriber whose name no other uses, whose receiver is
/// kept, and whose passes reach the end of the log, stays in place and is served
/// as far as the passes went.
proof fn lemma_run(
    moments: Seq<Moment>,
    steps: Seq<Step>,
    first: SubscriberView,
) -> (x: SubscriberView)
    requires
        is_run(moments, steps, first.id),
        alone(moments[0].subscribers, first),
        first.sent.len() == 0,
    ensures
        alone(moments.last().subscribers, x),
        is_served(moments.last().model, first, x),
        steps.len() > 0 && steps.last() is Pass ==> x.cursor >= moments.last().model.sequence,
    decreases steps.len(),
{
    if steps.len() == 0 {
        assert(wanted(moments[0].model, first.filter, first.cursor, first.cursor).len() == 0);
        first
    } else {
        let m0 = moments.drop_last();
        let s0 = steps.drop_last();
        assert forall|i: int| #![trigger s0[i]] 0 <= i < s0.len() implies leads(
            m0[i],
            s0[i],
            m0[i + 1],
            first.id,
        ) by {
            assert(s0[i] == steps[i]);
        }
        assert forall|i: int| 0 <= i < m0.len() implies (#[trigger] m0[i]).model.wf() by {
            assert(m0[i] == moments[i]);
        }
        let x = lemma_run(m0, s0, first);
        let n = steps.len() - 1;
        assert(leads(moments[n], steps[n], moments[n + 1], first.id));
        assert(moments[n].model.wf());
        lemma_step(moments[n], steps[n], moments[n + 1], first, x)
    }
}

/// Over any run of changes to the store and passes that ends with a pass, a
/// subscriber receives exactly the transitions after its cursor that it wants:
/// each once, in the order of their numbers, with all that is logged of it. Its
/// name is used by no other, its receiver is kept, and the store gives each pass
/// the log.
pub proof fn law_a_run_delivers_everything_once(
    moments: Seq<Moment>,
    steps: Seq<Step>,
    first: SubscriberView,
)
    requires
        is_run(moments, steps, first.id),
        alone(moments[0].subscribers, first),
        first.sent.len() == 0,
        steps.len() > 0,
        steps.last() is Pass,
    ensures
        exists|x: SubscriberView| #[trigger]
            alone(moments.last().subscribers, x) && {
                let m = moments.last().model;
                let numbers = wanted(m, first.filter, first.cursor, m.sequence);
                &&& x.id == first.id
                &&& x.channel == first.channel
                &&& relates_all(m, first.filter, first.cursor, m.sequence, x.sent)
                &&& forall|i: int, j: int| 0 <= i < j < numbers.len() ==> numbers[i] < numbers[j]
                &&& forall|n: u64| #[trigger]
                    numbers.contains(n) <==> first.cursor < n <= m.sequence && first.filter.wants(
                        m.log[n],
                    )
            },
{
    let x = lemma_run(moments, steps, first);
    let m = moments.last().model;
    law_delivery_is_ordered_and_complete(m, first.filter, first.cursor, m.sequence);
    assert(wanted(m, first.filter, first.cursor, x.cursor) == wanted(
        m,
        first.filter,
        first.cursor,
        m.sequence,
    ));
    assert(alone(moments.last().subscribers, x));
}

/// A pass reaches the end of the log for every subscriber whose channel takes what
/// is sent, unless the store fails to give the log.
pub proof fn law_a_pass_reaches_the_end<S: StorageEngine>(
    storage: S,
    before: Seq<SubscriberView>,
    mid: Seq<SubscriberView>,
    ds: Seq<Drained>,
    i: int,
)
    requires
        all_served(storage, before, mid, ds),
        mid.len() == before.len(),
        0 <= i < mid.len(),
        !found_gone(&storage, mid[i]),
        !log_failed(&storage, mid[i].cursor),
    ensures
        ds[i].complete,
        !ds[i].dead,
{
    assert(served_by(&storage, before[i], mid[i], ds[i]));
}

/// A new subscriber whose name no other uses is the only one of that name, and
/// nothing was sent to it.
pub proof fn law_a_new_subscriber_stands_alone(
    s: Seq<SubscriberView>,
    x: SubscriberView,
    limit: usize,
)
    requires
        limit > 0,
        forall|i: int| 0 <= i < s.len() ==> (#[trigger] s[i]).id != x.id,
    ensures
        alone(newest(s.push(x), limit), x),
{
    let all = newest(s.push(x), limit);
    let is_x = |y: SubscriberView| y.id == x.id;
    reveal(Seq::filter);
    assert(all.last() == x);
    let rest = all.drop_last();
    assert forall|i: int| 0 <= i < rest.len() implies (#[trigger] rest[i]).id != x.id by {
        let from = s.len() + 1 - all.len();
        assert(rest[i] == s[from + i]);
    }
    lemma_none_of_that_name(rest, x.id);
    assert(all.filter(is_x) =~= seq![x]);
}

proof fn lemma_none_of_that_name(s: Seq<SubscriberView>, id: Seq<char>)
    requires
        forall|i: int| 0 <= i < s.len() ==> (#[trigger] s[i]).id != id,
    ensures
        s.filter(|y: SubscriberView| y.id == id).len() == 0,
    decreases s.len(),
{
    reveal(Seq::filter);
    if s.len() > 0 {
        lemma_none_of_that_name(s.drop_last(), id);
        assert(s.last() == s[s.len() - 1]);
    }
}

/// How many records were sent to subscribers between two moments.
pub open spec fn sent_between(before: Seq<SubscriberView>, after: Seq<SubscriberView>) -> int
    decreases before.len(),
{
    if before.len() == 0 {
        0
    } else {
        sent_between(before.drop_last(), after.drop_last()) + after.last().sent.len()
            - before.last().sent.len()
    }
}

/// A pass returns how many records it sent over all subscribers.
pub proof fn law_a_pass_counts_what_it_sends(
    m: StoreModel,
    before: Seq<SubscriberView>,
    after: Seq<SubscriberView>,
    mid: Seq<SubscriberView>,
    ds: Seq<Drained>,
    count: usize,
)
    requires
        passed(m, before, after, mid, ds, count),
        sent_between(before, mid) <= usize::MAX,
    ensures
        count == sent_between(before, mid),
{
    lemma_total_is_sent(m, before, mid, ds);
}

pub(crate) proof fn lemma_total_is_sent(
    m: StoreModel,
    before: Seq<SubscriberView>,
    mid: Seq<SubscriberView>,
    ds: Seq<Drained>,
)
    requires
        mid.len() == before.len(),
        ds.len() == before.len(),
        forall|i: int| 0 <= i < before.len() ==> drained(m, before[i], #[trigger] mid[i], ds[i]),
    ensures
        total(ds) == sent_between(before, mid),
    decreases before.len(),
{
    if before.len() > 0 {
        let before0 = before.drop_last();
        let mid0 = mid.drop_last();
        let ds0 = ds.drop_last();
        assert forall|i: int| 0 <= i < before0.len() implies drained(
            m,
            before0[i],
            #[trigger] mid0[i],
            ds0[i],
        ) by {
            assert(mid0[i] == mid[i]);
        }
        lemma_total_is_sent(m, before0, mid0, ds0);
        assert(drained(m, before[before.len() - 1], mid[before.len() - 1], ds[before.len() - 1]));
    }
}

} // verus!
