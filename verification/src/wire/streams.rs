//! Subscriptions of a client, and how requests about them are answered.
use crate::engine::engine::{acknowledged, newest, without, Engine};
use crate::engine::stream::{channel_to, FilterView, SubscriberView};
use crate::fsm::record::{ChangeRecord, EntityState};
use crate::json::{object, put_member, text_value, uint_value, Json};
use crate::proto::codec::body_fault;
use crate::proto::fields::{either_text_field, opt_text_field, text_field, uint_field};
use crate::proto::frame::{Frame, FrameTag};
use crate::proto::messages::{AckMessage, SubscribeMessage, UnsubscribeMessage};
use crate::storage::engine::StorageEngine;
use crate::text::texts;
use crate::wire::commands::{body_of, is_bad_request, reject_body, request_of};
use crate::wire::reply::{make_result, result_body, says, Answer};
use crate::wire::session::{stream_name, Session};
use vstd::prelude::*;

verus! {

/// The records of a subscription, as they come.
#[derive(Debug)]
pub struct Stream {
    /// The subscription, by the name that the client gave it.
    pub subscription_id: String,
    /// Where its records come out.
    pub records: tokio::sync::mpsc::UnboundedReceiver<ChangeRecord>,
}

/// The reply to a subscription.
pub open spec fn subscription_json(id: Seq<char>, cursor: u64) -> Json {
    Json::Object(
        Map::empty().insert("subscription_id"@, Json::Text(id)).insert(
            "cursor"@,
            Json::uint(cursor as nat),
        ),
    )
}

/// The reply to the end of a subscription.
pub open spec fn unsubscription_json(id: Seq<char>) -> Json {
    Json::Object(Map::empty().insert("subscription_id"@, Json::Text(id)))
}

/// Subscriptions with one more, where it is not among them.
pub open spec fn with_subscription(ids: Seq<Seq<char>>, id: Seq<char>) -> Seq<Seq<char>> {
    if ids.contains(id) {
        ids
    } else {
        ids.push(id)
    }
}

/// Subscriptions without one.
pub open spec fn without_subscription(ids: Seq<Seq<char>>, id: Seq<char>) -> Seq<Seq<char>> {
    ids.filter(|s: Seq<char>| s != id)
}

/// The subscriber that a body asks for, served through the given channel.
pub open spec fn subscriber_asked(session_id: Seq<char>, j: Json, channel: int) -> SubscriberView {
    SubscriberView {
        id: stream_name(session_id, text_field(j, "subscription_id"@)->0),
        filter: FilterView {
            machine: either_text_field(j, "filter_machine"@, "machine_filter"@)->0,
            entity: opt_text_field(j, "filter_entity"@)->0,
        },
        cursor: uint_field(j, "after_sequence"@)->0,
        channel,
        sent: Seq::empty(),
    }
}

/// What a `Subscribe` frame does to the subscribers and to the session: one of
/// the same name gives way to the new one, whose records come out of the stream.
pub open spec fn subscribe_replied(
    subscribed: Seq<SubscriberView>,
    after: Seq<SubscriberView>,
    limit: usize,
    session: Session,
    session_after: Session,
    frame: Frame,
    a: Answer,
    stream: Option<Stream>,
) -> bool {
    let body = body_of(frame, SubscribeMessage::fields());
    if body is None || !SubscribeMessage::readable(body->0) {
        &&& after == subscribed
        &&& session_after == session
        &&& is_bad_request(a, frame, body_fault(body, "malformed Subscribe body"@))
        &&& stream is None
    } else {
        let id = text_field(body->0, "subscription_id"@)->0;
        let subscriber = subscriber_asked(
            session.id@,
            body->0,
            channel_to(stream->0.records),
        );
        &&& after == newest(without(subscribed, subscriber.id).push(subscriber), limit)
        &&& texts(session_after.subscriptions@) == with_subscription(
            texts(session.subscriptions@),
            id,
        )
        &&& says(
            a,
            FrameTag::Result,
            result_body(request_of(body), subscription_json(id, subscriber.cursor)),
        )
        &&& stream is Some
        &&& stream->0.subscription_id@ == id
    }
}

/// Begins a subscription.
pub fn on_subscribe<S: StorageEngine, G: Fn(&EntityState, &serde_json::Value) -> bool>(
    engine: &mut Engine<S, G>,
    session: &mut Session,
    frame: &Frame,
) -> (r: (Answer, Option<Stream>))
    requires
        old(engine).wf(),
    ensures
        final(engine).wf(),
        final(engine).same_but_subscribers(old(engine)),
        final(session).same_client(*old(session)),
        subscribe_replied(
            old(engine).subscribed(),
            final(engine).subscribed(),
            old(engine).subscriber_limit(),
            *old(session),
            *final(session),
            *frame,
            r.0,
            r.1,
        ),
{
    let msg = match SubscribeMessage::from_frame(frame) {
        Err(e) => {
            return (reject_body(frame, &e), None);
        },
        Ok(msg) => msg,
    };
    let name = session.stream_name_of(msg.subscription_id.as_str());
    engine.unsubscribe(name.as_str());
    let records = engine.enroll(
        name,
        msg.machine_filter,
        msg.entity_filter,
        msg.after_sequence,
    );
    session.remember(msg.subscription_id.as_str());
    let mut payload = object();
    put_member(&mut payload, "subscription_id", text_value(msg.subscription_id.as_str()));
    put_member(&mut payload, "cursor", uint_value(msg.after_sequence));
    (
        make_result(msg.request_id, payload),
        Some(Stream { subscription_id: msg.subscription_id, records }),
    )
}

/// What an `Ack` frame does to the subscribers. It is not answered, unless it
/// cannot be read.
pub open spec fn ack_replied(
    subscribed: Seq<SubscriberView>,
    after: Seq<SubscriberView>,
    session_id: Seq<char>,
    frame: Frame,
    a: Option<Answer>,
) -> bool {
    let body = body_of(frame, AckMessage::fields());
    if body is None || !AckMessage::readable(body->0) {
        after == subscribed && a is Some && is_bad_request(
            a->0,
            frame,
            body_fault(body, "malformed Ack body"@),
        )
    } else {
        &&& after == acknowledged(
            subscribed,
            stream_name(session_id, text_field(body->0, "subscription_id"@)->0),
            uint_field(body->0, "up_to_sequence"@)->0,
        )
        &&& a is None
    }
}

/// Moves the cursor of a subscription on.
pub fn on_ack<S: StorageEngine, G: Fn(&EntityState, &serde_json::Value) -> bool>(
    engine: &mut Engine<S, G>,
    session: &Session,
    frame: &Frame,
) -> (a: Option<Answer>)
    requires
        old(engine).wf(),
    ensures
        final(engine).wf(),
        final(engine).same_but_subscribers(old(engine)),
        ack_replied(old(engine).subscribed(), final(engine).subscribed(), session.id@, *frame, a),
{
    match AckMessage::from_frame(frame) {
        Err(e) => Some(reject_body(frame, &e)),
        Ok(msg) => {
            let name = session.stream_name_of(msg.subscription_id.as_str());
            engine.acknowledge(name.as_str(), msg.up_to_sequence);
            None
        },
    }
}

/// What an `Unsubscribe` frame does to the subscribers and to the session.
pub open spec fn unsubscribe_replied(
    subscribed: Seq<SubscriberView>,
    after: Seq<SubscriberView>,
    session: Session,
    session_after: Session,
    frame: Frame,
    a: Answer,
) -> bool {
    let body = body_of(frame, UnsubscribeMessage::fields());
    if body is None || !UnsubscribeMessage::readable(body->0) {
        &&& after == subscribed
        &&& session_after == session
        &&& is_bad_request(a, frame, body_fault(body, "malformed Unsubscribe body"@))
    } else {
        let id = text_field(body->0, "subscription_id"@)->0;
        &&& after == without(subscribed, stream_name(session.id@, id))
        &&& texts(session_after.subscriptions@) == without_subscription(
            texts(session.subscriptions@),
            id,
        )
        &&& says(a, FrameTag::Result, result_body(request_of(body), unsubscription_json(id)))
    }
}

/// Ends a subscription.
pub fn on_unsubscribe<S: StorageEngine, G: Fn(&EntityState, &serde_json::Value) -> bool>(
    engine: &mut Engine<S, G>,
    session: &mut Session,
    frame: &Frame,
) -> (a: Answer)
    requires
        old(engine).wf(),
    ensures
        final(engine).wf(),
        final(engine).same_but_subscribers(old(engine)),
        final(session).same_client(*old(session)),
        unsubscribe_replied(
            old(engine).subscribed(),
            final(engine).subscribed(),
            *old(session),
            *final(session),
            *frame,
            a,
        ),
{
    match UnsubscribeMessage::from_frame(frame) {
        Err(e) => reject_body(frame, &e),
        Ok(msg) => {
            let name = session.stream_name_of(msg.subscription_id.as_str());
            engine.unsubscribe(name.as_str());
            session.forget(msg.subscription_id.as_str());
            let mut payload = object();
            put_member(
                &mut payload,
                "subscription_id",
                text_value(msg.subscription_id.as_str()),
            );
            make_result(msg.request_id, payload)
        },
    }
}

/// Subscribers without those of a session.
pub open spec fn without_session(
    s: Seq<SubscriberView>,
    session_id: Seq<char>,
    ids: Seq<Seq<char>>,
) -> Seq<SubscriberView>
    decreases ids.len(),
{
    if ids.len() == 0 {
        s
    } else {
        without(
            without_session(s, session_id, ids.drop_last()),
            stream_name(session_id, ids.last()),
        )
    }
}

/// Ends a session: its subscriptions end with it.
pub fn close_session<S: StorageEngine, G: Fn(&EntityState, &serde_json::Value) -> bool>(
    engine: &mut Engine<S, G>,
    session: &Session,
)
    requires
        old(engine).wf(),
    ensures
        final(engine).wf(),
        final(engine).same_but_subscribers(old(engine)),
        final(engine).subscribed() == without_session(
            old(engine).subscribed(),
            session.id@,
            texts(session.subscriptions@),
        ),
{
    let ghost s0 = engine.subscribed();
    let ghost ids = texts(session.subscriptions@);
    let mut i: usize = 0;
    assert(ids.take(0) =~= Seq::<Seq<char>>::empty());
    while i < session.subscriptions.len()
        invariant
            i <= session.subscriptions@.len(),
            engine.wf(),
            engine.same_but_subscribers(old(engine)),
            ids == texts(session.subscriptions@),
            engine.subscribed() == without_session(s0, session.id@, ids.take(i as int)),
        decreases session.subscriptions@.len() - i,
    {
        assert(ids[i as int] == session.subscriptions@[i as int]@);
        assert(ids.take(i + 1).drop_last() =~= ids.take(i as int));
        let name = session.stream_name_of(session.subscriptions[i].as_str());
        engine.unsubscribe(name.as_str());
        i = i + 1;
    }
    assert(ids.take(i as int) =~= ids);
}

/// A session that ends takes all of its subscriptions with it, and no other.
pub proof fn law_closing_ends_own_subscriptions(
    s: Seq<SubscriberView>,
    session_id: Seq<char>,
    ids: Seq<Seq<char>>,
    x: SubscriberView,
)
    ensures
        without_session(s, session_id, ids).contains(x) <==> s.contains(x) && forall|i: int|
            #![trigger ids[i]]
            0 <= i < ids.len() ==> x.id != stream_name(session_id, ids[i]),
    decreases ids.len(),
{
    broadcast use vstd::seq_lib::group_filter_ensures;

    if ids.len() > 0 {
        let front = ids.drop_last();
        law_closing_ends_own_subscriptions(s, session_id, front, x);
        let before = without_session(s, session_id, front);
        let name = stream_name(session_id, ids.last());
        let keeps = |y: SubscriberView| y.id != name;
        assert(without(before, name) == before.filter(keeps));
        if before.contains(x) && x.id != name {
            let k = choose|k: int| 0 <= k < before.len() && before[k] == x;
            assert(keeps(before[k]));
            assert(before.filter(keeps).contains(before[k]));
        }
        if before.filter(keeps).contains(x) {
            before.lemma_filter_contains_rev(keeps, x);
            let k = choose|k: int|
                0 <= k < before.filter(keeps).len() && before.filter(keeps)[k] == x;
            assert(keeps(before.filter(keeps)[k]));
        }
        assert forall|i: int| 0 <= i < front.len() implies front[i] == ids[i] by {}
        assert(ids.last() == ids[ids.len() - 1]);
        if forall|i: int|
            #![trigger front[i]]
            0 <= i < front.len() ==> x.id != stream_name(session_id, front[i]) {
            assert forall|i: int| #![trigger ids[i]] 0 <= i < ids.len() - 1 implies x.id
                != stream_name(session_id, ids[i]) by {
                assert(front[i] == ids[i]);
            }
        }
        if forall|i: int|
            #![trigger ids[i]]
            0 <= i < ids.len() ==> x.id != stream_name(session_id, ids[i]) {
            assert forall|i: int| #![trigger front[i]] 0 <= i < front.len() implies x.id
                != stream_name(session_id, front[i]) by {
                assert(front[i] == ids[i]);
            }
        }
    }
}

} // verus!
