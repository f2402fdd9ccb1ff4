//! What the frames of a client that asks or follows come to, in terms of the fields
//! of their bodies, of what is stored and of what is answered.
use crate::engine::engine::{without, Engine};
use crate::engine::error::EngineErrorView;
use crate::engine::outcome::entity_failed;
use crate::engine::stream::{channel_to, SubscriberView};
use crate::fsm::record::EntityState;
use crate::json::{json_view, Json};
use crate::proto::body::{holds, law_bytes_that_hold_an_object_read_as_it};
use crate::proto::fields::lemma_uint_of;
use crate::proto::frame::{held, Frame, FrameTag};
use crate::proto::messages::{AckMessage, CurrentMessage, SubscribeMessage, UnsubscribeMessage};
use crate::proto::records::entity_json;
use crate::storage::engine::{entity_label, StorageEngine};
use crate::storage::error::{StorageError, StorageErrorView};
use crate::storage::model::entity_key;
use crate::text::texts;
use crate::wire::commands::fault_answered;
use crate::wire::reply::Answer;
use crate::wire::server::{handle_frame, Reply};
use crate::wire::session::Session;
use crate::wire::shapes::{
    law_entity_shape, law_error_body_shape, law_rejection_body_shape, law_result_body_shape,
};
use crate::wire::streams::{subscription_json, unsubscription_json, without_subscription};
use vstd::prelude::*;

verus! {

/// What stays of the names where one leaves.
proof fn lemma_the_others(ids: Seq<Seq<char>>, id: Seq<char>)
    ensures
        without_subscription(ids, id) == ids.filter(|x: Seq<char>| x != id),
    decreases ids.len(),
{
    reveal(Seq::filter);
    if ids.len() > 0 {
        lemma_the_others(ids.drop_last(), id);
    }
}

/// A `Current` frame is answered with the state and the version of the entity as
/// they are stored, or with the news that there is no such entity. Only where the
/// store failed to give it is there neither.
pub proof fn law_states_are_told_as_stored<
    S: StorageEngine,
    G: Fn(&EntityState, &serde_json::Value) -> bool,
>(
    e: &mut Engine<S, G>,
    after: Engine<S, G>,
    s: &mut Session,
    frame: Frame,
    body: Map<Seq<char>, Json>,
    r: Reply,
    request_id: u64,
    entity_id: Seq<char>,
    machine: Seq<char>,
)
    requires
        old(e).wf(),
        call_ensures(handle_frame::<S, G>, (e, s, frame), r),
        after == *final(e),
        frame.tag == FrameTag::Current,
        holds(held(frame.body), body),
        body.contains_key("request_id"@) && body["request_id"@] == Json::uint(request_id as nat),
        body.contains_key("entity_id"@) && body["entity_id"@] == Json::Text(entity_id),
        body.contains_key("machine"@) && body["machine"@] == Json::Text(machine),
    ensures
        ({
            let m = old(e).model();
            let key = entity_key(entity_id, machine);
            &&& after.model() == m
            &&& !r.close
            &&& r.answer matches Some(Answer::Say { tag, body: said })
            &&& json_view(said).member("request_id"@) == Some(Json::uint(request_id as nat))
            &&& ({
                ||| tag == FrameTag::Result && m.entities.contains_key(key) && {
                    let x = m.entities[key];
                    &&& json_view(said).member("payload"@) matches Some(p)
                    &&& p.member("entity_id"@) == Some(Json::Text(x.entity_id))
                    &&& p.member("machine"@) == Some(Json::Text(x.machine))
                    &&& p.member("state"@) == Some(Json::Text(x.current_state))
                    &&& p.member("version"@) == Some(Json::uint(x.version as nat))
                }
                ||| tag == FrameTag::Rejection && !m.entities.contains_key(key) && json_view(
                    said,
                ).member("code"@) == Some(Json::Text("unknown_entity"@))
                ||| tag == FrameTag::Rejection && json_view(said).member("code"@) == Some(
                    Json::Text("internal_error"@),
                ) && exists|i: &str, n: &str, f: StorageError|
                    i@ == entity_id && n@ == machine && #[trigger] call_ensures(
                        S::get_entity_state,
                        (&old(e).store(), i, n),
                        Err::<EntityState, StorageError>(f),
                    )
            })
        }),
{
    let j = Json::Object(body);
    law_bytes_that_hold_an_object_read_as_it(held(frame.body), body, CurrentMessage::fields());
    broadcast use lemma_uint_of;

    assert(CurrentMessage::readable(j));
    let m = old(e).model();
    let key = entity_key(entity_id, machine);
    let a = r.answer->0;
    law_entity_shape(m.entities[key]);
    law_result_body_shape(request_id, entity_json(m.entities[key]));
    let missing = EngineErrorView::Storage(
        StorageErrorView::NotFound(entity_label(entity_id, machine)),
    ).message();
    law_rejection_body_shape(request_id, "unknown_entity"@, missing, None, None);
    if exists|x: StorageErrorView| #[trigger]
        entity_failed(&old(e).store(), entity_id, machine, x) && fault_answered(a, request_id, x) {
        let x = choose|x: StorageErrorView| #[trigger]
            entity_failed(&old(e).store(), entity_id, machine, x) && fault_answered(
                a,
                request_id,
                x,
            );
        law_rejection_body_shape(
            request_id,
            "internal_error"@,
            EngineErrorView::Storage(x).message(),
            None,
            None,
        );
    }
}

/// A `Subscribe` frame begins a subscription of the client under the name it chose:
/// with the filters and from the number that the body names, through the stream that
/// is handed out. It takes the place of one of the same name, and of the oldest where
/// there is room for no more; the others stay.
pub proof fn law_subscribing_follows_the_body<
    S: StorageEngine,
    G: Fn(&EntityState, &serde_json::Value) -> bool,
>(
    e: &mut Engine<S, G>,
    after: Engine<S, G>,
    s: &mut Session,
    known: Session,
    frame: Frame,
    body: Map<Seq<char>, Json>,
    r: Reply,
    request_id: u64,
    subscription_id: Seq<char>,
    machine_filter: Option<Seq<char>>,
    entity_filter: Option<Seq<char>>,
    after_sequence: u64,
)
    requires
        old(e).wf(),
        call_ensures(handle_frame::<S, G>, (e, s, frame), r),
        after == *final(e),
        frame.tag == FrameTag::Subscribe,
        holds(held(frame.body), body),
        known == *final(s),
        old(e).subscriber_limit() > 0,
        body.contains_key("request_id"@) && body["request_id"@] == Json::uint(request_id as nat),
        body.contains_key("subscription_id"@)
            && body["subscription_id"@] == Json::Text(subscription_id),
        match machine_filter {
            Some(t) => if body.contains_key("filter_machine"@) {
                body["filter_machine"@] == Json::Text(t)
            } else {
                body.contains_key("machine_filter"@) && body["machine_filter"@] == Json::Text(t)
            },
            None => !body.contains_key("filter_machine"@) && !body.contains_key("machine_filter"@),
        },
        match entity_filter {
            Some(t) => body.contains_key("filter_entity"@)
                && body["filter_entity"@] == Json::Text(t),
            None => !body.contains_key("filter_entity"@) || body["filter_entity"@] is Null,
        },
        body.contains_key("after_sequence"@)
            && body["after_sequence"@] == Json::uint(after_sequence as nat),
    ensures
        ({
            let name = old(s).id@ + "/"@ + subscription_id;
            let kept = old(e).subscribed().filter(|x: SubscriberView| x.id != name);
            let t = after.subscribed();
            let new = t.last();
            &&& after.model() == old(e).model()
            &&& t.len() > 0
            &&& new.id == name && new.cursor == after_sequence && new.sent.len() == 0
            &&& new.filter.machine == machine_filter && new.filter.entity == entity_filter
            &&& r.stream is Some && new.channel == channel_to(r.stream->0.records)
            &&& r.stream->0.subscription_id@ == subscription_id
            &&& t.len() == (if kept.len() < old(e).subscriber_limit() {
                kept.len() + 1
            } else {
                old(e).subscriber_limit() as nat
            })
            &&& forall|i: int|
                1 <= i < t.len() ==> #[trigger] t[t.len() - 1 - i] == kept[kept.len() - i]
            &&& known.id@ == old(s).id@
            &&& texts(known.subscriptions@).contains(subscription_id)
            &&& forall|x: Seq<char>|
                x != subscription_id ==> #[trigger] texts(known.subscriptions@).contains(x)
                    == texts(old(s).subscriptions@).contains(x)
            &&& !r.close
            &&& r.answer matches Some(Answer::Say { tag, body: said })
            &&& tag == FrameTag::Result
            &&& json_view(said).member("request_id"@) == Some(Json::uint(request_id as nat))
            &&& json_view(said).member("payload"@) matches Some(p)
            &&& p.member("subscription_id"@) == Some(Json::Text(subscription_id))
            &&& p.member("cursor"@) == Some(Json::uint(after_sequence as nat))
        }),
{
    let j = Json::Object(body);
    law_bytes_that_hold_an_object_read_as_it(held(frame.body), body, SubscribeMessage::fields());
    broadcast use lemma_uint_of;

    assert(SubscribeMessage::readable(j));
    lemma_uint_of(request_id);
    lemma_uint_of(after_sequence);
    law_result_body_shape(request_id, subscription_json(subscription_id, after_sequence));
    reveal_strlit("subscription_id");
    reveal_strlit("cursor");
    assert("subscription_id"@.len() == 15 && "cursor"@.len() == 6);
    let name = old(s).id@ + "/"@ + subscription_id;
    let kept = old(e).subscribed().filter(|x: SubscriberView| x.id != name);
    assert(kept == without(old(e).subscribed(), name));
    let ids = texts(old(s).subscriptions@);
    if !ids.contains(subscription_id) {
        assert(ids.push(subscription_id)[ids.len() as int] == subscription_id);
        assert forall|x: Seq<char>| x != subscription_id implies #[trigger] ids.push(
            subscription_id,
        ).contains(x) == ids.contains(x) by {
            if ids.contains(x) {
                let i = ids.index_of(x);
                assert(ids.push(subscription_id)[i] == x);
            }
        }
    }
}

/// An `Ack` frame is not answered. The cursor of the subscription that it names
/// moves to the number that it names, but never back; those of other subscriptions,
/// and of other clients, stay.
pub proof fn law_acknowledging_follows_the_body<
    S: StorageEngine,
    G: Fn(&EntityState, &serde_json::Value) -> bool,
>(
    e: &mut Engine<S, G>,
    after: Engine<S, G>,
    s: &mut Session,
    frame: Frame,
    body: Map<Seq<char>, Json>,
    r: Reply,
    subscription_id: Seq<char>,
    up_to_sequence: u64,
    i: int,
)
    requires
        old(e).wf(),
        call_ensures(handle_frame::<S, G>, (e, s, frame), r),
        after == *final(e),
        frame.tag == FrameTag::Ack,
        holds(held(frame.body), body),
        body.contains_key("subscription_id"@)
            && body["subscription_id"@] == Json::Text(subscription_id),
        body.contains_key("up_to_sequence"@)
            && body["up_to_sequence"@] == Json::uint(up_to_sequence as nat),
        0 <= i < old(e).subscribed().len(),
    ensures
        ({
            let name = old(s).id@ + "/"@ + subscription_id;
            let x = old(e).subscribed()[i];
            let y = after.subscribed()[i];
            &&& after.model() == old(e).model()
            &&& after.subscribed().len() == old(e).subscribed().len()
            &&& y.id == x.id && y.filter == x.filter && y.channel == x.channel && y.sent == x.sent
            &&& x.id != name ==> y.cursor == x.cursor
            &&& x.id == name ==> y.cursor == (if up_to_sequence > x.cursor {
                up_to_sequence
            } else {
                x.cursor
            })
            &&& r.answer is None && r.stream is None && !r.close
        }),
{
    let j = Json::Object(body);
    law_bytes_that_hold_an_object_read_as_it(held(frame.body), body, AckMessage::fields());
    broadcast use lemma_uint_of;

    assert(AckMessage::readable(j));
    lemma_uint_of(up_to_sequence);
}

/// An `Unsubscribe` frame ends the subscription of the client that it names, and no
/// other.
pub proof fn law_unsubscribing_follows_the_body<
    S: StorageEngine,
    G: Fn(&EntityState, &serde_json::Value) -> bool,
>(
    e: &mut Engine<S, G>,
    after: Engine<S, G>,
    s: &mut Session,
    known: Session,
    frame: Frame,
    body: Map<Seq<char>, Json>,
    r: Reply,
    request_id: u64,
    subscription_id: Seq<char>,
)
    requires
        old(e).wf(),
        call_ensures(handle_frame::<S, G>, (e, s, frame), r),
        after == *final(e),
        frame.tag == FrameTag::Unsubscribe,
        holds(held(frame.body), body),
        known == *final(s),
        body.contains_key("request_id"@) && body["request_id"@] == Json::uint(request_id as nat),
        body.contains_key("subscription_id"@)
            && body["subscription_id"@] == Json::Text(subscription_id),
    ensures
        ({
            let name = old(s).id@ + "/"@ + subscription_id;
            &&& after.model() == old(e).model()
            &&& after.subscribed() == old(e).subscribed().filter(|x: SubscriberView| x.id != name)
            &&& known.id@ == old(s).id@
            &&& texts(known.subscriptions@) == texts(old(s).subscriptions@).filter(
                |x: Seq<char>| x != subscription_id,
            )
            &&& r.stream is None && !r.close
            &&& r.answer matches Some(Answer::Say { tag, body: said })
            &&& tag == FrameTag::Result
            &&& json_view(said).member("request_id"@) == Some(Json::uint(request_id as nat))
            &&& json_view(said).member("payload"@) matches Some(p)
            &&& p.member("subscription_id"@) == Some(Json::Text(subscription_id))
        }),
{
    let j = Json::Object(body);
    law_bytes_that_hold_an_object_read_as_it(held(frame.body), body, UnsubscribeMessage::fields());
    broadcast use lemma_uint_of;

    assert(UnsubscribeMessage::readable(j));
    lemma_uint_of(request_id);
    law_result_body_shape(request_id, unsubscription_json(subscription_id));
    let name = old(s).id@ + "/"@ + subscription_id;
    assert(old(e).subscribed().filter(|x: SubscriberView| x.id != name) == without(
        old(e).subscribed(),
        name,
    ));
    let ids = texts(old(s).subscriptions@);
    lemma_the_others(ids, subscription_id);
}

/// A `Ping` frame comes back as it was sent; a `Terminate` frame closes the
/// connection without a word; any other frame that is no command closes it with an
/// error. None of them changes anything.
pub proof fn law_other_frames_change_nothing<
    S: StorageEngine,
    G: Fn(&EntityState, &serde_json::Value) -> bool,
>(
    e: &mut Engine<S, G>,
    after: Engine<S, G>,
    s: &mut Session,
    known: Session,
    frame: Frame,
    r: Reply,
)
    requires
        old(e).wf(),
        call_ensures(handle_frame::<S, G>, (e, s, frame), r),
        after == *final(e),
        known == *final(s),
        frame.tag != FrameTag::DefineMachine,
        frame.tag != FrameTag::Transition,
        frame.tag != FrameTag::Current,
        frame.tag != FrameTag::History,
        frame.tag != FrameTag::Subscribe,
        frame.tag != FrameTag::Ack,
        frame.tag != FrameTag::Unsubscribe,
    ensures
        after == *old(e) && known == *old(s) && r.stream is None,
        frame.tag == FrameTag::Ping ==> !r.close && r.answer == Some(Answer::Echo(frame.body)),
        frame.tag == FrameTag::Terminate ==> r.close && r.answer is None,
        frame.tag != FrameTag::Ping && frame.tag != FrameTag::Terminate ==> r.close && (
        r.answer matches Some(Answer::Say { tag, body: said }) && tag == FrameTag::Error
            && json_view(said).member("code"@) == Some(Json::Text("protocol_error"@))),
{
    law_error_body_shape("protocol_error"@, "unexpected frame "@ + frame.tag.named());
}

} // verus!
