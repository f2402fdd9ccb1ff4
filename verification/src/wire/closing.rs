//! How sessions end, and what is answered to what cannot be read.
use crate::engine::engine::Engine;
use crate::engine::stream::SubscriberView;
use crate::fsm::record::EntityState;
use crate::json::{json_view, Json};
use crate::proto::error::ProtoError;
use crate::proto::frame::{Frame, FrameTag};
use crate::proto::messages::{
    AckMessage, CurrentMessage, HistoryMessage, SubscribeMessage, TransitionMessage,
    UnsubscribeMessage,
};
use crate::proto::push::DefineMachineMessage;
use crate::storage::engine::StorageEngine;
use crate::text::texts;
use crate::wire::commands::request_in;
use crate::wire::config::ServerConfig;
use crate::wire::handshake::{auth_timed_out, framing_code, framing_error};
use crate::wire::reply::Answer;
use crate::wire::server::{handle_frame, Reply};
use crate::wire::session::Session;
use crate::wire::shapes::{law_error_body_shape, law_rejection_body_shape};
use crate::wire::streams::{close_session, law_closing_ends_own_subscriptions};
use vstd::prelude::*;

verus! {

/// The subscriptions of a session end with it; those of other sessions stay, and so
/// does all that is stored.
pub proof fn law_subscriptions_end_with_their_session<
    S: StorageEngine,
    G: Fn(&EntityState, &serde_json::Value) -> bool,
>(e: &mut Engine<S, G>, after: Engine<S, G>, session: Session, x: SubscriberView)
    requires
        old(e).wf(),
        after == *final(e),
        call_ensures(close_session::<S, G>, (e, &session), ()),
    ensures
        after.model() == old(e).model(),
        after.subscribed().contains(x) <==> old(e).subscribed().contains(x) && forall|i: int|
            0 <= i < session.subscriptions@.len() ==> x.id != session.id@ + "/"@ + (
            #[trigger] session.subscriptions@[i])@,
{
    let ids = texts(session.subscriptions@);
    law_closing_ends_own_subscriptions(old(e).subscribed(), session.id@, ids, x);
    assert forall|i: int| 0 <= i < ids.len() implies ids[i] == (
    #[trigger] session.subscriptions@[i])@ by {}
    if forall|i: int|
        0 <= i < session.subscriptions@.len() ==> x.id != session.id@ + "/"@ + (
        #[trigger] session.subscriptions@[i])@ {
        assert forall|i: int| 0 <= i < ids.len() implies x.id != session.id@ + "/"@
            + #[trigger] ids[i] by {
            assert(ids[i] == session.subscriptions@[i]@);
        }
    }
}

/// A command whose body cannot be read is rejected as a bad request. Nothing changes,
/// and the session goes on.
pub proof fn law_unreadable_commands_change_nothing<
    S: StorageEngine,
    G: Fn(&EntityState, &serde_json::Value) -> bool,
>(
    e: &mut Engine<S, G>,
    after: Engine<S, G>,
    s: &mut Session,
    known: Session,
    frame: Frame,
    r: Reply,
    fault: ProtoError,
)
    requires
        old(e).wf(),
        call_ensures(handle_frame::<S, G>, (e, s, frame), r),
        after == *final(e),
        known == *final(s),
        ({
            ||| frame.tag == FrameTag::DefineMachine && call_ensures(
                DefineMachineMessage::from_frame,
                (&frame,),
                Err::<DefineMachineMessage, ProtoError>(fault),
            )
            ||| frame.tag == FrameTag::Transition && call_ensures(
                TransitionMessage::from_frame,
                (&frame,),
                Err::<TransitionMessage, ProtoError>(fault),
            )
            ||| frame.tag == FrameTag::Current && call_ensures(
                CurrentMessage::from_frame,
                (&frame,),
                Err::<CurrentMessage, ProtoError>(fault),
            )
            ||| frame.tag == FrameTag::History && call_ensures(
                HistoryMessage::from_frame,
                (&frame,),
                Err::<HistoryMessage, ProtoError>(fault),
            )
            ||| frame.tag == FrameTag::Subscribe && call_ensures(
                SubscribeMessage::from_frame,
                (&frame,),
                Err::<SubscribeMessage, ProtoError>(fault),
            )
            ||| frame.tag == FrameTag::Ack && call_ensures(
                AckMessage::from_frame,
                (&frame,),
                Err::<AckMessage, ProtoError>(fault),
            )
            ||| frame.tag == FrameTag::Unsubscribe && call_ensures(
                UnsubscribeMessage::from_frame,
                (&frame,),
                Err::<UnsubscribeMessage, ProtoError>(fault),
            )
        }),
    ensures
        after.model() == old(e).model() && after.subscribed() == old(e).subscribed(),
        texts(known.subscriptions@) == texts(old(s).subscriptions@) && known.id@ == old(s).id@,
        r.stream is None && !r.close,
        r.answer matches Some(Answer::Say { tag, body: said }) && tag == FrameTag::Rejection
            && json_view(said).member("code"@) == Some(Json::Text("bad_request"@)) && json_view(
            said,
        ).member("message"@) == Some(Json::Text(fault@.message())),
{
    law_rejection_body_shape(
        request_in(frame),
        "bad_request"@,
        fault@.message(),
        None,
        None,
    );
}

/// A frame that says that it is too large is answered with that, any other that is
/// broken with an error of the protocol; a client that does not authenticate in time
/// is told so.
pub proof fn law_broken_connections_are_told_why(e: ProtoError, a: Answer, late: Answer)
    requires
        call_ensures(framing_error, (&e,), a),
        call_ensures(auth_timed_out, (), late),
    ensures
        a matches Answer::Say { tag, body: said } && tag == FrameTag::Error && json_view(
            said,
        ).member("code"@) == Some(
            Json::Text(
                if e is FrameTooLarge {
                    "frame_too_large"@
                } else {
                    "protocol_error"@
                },
            ),
        ),
        late matches Answer::Say { tag, body: said } && tag == FrameTag::Error && json_view(
            said,
        ).member("code"@) == Some(Json::Text("unauthenticated"@)),
{
    law_error_body_shape(framing_code(e@), e@.message());
    law_error_body_shape("unauthenticated"@, "authentication timed out"@);
}

/// A server accepts the tokens that it was given and no other, takes connections up to
/// its limit, and encrypts them only where both a certificate and a key are named.
pub proof fn law_servers_keep_to_their_settings(
    c: ServerConfig,
    token: &str,
    accepted: bool,
    connected: usize,
    admitted: bool,
    files: Option<(&String, &String)>,
)
    requires
        call_ensures(ServerConfig::accepts_token, (&c, token), accepted),
        call_ensures(ServerConfig::admits, (&c, connected), admitted),
        call_ensures(ServerConfig::tls_files, (&c,), files),
    ensures
        accepted <==> exists|i: int|
            0 <= i < c.auth_tokens@.len() && (#[trigger] c.auth_tokens@[i])@ == token@,
        admitted <==> connected < c.max_connections,
        files is Some <==> c.tls_cert_path is Some && c.tls_key_path is Some,
        files matches Some((cert, key)) ==> cert@ == c.tls_cert_path->0@ && key@
            == c.tls_key_path->0@,
{
    let tokens = texts(c.auth_tokens@);
    if tokens.contains(token@) {
        let i = tokens.index_of(token@);
        assert(c.auth_tokens@[i]@ == token@);
    }
    if exists|i: int|
        0 <= i < c.auth_tokens@.len() && (#[trigger] c.auth_tokens@[i])@ == token@ {
        let i = choose|i: int|
            0 <= i < c.auth_tokens@.len() && (#[trigger] c.auth_tokens@[i])@ == token@;
        assert(tokens[i] == token@);
    }
}

} // verus!
