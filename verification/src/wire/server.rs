//! The server's side of an open session: each frame of the client and what
//! comes of it.
use crate::engine::engine::Engine;
use crate::fsm::record::EntityState;
use crate::json::{json_view, Json};
use crate::proto::frame::{Frame, FrameTag};
use crate::storage::engine::StorageEngine;
use crate::wire::commands::{
    current_replied, define_replied, history_replied, on_current, on_define, on_history,
    on_transition, request_in, transition_replied,
};
use crate::wire::reply::{error_body, make_error, rejection_body, result_body, says, Answer};
use crate::wire::session::Session;
use crate::wire::streams::{
    ack_replied, on_ack, on_subscribe, on_unsubscribe, subscribe_replied, unsubscribe_replied,
    Stream,
};
use vstd::prelude::*;

verus! {

/// What comes of a frame.
#[derive(Debug)]
pub struct Reply {
    /// What to send back.
    pub answer: Option<Answer>,
    /// A subscription whose records are to be sent from now on.
    pub stream: Option<Stream>,
    /// Whether the connection is then to be closed.
    pub close: bool,
}

impl Reply {
    /// Whether the reply is an answer and nothing more.
    pub open spec fn is_plain(self) -> bool {
        self.answer is Some && self.stream is None && !self.close
    }
}

/// A reply that is an answer and nothing more.
fn plain(a: Answer) -> (r: Reply)
    ensures
        r.is_plain(),
        r.answer == Some(a),
{
    Reply { answer: Some(a), stream: None, close: false }
}

/// What a frame of an open session does.
pub open spec fn replied<S: StorageEngine, G: Fn(&EntityState, &serde_json::Value) -> bool>(
    e0: Engine<S, G>,
    e1: Engine<S, G>,
    s0: Session,
    s1: Session,
    frame: Frame,
    r: Reply,
) -> bool {
    match frame.tag {
        FrameTag::DefineMachine => {
            &&& e1.same_but_store(&e0)
            &&& s1 == s0
            &&& r.is_plain()
            &&& define_replied(e0.store(), e1.model(), frame, r.answer->0)
        },
        FrameTag::Transition => {
            &&& e1.same_but_store(&e0)
            &&& s1 == s0
            &&& r.is_plain()
            &&& transition_replied(
                e0.store(),
                e1.store(),
                e0.guard_map(),
                e0.stopped(),
                s0.id@,
                frame,
                r.answer->0,
            )
        },
        FrameTag::Current => e1 == e0 && s1 == s0 && r.is_plain() && current_replied(
            e0.store(),
            frame,
            r.answer->0,
        ),
        FrameTag::History => e1 == e0 && s1 == s0 && r.is_plain() && history_replied(
            e0.store(),
            frame,
            r.answer->0,
        ),
        FrameTag::Subscribe => {
            &&& e1.same_but_subscribers(&e0)
            &&& s1.same_client(s0)
            &&& r.answer is Some
            &&& !r.close
            &&& subscribe_replied(
                e0.subscribed(),
                e1.subscribed(),
                e0.subscriber_limit(),
                s0,
                s1,
                frame,
                r.answer->0,
                r.stream,
            )
        },
        FrameTag::Ack => {
            &&& e1.same_but_subscribers(&e0)
            &&& s1 == s0
            &&& r.stream is None
            &&& !r.close
            &&& ack_replied(e0.subscribed(), e1.subscribed(), s0.id@, frame, r.answer)
        },
        FrameTag::Unsubscribe => {
            &&& e1.same_but_subscribers(&e0)
            &&& s1.same_client(s0)
            &&& r.is_plain()
            &&& unsubscribe_replied(e0.subscribed(), e1.subscribed(), s0, s1, frame, r.answer->0)
        },
        FrameTag::Ping => e1 == e0 && s1 == s0 && r.is_plain() && r.answer == Some(
            Answer::Echo(frame.body),
        ),
        FrameTag::Terminate => {
            &&& e1 == e0
            &&& s1 == s0
            &&& r.answer is None
            &&& r.stream is None
            &&& r.close
        },
        _ => {
            &&& e1 == e0
            &&& s1 == s0
            &&& r.stream is None
            &&& r.close
            &&& r.answer is Some
            &&& says(
                r.answer->0,
                FrameTag::Error,
                error_body("protocol_error"@, "unexpected frame "@ + frame.tag.named()),
            )
        },
    }
}

/// Handles a frame of an open session.
pub fn handle_frame<S: StorageEngine, G: Fn(&EntityState, &serde_json::Value) -> bool>(
    engine: &mut Engine<S, G>,
    session: &mut Session,
    frame: Frame,
) -> (r: Reply)
    requires
        old(engine).wf(),
    ensures
        final(engine).wf(),
        replied(*old(engine), *final(engine), *old(session), *final(session), frame, r),
{
    match frame.tag {
        FrameTag::DefineMachine => plain(on_define(engine, &frame)),
        FrameTag::Transition => plain(on_transition(engine, session.id.as_str(), &frame)),
        FrameTag::Current => plain(on_current(engine, &frame)),
        FrameTag::History => plain(on_history(engine, &frame)),
        FrameTag::Subscribe => {
            let (answer, stream) = on_subscribe(engine, session, &frame);
            Reply { answer: Some(answer), stream, close: false }
        },
        FrameTag::Ack => Reply {
            answer: on_ack(engine, session, &frame),
            stream: None,
            close: false,
        },
        FrameTag::Unsubscribe => plain(on_unsubscribe(engine, session, &frame)),
        FrameTag::Ping => plain(Answer::Echo(frame.body)),
        FrameTag::Terminate => Reply { answer: None, stream: None, close: true },
        _ => {
            let text = "unexpected frame ".to_owned().concat(frame.tag.name());
            Reply {
                answer: Some(make_error(FrameTag::Error, "protocol_error", text.as_str())),
                stream: None,
                close: true,
            }
        },
    }
}

/// A connection is closed by the server only where the client asks for it or
/// breaks the protocol: whatever becomes of a command, the session goes on.
pub proof fn law_commands_keep_the_session<
    S: StorageEngine,
    G: Fn(&EntityState, &serde_json::Value) -> bool,
>(e0: Engine<S, G>, e1: Engine<S, G>, s0: Session, s1: Session, frame: Frame, r: Reply)
    requires
        replied(e0, e1, s0, s1, frame, r),
    ensures
        crate::wire::handshake::is_command(frame.tag) ==> !r.close && s1.same_client(s0),
        r.close <==> !crate::wire::handshake::is_command(frame.tag) && frame.tag != FrameTag::Ping,
{
}

/// An `Error` frame is the last one: what is no error leaves the session open.
pub proof fn law_errors_are_fatal<
    S: StorageEngine,
    G: Fn(&EntityState, &serde_json::Value) -> bool,
>(e0: Engine<S, G>, e1: Engine<S, G>, s0: Session, s1: Session, frame: Frame, r: Reply)
    requires
        replied(e0, e1, s0, s1, frame, r),
        r.answer matches Some(Answer::Say { tag: FrameTag::Error, .. }),
    ensures
        r.close,
{
}

/// Whether an answer is a result or a rejection of a request.
pub open spec fn is_reply_to(a: Answer, request_id: u64) -> bool {
    a matches Answer::Say { tag, body } && (tag == FrameTag::Result || tag == FrameTag::Rejection)
        && json_view(body).member("request_id"@) == Some(Json::uint(request_id as nat))
}

/// The number of a request stands in every reply to it.
pub proof fn lemma_bodies_name_the_request(
    request_id: u64,
    payload: Json,
    code: Seq<char>,
    message: Seq<char>,
    state: Option<Seq<char>>,
    version: Option<u64>,
)
    ensures
        result_body(request_id, payload).member("request_id"@) == Some(
            Json::uint(request_id as nat),
        ),
        rejection_body(request_id, code, message, state, version).member("request_id"@) == Some(
            Json::uint(request_id as nat),
        ),
{
    reveal_strlit("request_id");
    reveal_strlit("payload");
    reveal_strlit("code");
    reveal_strlit("message");
    reveal_strlit("current_state");
    reveal_strlit("version");
    assert("request_id"@.len() == 10 && "payload"@.len() == 7 && "code"@.len() == 4);
    assert("message"@.len() == 7 && "current_state"@.len() == 13 && "version"@.len() == 7);
}

/// Every command but `Ack` gets one reply, a result or a rejection, that names
/// the request it answers.
pub proof fn law_replies_name_the_request<
    S: StorageEngine,
    G: Fn(&EntityState, &serde_json::Value) -> bool,
>(e0: Engine<S, G>, e1: Engine<S, G>, s0: Session, s1: Session, frame: Frame, r: Reply)
    requires
        replied(e0, e1, s0, s1, frame, r),
        crate::wire::handshake::is_command(frame.tag),
        frame.tag != FrameTag::Ack,
    ensures
        r.answer is Some,
        is_reply_to(r.answer->0, request_in(frame)),
{
    assert forall|
        request_id: u64,
        code: Seq<char>,
        message: Seq<char>,
        state: Option<Seq<char>>,
        version: Option<u64>,
    |
        (#[trigger] rejection_body(request_id, code, message, state, version)).member(
            "request_id"@,
        ) == Some(Json::uint(request_id as nat)) by {
        lemma_bodies_name_the_request(request_id, Json::Null, code, message, state, version);
    }
    assert forall|request_id: u64, payload: Json|
        (#[trigger] result_body(request_id, payload)).member("request_id"@) == Some(
            Json::uint(request_id as nat),
        ) by {
        lemma_bodies_name_the_request(
            request_id,
            payload,
            Seq::empty(),
            Seq::empty(),
            None,
            None,
        );
    }
}

} // verus!
