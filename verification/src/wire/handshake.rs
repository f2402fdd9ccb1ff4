//! How a session is opened.
use crate::id::{fresh, is_uuid4};
use crate::json::Json;
use crate::proto::body::packed_at;
use crate::proto::codec::body_fault;
use crate::proto::constants::{PROTOCOL_VERSION, SERVER_VERSION};
use crate::proto::error::{ProtoError, ProtoErrorView};
use crate::proto::frame::{held, Frame, FrameTag};
use crate::proto::messages::{AuthMessage, ReadyMessage, StartupMessage};
use crate::proto::fields::{text_field, texts_or_none_field, uint32_field};
use crate::text::{clone_texts, contains_text, decimal, decimal_of, texts};
use crate::wire::config::ServerConfig;
use crate::wire::error::{WireError, WireErrorView};
use crate::wire::reply::{error_body, make_error, says, Answer};
use crate::wire::session::Session;
use vstd::prelude::*;

verus! {

/// What a server can do.
pub open spec fn server_capabilities() -> Seq<Seq<char>> {
    seq!["subscribe"@, "history"@, "define_machine"@]
}

/// What both ends can do, in the order of the server's list.
pub open spec fn common(client: Seq<Seq<char>>) -> Seq<Seq<char>> {
    server_capabilities().filter(|c: Seq<char>| client.contains(c))
}

/// The highest version that both ends know, if there is one.
pub open spec fn agreed_version(client: u32) -> Option<u32> {
    if client == 0 {
        None
    } else if client < PROTOCOL_VERSION {
        Some(client)
    } else {
        Some(PROTOCOL_VERSION)
    }
}

/// Whether a frame is a command of an open session.
pub open spec fn is_command(tag: FrameTag) -> bool {
    tag == FrameTag::DefineMachine || tag == FrameTag::Transition || tag == FrameTag::Current
        || tag == FrameTag::History || tag == FrameTag::Subscribe || tag == FrameTag::Ack || tag
        == FrameTag::Unsubscribe
}

/// The code of the error that an unexpected frame gets before the session is
/// open.
pub open spec fn early_code(tag: FrameTag) -> Seq<char> {
    if is_command(tag) {
        "unauthenticated"@
    } else {
        "protocol_error"@
    }
}

/// The code of the error that an unexpected frame gets before the session is
/// open.
fn early_code_of(tag: FrameTag) -> (r: &'static str)
    ensures
        r@ == early_code(tag),
{
    match tag {
        FrameTag::DefineMachine => "unauthenticated",
        FrameTag::Transition => "unauthenticated",
        FrameTag::Current => "unauthenticated",
        FrameTag::History => "unauthenticated",
        FrameTag::Subscribe => "unauthenticated",
        FrameTag::Ack => "unauthenticated",
        FrameTag::Unsubscribe => "unauthenticated",
        _ => "protocol_error",
    }
}

/// What both ends can do.
pub fn common_capabilities(client: &Vec<String>) -> (r: Vec<String>)
    ensures
        texts(r@) == common(texts(client@)),
{
    let known: [&str; 3] = ["subscribe", "history", "define_machine"];
    let ghost all = server_capabilities();
    let ghost shared = |c: Seq<char>| texts(client@).contains(c);
    let mut r: Vec<String> = Vec::new();
    let mut i: usize = 0;
    assert(texts(r@) =~= all.take(0).filter(shared)) by {
        reveal_with_fuel(Seq::filter, 1);
    }
    while i < 3
        invariant
            i <= 3,
            all == server_capabilities(),
            forall|j: int| 0 <= j < 3 ==> (#[trigger] known[j])@ == all[j],
            shared == (|c: Seq<char>| texts(client@).contains(c)),
            texts(r@) == all.take(i as int).filter(shared),
        decreases 3 - i,
    {
        let ghost before = r@;
        proof {
            assert(known[i as int]@ == all[i as int]);
            assert(all.take(i + 1).drop_last() =~= all.take(i as int));
            reveal_with_fuel(Seq::filter, 1);
        }
        if contains_text(client, known[i]) {
            r.push(known[i].to_owned());
            assert(texts(r@) =~= texts(before).push(all[i as int]));
        }
        i = i + 1;
    }
    assert(all.take(3) =~= all);
    r
}

/// How far a handshake has come.
#[derive(Debug)]
pub enum Handshake {
    /// Nothing was received yet.
    AwaitStartup,
    /// The client introduced itself.
    AwaitAuth { protocol_version: u32, capabilities: Vec<String> },
}

/// What a frame does to a handshake.
#[derive(Debug)]
pub enum HandshakeStep {
    /// Wait for the next frame.
    Next(Handshake),
    /// The session is open: give the answers, then serve.
    Open { session: Session, answers: Vec<Answer> },
    /// Give the answer and close the connection.
    Refuse { answer: Answer, error: WireError },
}

/// Whether an answer complains about a body that cannot be read.
pub open spec fn is_bad_request(a: Answer, fault: ProtoErrorView) -> bool {
    says(a, FrameTag::Error, error_body("bad_request"@, fault.message()))
}

/// Whether a handshake is refused because a body cannot be read.
pub open spec fn is_unreadable(step: HandshakeStep, fault: ProtoErrorView) -> bool {
    step matches HandshakeStep::Refuse { answer, error } && is_bad_request(answer, fault) && error@
        == WireErrorView::Proto(fault)
}

/// Whether a startup is refused or followed by authentication.
pub open spec fn started(frame: Frame, step: HandshakeStep) -> bool {
    let body = packed_at(held(frame.body), StartupMessage::fields());
    if frame.tag != FrameTag::Startup {
        step matches HandshakeStep::Refuse { answer: f, error } && says(
            f,
            FrameTag::Error,
            error_body(early_code(frame.tag), "expected Startup frame"@),
        ) && error@ == WireErrorView::Proto(
            ProtoErrorView::InvalidFrameType(frame.tag.code()),
        )
    } else if body is None || !StartupMessage::readable(body->0) {
        is_unreadable(step, body_fault(body, "malformed Startup body"@))
    } else {
        let version = uint32_field(body->0, "protocol_version"@)->0;
        let capabilities = texts_or_none_field(body->0, "capabilities"@)->0;
        match agreed_version(version) {
            Some(v) => step matches HandshakeStep::Next(
                Handshake::AwaitAuth { protocol_version, capabilities: c },
            ) && protocol_version == v && texts(c@) == capabilities,
            None => step matches HandshakeStep::Refuse { answer: f, error } && says(
                f,
                FrameTag::Error,
                error_body(
                    "protocol_error"@,
                    "protocol version mismatch: server="@ + decimal(PROTOCOL_VERSION as nat)
                        + " client="@ + decimal(version as nat),
                ),
            ) && error@ == WireErrorView::Auth(
                "unsupported protocol version "@ + decimal(version as nat),
            ),
        }
    }
}

/// The body of the frame that opens a session.
pub open spec fn ready_body(
    session_id: Seq<char>,
    protocol_version: u32,
    capabilities: Seq<Seq<char>>,
) -> Json {
    Json::Object(
        Map::empty().insert("session_id"@, Json::Text(session_id)).insert(
            "server_version"@,
            Json::Text(SERVER_VERSION@),
        ).insert("protocol_version"@, Json::uint(protocol_version as nat)).insert(
            "capabilities"@,
            Json::texts(capabilities),
        ),
    )
}

/// Whether an authentication is refused or opens the session.
pub open spec fn authenticated(
    config: ServerConfig,
    protocol_version: u32,
    capabilities: Seq<Seq<char>>,
    frame: Frame,
    step: HandshakeStep,
) -> bool {
    let body = packed_at(held(frame.body), AuthMessage::fields());
    if frame.tag != FrameTag::Auth {
        step matches HandshakeStep::Refuse { answer: f, error } && says(
            f,
            FrameTag::Error,
            error_body(early_code(frame.tag), "expected Auth frame"@),
        ) && error@ == WireErrorView::Auth("expected Auth frame"@)
    } else if body is None || !AuthMessage::readable(body->0) {
        is_unreadable(step, body_fault(body, "malformed Auth body"@))
    } else if !texts(config.auth_tokens@).contains(text_field(body->0, "token"@)->0) {
        step matches HandshakeStep::Refuse { answer: f, error } && says(
            f,
            FrameTag::AuthError,
            error_body("unauthenticated"@, "invalid token"@),
        ) && error@ == WireErrorView::Auth("invalid auth token"@)
    } else {
        step matches HandshakeStep::Open { session, answers } && {
            &&& is_uuid4(session.id@)
            &&& session.authenticated
            &&& texts(session.capabilities@) == common(capabilities)
            &&& session.subscriptions@.len() == 0
            &&& answers@.len() == 2
            &&& says(answers@[0], FrameTag::AuthOk, error_body(Seq::empty(), "ok"@))
            &&& says(
                answers@[1],
                FrameTag::Ready,
                ready_body(session.id@, protocol_version, common(capabilities)),
            )
        }
    }
}

/// A body that could not be read.
fn unreadable(e: ProtoError) -> (r: HandshakeStep)
    ensures
        is_unreadable(r, e@),
{
    let message = e.message();
    HandshakeStep::Refuse {
        answer: make_error(FrameTag::Error, "bad_request", message.as_str()),
        error: WireError::Proto(e),
    }
}

impl Handshake {
    /// What the next frame does.
    pub fn step(self, config: &ServerConfig, frame: &Frame) -> (r: HandshakeStep)
        ensures
            match self {
                Handshake::AwaitStartup => started(*frame, r),
                Handshake::AwaitAuth { protocol_version, capabilities } => authenticated(
                    *config,
                    protocol_version,
                    texts(capabilities@),
                    *frame,
                    r,
                ),
            },
    {
        match self {
            Handshake::AwaitStartup => Handshake::on_startup(frame),
            Handshake::AwaitAuth { protocol_version, capabilities } => Handshake::on_auth(
                config,
                protocol_version,
                &capabilities,
                frame,
            ),
        }
    }

    /// The first frame.
    fn on_startup(frame: &Frame) -> (r: HandshakeStep)
        ensures
            started(*frame, r),
    {
        if frame.tag != FrameTag::Startup {
            return HandshakeStep::Refuse {
                answer: make_error(
                    FrameTag::Error,
                    early_code_of(frame.tag),
                    "expected Startup frame",
                ),
                error: WireError::Proto(ProtoError::InvalidFrameType(frame.tag.to_byte())),
            };
        }
        let startup = match StartupMessage::from_frame(frame) {
            Ok(m) => m,
            Err(e) => {
                return unreadable(e);
            },
        };
        let version = startup.protocol_version;
        if version == 0 {
            let client = decimal_of(version as u64);
            let text = "protocol version mismatch: server=".to_owned().concat(
                decimal_of(PROTOCOL_VERSION as u64).as_str(),
            ).concat(" client=").concat(client.as_str());
            return HandshakeStep::Refuse {
                answer: make_error(FrameTag::Error, "protocol_error", text.as_str()),
                error: WireError::Auth(
                    "unsupported protocol version ".to_owned().concat(client.as_str()),
                ),
            };
        }
        HandshakeStep::Next(
            Handshake::AwaitAuth {
                protocol_version: if version < PROTOCOL_VERSION {
                    version
                } else {
                    PROTOCOL_VERSION
                },
                capabilities: startup.capabilities,
            },
        )
    }

    /// The second frame.
    fn on_auth(
        config: &ServerConfig,
        protocol_version: u32,
        capabilities: &Vec<String>,
        frame: &Frame,
    ) -> (r: HandshakeStep)
        ensures
            authenticated(*config, protocol_version, texts(capabilities@), *frame, r),
    {
        if frame.tag != FrameTag::Auth {
            return HandshakeStep::Refuse {
                answer: make_error(
                    FrameTag::Error,
                    early_code_of(frame.tag),
                    "expected Auth frame",
                ),
                error: WireError::Auth("expected Auth frame".to_owned()),
            };
        }
        let auth = match AuthMessage::from_frame(frame) {
            Ok(m) => m,
            Err(e) => {
                return unreadable(e);
            },
        };
        if !config.accepts_token(auth.token.as_str()) {
            return HandshakeStep::Refuse {
                answer: make_error(FrameTag::AuthError, "unauthenticated", "invalid token"),
                error: WireError::Auth("invalid auth token".to_owned()),
            };
        }
        let shared = common_capabilities(capabilities);
        let mut session = Session::new(fresh());
        session.authenticated = true;
        session.capabilities = clone_texts(&shared);
        let ready = ReadyMessage {
            session_id: session.id.clone(),
            server_version: SERVER_VERSION.to_owned(),
            protocol_version,
            capabilities: shared,
        };
        let mut answers: Vec<Answer> = Vec::new();
        proof {
            reveal_strlit("");
            assert(""@ =~= Seq::<char>::empty());
        }
        answers.push(make_error(FrameTag::AuthOk, "", "ok"));
        answers.push(Answer::Say { tag: FrameTag::Ready, body: ready.to_value() });
        HandshakeStep::Open { session, answers }
    }
}

/// The error that a client gets which did not authenticate in time.
pub fn auth_timed_out() -> (f: Answer)
    ensures
        says(f, FrameTag::Error, error_body("unauthenticated"@, "authentication timed out"@)),
{
    make_error(FrameTag::Error, "unauthenticated", "authentication timed out")
}

/// The code of the error that a broken frame gets.
pub open spec fn framing_code(e: ProtoErrorView) -> Seq<char> {
    if e is FrameTooLarge {
        "frame_too_large"@
    } else {
        "protocol_error"@
    }
}

/// The error that a broken frame gets, before the connection is closed.
pub fn framing_error(e: &ProtoError) -> (f: Answer)
    ensures
        says(f, FrameTag::Error, error_body(framing_code(e@), e@.message())),
{
    let text = e.message();
    match e {
        ProtoError::FrameTooLarge { .. } => make_error(
            FrameTag::Error,
            "frame_too_large",
            text.as_str(),
        ),
        _ => make_error(FrameTag::Error, "protocol_error", text.as_str()),
    }
}

/// Without any token configured nobody is authenticated.
pub proof fn law_no_tokens_no_session(
    config: ServerConfig,
    protocol_version: u32,
    capabilities: Seq<Seq<char>>,
    frame: Frame,
    step: HandshakeStep,
)
    requires
        config.auth_tokens@.len() == 0,
        authenticated(config, protocol_version, capabilities, frame, step),
    ensures
        step is Refuse,
{
}

/// The version agreed on is none that either end does not know.
pub proof fn law_version_is_negotiated_down(client: u32)
    ensures
        agreed_version(client) matches Some(v) ==> 1 <= v <= client && v <= PROTOCOL_VERSION,
        client >= 1 ==> agreed_version(client) is Some,
{
}

} // verus!
