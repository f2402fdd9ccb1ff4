//! What it takes to open a session, in terms of the frames and the tokens.
use crate::json::{json_view, Json};
use crate::proto::body::{holds, law_bytes_that_hold_an_object_read_as_it};
use crate::proto::fields::{lemma_uint_of, texts_of};
use crate::proto::frame::{held, Frame, FrameTag};
use crate::proto::messages::{AuthMessage, StartupMessage};
use crate::text::texts;
use crate::wire::config::ServerConfig;
use crate::wire::handshake::{common, early_code, server_capabilities, Handshake, HandshakeStep};
use crate::wire::reply::Answer;
use crate::wire::shapes::law_error_body_shape;
use vstd::prelude::*;

verus! {

/// The first frame never opens a session. A `Startup` frame with a version leads to
/// authentication, with the version that both ends know and with what the client can
/// do; version zero is refused, and so is any other frame.
pub proof fn law_startup_leads_to_authentication(
    config: ServerConfig,
    frame: Frame,
    body: Map<Seq<char>, Json>,
    version: u32,
    capabilities: Seq<Seq<char>>,
    step: HandshakeStep,
)
    requires
        call_ensures(Handshake::step, (Handshake::AwaitStartup, &config, &frame), step),
        holds(held(frame.body), body),
        body.contains_key("protocol_version"@) && body["protocol_version"@] == Json::uint(
            version as nat,
        ),
        body.contains_key("capabilities"@) && body["capabilities"@] == Json::List(
            capabilities.map_values(|x: Seq<char>| Json::Text(x)),
        ),
    ensures
        step !is Open,
        frame.tag == FrameTag::Startup && version > 0 ==> (step matches HandshakeStep::Next(
            Handshake::AwaitAuth { protocol_version, capabilities: c },
        ) && protocol_version == 1 && texts(c@) == capabilities),
        frame.tag != FrameTag::Startup || version == 0 ==> (step matches HandshakeStep::Refuse {
            answer: Answer::Say { tag, .. },
            ..
        } && tag == FrameTag::Error),
{
    let j = Json::Object(body);
    law_bytes_that_hold_an_object_read_as_it(held(frame.body), body, StartupMessage::fields());
    lemma_uint_of(version as u64);
    lemma_list(capabilities);
    reveal_strlit("protocol_version");
    reveal_strlit("capabilities");
    assert("protocol_version"@.len() == 16 && "capabilities"@.len() == 12);
    assert(StartupMessage::readable(j));
}

/// A list of texts is read as those texts.
proof fn lemma_list(s: Seq<Seq<char>>)
    ensures
        texts_of(Json::List(s.map_values(|x: Seq<char>| Json::Text(x)))) == Some(s),
{
    let l = s.map_values(|x: Seq<char>| Json::Text(x));
    assert forall|i: int| 0 <= i < l.len() implies (#[trigger] l[i]) is Text && l[i]->Text_0
        == s[i] by {}
    assert(texts_of(Json::List(l))->0 =~= s);
}

/// A session is opened exactly by an `Auth` frame with one of the tokens of the
/// server. The client is told the name of its session, the version that was settled
/// and what both ends can do.
pub proof fn law_known_tokens_open_sessions(
    config: ServerConfig,
    frame: Frame,
    body: Map<Seq<char>, Json>,
    token: Seq<char>,
    protocol_version: u32,
    capabilities: Vec<String>,
    step: HandshakeStep,
)
    requires
        call_ensures(
            Handshake::step,
            (Handshake::AwaitAuth { protocol_version, capabilities }, &config, &frame),
            step,
        ),
        holds(held(frame.body), body),
        body.contains_key("token"@) && body["token"@] == Json::Text(token),
    ensures
        step is Open <==> frame.tag == FrameTag::Auth && exists|i: int|
            0 <= i < config.auth_tokens@.len() && (#[trigger] config.auth_tokens@[i])@ == token,
        step !is Next,
        step matches HandshakeStep::Open { session, answers } ==> {
            &&& session.authenticated && session.subscriptions@.len() == 0
            &&& forall|c: Seq<char>| #[trigger]
                texts(session.capabilities@).contains(c) <==> texts(capabilities@).contains(c) && (c
                    == "subscribe"@ || c == "history"@ || c == "define_machine"@)
            &&& answers@.len() == 2
            &&& answers@[0] matches Answer::Say { tag: FrameTag::AuthOk, .. }
            &&& answers@[1] matches Answer::Say { tag: FrameTag::Ready, body: said }
            &&& json_view(said).member("session_id"@) == Some(Json::Text(session.id@))
            &&& json_view(said).member("protocol_version"@) == Some(
                Json::uint(protocol_version as nat),
            )
            &&& json_view(said).member("capabilities"@) == Some(
                Json::List(
                    texts(session.capabilities@).map_values(|x: Seq<char>| Json::Text(x)),
                ),
            )
        },
        step matches HandshakeStep::Refuse { answer, .. } ==> (answer matches Answer::Say {
            tag,
            body: said,
        } && (frame.tag == FrameTag::Auth ==> tag == FrameTag::AuthError && json_view(said).member(
            "code"@,
        ) == Some(Json::Text("unauthenticated"@))) && (frame.tag != FrameTag::Auth ==> tag
            == FrameTag::Error)),
{
    let j = Json::Object(body);
    law_bytes_that_hold_an_object_read_as_it(held(frame.body), body, AuthMessage::fields());
    assert(AuthMessage::readable(j));
    law_error_body_shape("unauthenticated"@, "invalid token"@);
    law_error_body_shape(early_code(frame.tag), "expected Auth frame"@);
    let tokens = texts(config.auth_tokens@);
    if tokens.contains(token) {
        let i = tokens.index_of(token);
        assert(config.auth_tokens@[i]@ == token);
    }
    if exists|i: int|
        0 <= i < config.auth_tokens@.len() && (#[trigger] config.auth_tokens@[i])@ == token {
        let i = choose|i: int|
            0 <= i < config.auth_tokens@.len() && (#[trigger] config.auth_tokens@[i])@ == token;
        assert(tokens[i] == token);
    }
    reveal_strlit("session_id");
    reveal_strlit("server_version");
    reveal_strlit("protocol_version");
    reveal_strlit("capabilities");
    assert("session_id"@.len() == 10 && "server_version"@.len() == 14 && "protocol_version"@.len()
        == 16 && "capabilities"@.len() == 12);
    let client = texts(capabilities@);
    let both = common(client);
    lemma_common(client);
    assert(both.map_values(|x: Seq<char>| Json::Text(x)) =~= Seq::new(
        both.len(),
        |i: int| Json::Text(both[i]),
    ));
}

/// What both ends can do is what the client can do of what the server can.
proof fn lemma_common(client: Seq<Seq<char>>)
    ensures
        forall|c: Seq<char>| #[trigger]
            common(client).contains(c) <==> client.contains(c) && (c == "subscribe"@ || c
                == "history"@ || c == "define_machine"@),
{
    let all = server_capabilities();
    let f = |c: Seq<char>| client.contains(c);
    assert forall|c: Seq<char>| #[trigger] common(client).contains(c) implies client.contains(c) && (
    c == "subscribe"@ || c == "history"@ || c == "define_machine"@) by {
        let i = common(client).index_of(c);
        all.lemma_filter_pred(f, i);
        assert(f(all.filter(f)[i]));
        all.lemma_filter_contains_rev(f, c);
    }
    assert forall|c: Seq<char>|
        client.contains(c) && (c == "subscribe"@ || c == "history"@ || c
            == "define_machine"@) implies #[trigger] common(client).contains(c) by {
        assert(all[0] == "subscribe"@ && all[1] == "history"@ && all[2] == "define_machine"@);
        let i: int = if c == "subscribe"@ {
            0
        } else if c == "history"@ {
            1
        } else {
            2
        };
        all.lemma_filter_contains(f, i);
    }
}

} // verus!
