//! The state of a client's connection: who waits for which reply.
use crate::fsm::record::ChangeRecord;
use crate::json::Json;
use crate::names::NameMap;
use crate::proto::body::{names, packed_at};
use crate::proto::codec::decode_fields;
use crate::proto::fields::{read_uint, text_field, uint_field};
use crate::proto::frame::{held, Frame, FrameTag};
use crate::proto::messages::ErrorMessage;
use crate::proto::push::{change_at, ChangeRecordMessage};
use crate::sdk::config::ClientConfig;
use crate::sdk::error::{SdkError, SdkErrorView};
use crate::sdk::response::{said, said_in};
use std::collections::HashMap;
use vstd::prelude::*;

verus! {

broadcast use vstd::std_specs::hash::group_hash_axioms;

/// Refuses settings that cannot be met: connections are not encrypted.
pub fn check_config(config: &ClientConfig) -> (r: Result<(), SdkError>)
    ensures
        match r {
            Ok(()) => !config.tls,
            Err(e) => config.tls && e@ == SdkErrorView::Internal(
                "TLS support requires tokio-rustls integration (not yet wired)"@,
            ),
        },
{
    if config.tls {
        Err(
            SdkError::Internal(
                "TLS support requires tokio-rustls integration (not yet wired)".to_owned(),
            ),
        )
    } else {
        Ok(())
    }
}

/// How far a handshake has come, seen by the client.
#[derive(Debug, Clone, Copy)]
pub struct ClientHandshake {
    /// Whether the server accepted the token.
    pub auth_ok: bool,
    /// Whether the server opened the session.
    pub ready: bool,
}

impl ClientHandshake {
    /// A handshake of which nothing was heard yet.
    pub fn new() -> (r: Self)
        ensures
            !r.auth_ok,
            !r.ready,
    {
        ClientHandshake { auth_ok: false, ready: false }
    }

    /// Whether the session is open.
    pub open spec fn done(self) -> bool {
        self.auth_ok && self.ready
    }

    /// Whether the session is open.
    pub fn is_done(&self) -> (r: bool)
        ensures
            r == self.done(),
    {
        self.auth_ok && self.ready
    }

    /// What the next frame does to the handshake. `AuthOk` and `Ready` may come
    /// in any order; frames of other kinds do nothing.
    pub fn receive(self, frame: &Frame) -> (r: Result<ClientHandshake, SdkError>)
        ensures
            ({
                let body = packed_at(held(frame.body), ErrorMessage::fields());
                match (frame.tag, r) {
                    (FrameTag::AuthOk, Ok(h)) => h == (ClientHandshake { auth_ok: true, ..self }),
                    (FrameTag::Ready, Ok(h)) => h == (ClientHandshake { ready: true, ..self }),
                    (FrameTag::AuthError, Err(e)) => e@ == SdkErrorView::AuthFailed(
                        said(body, "auth error"@),
                    ),
                    (FrameTag::Error, Err(e)) => e@ == SdkErrorView::ConnectionFailed(
                        said(body, "server error"@),
                    ),
                    (tag, Ok(h)) => tag != FrameTag::AuthError && tag != FrameTag::Error && h
                        == self,
                    _ => false,
                }
            }),
    {
        match frame.tag {
            FrameTag::AuthOk => Ok(ClientHandshake { auth_ok: true, ready: self.ready }),
            FrameTag::Ready => Ok(ClientHandshake { auth_ok: self.auth_ok, ready: true }),
            FrameTag::AuthError => Err(SdkError::AuthFailed(said_in(frame, "auth error"))),
            FrameTag::Error => Err(SdkError::ConnectionFailed(said_in(frame, "server error"))),
            _ => Ok(self),
        }
    }
}

/// Numbers requests, from one on.
#[derive(Debug)]
pub struct RequestIds {
    next: u64,
}

impl RequestIds {
    /// The number that comes next.
    pub closed spec fn upcoming(&self) -> u64 {
        self.next
    }

    /// No request was numbered yet.
    pub fn new() -> (r: Self)
        ensures
            r.upcoming() == 1,
    {
        RequestIds { next: 1 }
    }

    /// The number of one more request.
    pub fn next_request_id(&mut self) -> (r: u64)
        ensures
            r == old(self).upcoming(),
            final(self).upcoming() == (if r == u64::MAX {
                0
            } else {
                (r + 1) as u64
            }),
    {
        let r = self.next;
        self.next = if r == u64::MAX {
            0
        } else {
            r + 1
        };
        r
    }
}

/// Who waits for replies and records: `P` takes a reply, `T` the records of a
/// subscription.
pub struct SharedState<P, T> {
    pending: HashMap<u64, P>,
    subscriptions: NameMap<T>,
    dead: bool,
}

/// The contents of a `SharedState`.
#[verifier::ext_equal]
#[verifier::reject_recursive_types(P)]
#[verifier::reject_recursive_types(T)]
pub struct SharedView<P, T> {
    pub pending: Map<u64, P>,
    pub subscriptions: Map<Seq<char>, T>,
    pub dead: bool,
}

impl<P, T> View for SharedState<P, T> {
    type V = SharedView<P, T>;

    closed spec fn view(&self) -> SharedView<P, T> {
        SharedView {
            pending: self.pending@,
            subscriptions: self.subscriptions@,
            dead: self.dead,
        }
    }
}

/// Where a frame goes.
pub enum Routed<P> {
    /// It is the reply that this one waits for.
    Reply(P),
    /// It is a record of a subscription.
    Record { subscription_id: String, record: ChangeRecord },
    /// Nobody waits for it.
    Nobody,
}

/// The number of the request that a body answers, if it names one.
pub open spec fn answers_request(body: Option<Json>) -> Option<u64> {
    match body {
        Some(j) => uint_field(j, "request_id"@),
        None => None,
    }
}

/// The number of the request that a frame answers, if it names one.
pub open spec fn answered_in(frame: Frame) -> Option<u64> {
    answers_request(packed_at(held(frame.body), seq!["request_id"@]))
}

/// The number of the request that a frame answers, if it names one.
pub fn extract_request_id(frame: &Frame) -> (r: Option<u64>)
    ensures
        r == answered_in(*frame),
{
    let fields: Vec<&str> = vec!["request_id"];
    assert(names(fields@) =~= seq!["request_id"@]);
    match decode_fields(frame, &fields) {
        Ok(v) => read_uint(&v, "request_id"),
        Err(_) => None,
    }
}

/// Whether a reply goes to whoever waits for it.
pub open spec fn reply_routed<P>(
    before: Map<u64, P>,
    after: Map<u64, P>,
    id: Option<u64>,
    r: Routed<P>,
) -> bool {
    if id is Some && before.contains_key(id->0) {
        r == Routed::Reply(before[id->0]) && after == before.remove(id->0)
    } else {
        r is Nobody && after == before
    }
}

/// Whether a record goes to its subscription.
pub open spec fn record_routed<P, T>(
    subscriptions: Map<Seq<char>, T>,
    body: Option<Json>,
    r: Routed<P>,
) -> bool {
    if body is Some && ChangeRecordMessage::readable(body->0) && subscriptions.contains_key(
        text_field(body->0, "subscription_id"@)->0,
    ) {
        r matches Routed::Record { subscription_id, record } && subscription_id@ == text_field(
            body->0,
            "subscription_id"@,
        )->0 && record@ == change_at(body->0)->0
    } else {
        r is Nobody
    }
}

impl<P, T> SharedView<P, T> {
    /// A connection that was lost: nobody waits on it for anything.
    pub open spec fn lost() -> SharedView<P, T> {
        SharedView { pending: Map::empty(), subscriptions: Map::empty(), dead: true }
    }
}

/// Where a frame goes, and what is left of who waits. An `Error` is the last
/// frame of a connection: nobody waits on after it.
pub open spec fn routed<P, T>(
    before: SharedView<P, T>,
    after: SharedView<P, T>,
    frame: Frame,
    r: Routed<P>,
) -> bool {
    let body = packed_at(held(frame.body), ChangeRecordMessage::fields());
    match frame.tag {
        FrameTag::Result | FrameTag::Rejection => {
            &&& after.subscriptions == before.subscriptions
            &&& after.dead == before.dead
            &&& reply_routed(before.pending, after.pending, answered_in(frame), r)
        },
        FrameTag::Error => {
            &&& after == SharedView::<P, T>::lost()
            &&& exists|rest: Map<u64, P>| #[trigger]
                reply_routed(before.pending, rest, answered_in(frame), r)
        },
        FrameTag::ChangeRecord => after == before && record_routed(before.subscriptions, body, r),
        _ => after == before && r is Nobody,
    }
}

impl<P, T> SharedState<P, T> {
    /// A connection on which nobody waits.
    pub fn new() -> (r: Self)
        ensures
            r@ == (SharedView::<P, T> {
                pending: Map::empty(),
                subscriptions: Map::empty(),
                dead: false,
            }),
    {
        SharedState { pending: HashMap::new(), subscriptions: NameMap::new(), dead: false }
    }

    /// Whether the connection was lost.
    pub fn is_dead(&self) -> (r: bool)
        ensures
            r == self@.dead,
    {
        self.dead
    }

    /// Waits for the reply to a request, unless the connection was lost.
    pub fn expect(&mut self, request_id: u64, waiter: P) -> (r: Result<(), SdkError>)
        ensures
            match r {
                Ok(()) => !old(self)@.dead && final(self)@ == (SharedView {
                    pending: old(self)@.pending.insert(request_id, waiter),
                    ..old(self)@
                }),
                Err(e) => old(self)@.dead && final(self)@ == old(self)@ && e@
                    == SdkErrorView::Disconnected,
            },
    {
        if self.dead {
            return Err(SdkError::Disconnected);
        }
        self.pending.insert(request_id, waiter);
        Ok(())
    }

    /// Waits no longer for the reply to a request.
    pub fn give_up(&mut self, request_id: u64)
        ensures
            final(self)@ == (SharedView {
                pending: old(self)@.pending.remove(request_id),
                ..old(self)@
            }),
    {
        let _ = self.pending.remove(&request_id);
        assert(self@.pending =~= old(self)@.pending.remove(request_id));
    }

    /// Waits for the records of a subscription.
    pub fn add_subscription(&mut self, subscription_id: String, sink: T)
        ensures
            final(self)@ == (SharedView {
                subscriptions: old(self)@.subscriptions.insert(subscription_id@, sink),
                ..old(self)@
            }),
    {
        self.subscriptions.insert(subscription_id, sink);
    }

    /// Waits no longer for the records of a subscription.
    pub fn remove_subscription(&mut self, subscription_id: &str)
        ensures
            final(self)@ == (SharedView {
                subscriptions: old(self)@.subscriptions.remove(subscription_id@),
                ..old(self)@
            }),
    {
        self.subscriptions.remove(subscription_id);
    }

    /// Who takes the records of a subscription.
    pub fn subscription(&self, subscription_id: &str) -> (r: Option<&T>)
        ensures
            match r {
                Some(t) => self@.subscriptions.contains_key(subscription_id@)
                    && self@.subscriptions[subscription_id@] == *t,
                None => !self@.subscriptions.contains_key(subscription_id@),
            },
    {
        self.subscriptions.get(subscription_id)
    }

    /// The connection was lost: whoever waits for a reply waits in vain, and
    /// every subscription ends.
    pub fn mark_dead(&mut self)
        ensures
            final(self)@ == SharedView::<P, T>::lost(),
    {
        self.dead = true;
        self.pending.clear();
        self.subscriptions = NameMap::new();
        assert(self@ =~= SharedView::<P, T>::lost());
    }

    /// Takes out whoever waits for the reply to a request.
    fn take_waiter(&mut self, id: Option<u64>) -> (r: Routed<P>)
        ensures
            final(self)@.subscriptions == old(self)@.subscriptions,
            final(self)@.dead == old(self)@.dead,
            reply_routed(old(self)@.pending, final(self)@.pending, id, r),
    {
        match id {
            Some(n) => match self.pending.remove(&n) {
                Some(p) => {
                    assert(self@.pending =~= old(self)@.pending.remove(n));
                    Routed::Reply(p)
                },
                None => {
                    assert(self@.pending =~= old(self)@.pending);
                    Routed::Nobody
                },
            },
            None => Routed::Nobody,
        }
    }

    /// Finds out where a frame goes.
    pub fn route(&mut self, frame: &Frame) -> (r: Routed<P>)
        ensures
            routed(old(self)@, final(self)@, *frame, r),
    {
        match frame.tag {
            FrameTag::Result | FrameTag::Rejection => self.take_waiter(extract_request_id(frame)),
            FrameTag::Error => {
                let r = self.take_waiter(extract_request_id(frame));
                self.mark_dead();
                r
            },
            FrameTag::ChangeRecord => match ChangeRecordMessage::from_frame(frame) {
                Ok(m) => match self.subscriptions.get(m.subscription_id.as_str()) {
                    Some(_) => Routed::Record {
                        subscription_id: m.subscription_id,
                        record: m.record,
                    },
                    None => Routed::Nobody,
                },
                Err(_) => Routed::Nobody,
            },
            _ => Routed::Nobody,
        }
    }
}

/// A reply reaches the one who waits for it and nobody else, and only once.
pub proof fn law_replies_reach_their_waiter<P, T>(
    before: SharedView<P, T>,
    after: SharedView<P, T>,
    frame: Frame,
    id: u64,
    r: Routed<P>,
)
    requires
        frame.tag == FrameTag::Result || frame.tag == FrameTag::Rejection,
        answered_in(frame) == Some(id),
        before.pending.contains_key(id),
        routed(before, after, frame, r),
    ensures
        r == Routed::Reply(before.pending[id]),
        !after.pending.contains_key(id),
        forall|other: u64|
            other != id ==> #[trigger] after.pending.contains_key(other)
                == before.pending.contains_key(other),
{
}

/// An `Error` frame loses the connection: nobody waits for a reply any more, and
/// every subscription ends.
pub proof fn law_errors_end_everything<P, T>(
    before: SharedView<P, T>,
    after: SharedView<P, T>,
    frame: Frame,
    r: Routed<P>,
)
    requires
        frame.tag == FrameTag::Error,
        routed(before, after, frame, r),
    ensures
        after.dead,
        forall|id: u64| !after.pending.contains_key(id),
        forall|id: Seq<char>| !after.subscriptions.contains_key(id),
{
}

/// On a lost connection nobody can wait for a reply.
pub proof fn law_lost_connections_stay_lost<P, T>(
    before: SharedView<P, T>,
    after: SharedView<P, T>,
    frame: Frame,
    r: Routed<P>,
)
    requires
        before.dead,
        routed(before, after, frame, r),
    ensures
        after.dead,
{
}

} // verus!
