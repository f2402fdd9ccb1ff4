//! What a client's connection does with what it hears, and how it is set up.
use crate::json::Json;
use crate::proto::body::{holds, law_bytes_that_hold_an_object_read_as_it};
use crate::proto::error::ProtoError;
use crate::proto::fields::lemma_uint_of;
use crate::proto::frame::{held, Frame, FrameTag};
use crate::proto::push::ChangeRecordMessage;
use crate::sdk::config::{ClientBuilder, ClientConfig};
use crate::sdk::connection::{answered_in, ClientHandshake, RequestIds, Routed, SharedState};
use crate::sdk::error::SdkError;
use crate::sdk::retry::{base_delay_ms, retry_delay_ms};
use vstd::arithmetic::power2::{lemma2_to64, lemma_pow2_unfold};
use vstd::prelude::*;

verus! {

/// A reply reaches whoever waits for the request that its body names, once, and
/// nobody else; where nobody waits for it, it goes nowhere. The other waiters and the
/// subscriptions stay.
pub proof fn law_replies_go_to_their_waiter<P, T>(
    s: &mut SharedState<P, T>,
    frame: Frame,
    body: Map<Seq<char>, Json>,
    request_id: u64,
    r: Routed<P>,
)
    requires
        call_ensures(SharedState::<P, T>::route, (s, &frame), r),
        frame.tag == FrameTag::Result || frame.tag == FrameTag::Rejection,
        holds(held(frame.body), body),
        body.contains_key("request_id"@) && body["request_id"@] == Json::uint(request_id as nat),
    ensures
        final(s)@.subscriptions == old(s)@.subscriptions,
        final(s)@.dead == old(s)@.dead,
        if old(s)@.pending.contains_key(request_id) {
            &&& r matches Routed::Reply(p) && p == old(s)@.pending[request_id]
            &&& !final(s)@.pending.contains_key(request_id)
            &&& forall|n: u64|
                n != request_id ==> (#[trigger] final(s)@.pending.contains_key(n)
                    <==> old(s)@.pending.contains_key(n)) && final(s)@.pending[n]
                    == old(s)@.pending[n]
        } else {
            r is Nobody && final(s)@.pending == old(s)@.pending
        },
{
    lemma_uint_of(request_id);
    law_bytes_that_hold_an_object_read_as_it(held(frame.body), body, seq!["request_id"@]);
    assert(answered_in(frame) == Some(request_id));
}

/// A change record goes to the subscription that its body names, as it is read, where
/// the client has that subscription; otherwise it goes nowhere. Nothing changes.
pub proof fn law_records_go_to_their_subscription<P, T>(
    s: &mut SharedState<P, T>,
    frame: Frame,
    read: Result<ChangeRecordMessage, ProtoError>,
    r: Routed<P>,
)
    requires
        call_ensures(SharedState::<P, T>::route, (s, &frame), r),
        call_ensures(ChangeRecordMessage::from_frame, (&frame,), read),
        frame.tag == FrameTag::ChangeRecord,
    ensures
        final(s)@ == old(s)@,
        match read {
            Ok(m) => if old(s)@.subscriptions.contains_key(m.subscription_id@) {
                r matches Routed::Record { subscription_id, record } && subscription_id@
                    == m.subscription_id@ && record@ == m.record@
            } else {
                r is Nobody
            },
            Err(_) => r is Nobody,
        },
{
}

/// Waiting for a reply, giving up, subscribing and leaving touch what they name and
/// nothing else; on a lost connection nobody can wait.
pub proof fn law_waiting_is_kept_apart<P, T>(
    s: &mut SharedState<P, T>,
    t: &mut SharedState<P, T>,
    u: &mut SharedState<P, T>,
    w: &mut SharedState<P, T>,
    request_id: u64,
    waiter: P,
    subscription_id: String,
    name: &str,
    sink: T,
    r: Result<(), SdkError>,
)
    requires
        call_ensures(SharedState::<P, T>::expect, (s, request_id, waiter), r),
        call_ensures(SharedState::<P, T>::give_up, (t, request_id), ()),
        call_ensures(SharedState::<P, T>::add_subscription, (u, subscription_id, sink), ()),
        call_ensures(SharedState::<P, T>::remove_subscription, (w, name), ()),
    ensures
        r is Ok <==> !old(s)@.dead,
        r is Ok ==> final(s)@.pending.contains_key(request_id) && final(s)@.pending[request_id]
            == waiter,
        r is Err ==> final(s)@ == old(s)@,
        forall|n: u64|
            n != request_id ==> (#[trigger] final(s)@.pending.contains_key(n)
                <==> old(s)@.pending.contains_key(n)),
        final(s)@.subscriptions == old(s)@.subscriptions && final(s)@.dead == old(s)@.dead,
        !final(t)@.pending.contains_key(request_id),
        forall|n: u64|
            n != request_id ==> (#[trigger] final(t)@.pending.contains_key(n)
                <==> old(t)@.pending.contains_key(n)),
        final(t)@.subscriptions == old(t)@.subscriptions && final(t)@.dead == old(t)@.dead,
        final(u)@.subscriptions.contains_key(subscription_id@)
            && final(u)@.subscriptions[subscription_id@] == sink,
        forall|k: Seq<char>|
            k != subscription_id@ ==> (#[trigger] final(u)@.subscriptions.contains_key(k)
                <==> old(u)@.subscriptions.contains_key(k)),
        final(u)@.pending == old(u)@.pending && final(u)@.dead == old(u)@.dead,
        !final(w)@.subscriptions.contains_key(name@),
        forall|k: Seq<char>|
            k != name@ ==> (#[trigger] final(w)@.subscriptions.contains_key(k)
                <==> old(w)@.subscriptions.contains_key(k)),
        final(w)@.pending == old(w)@.pending && final(w)@.dead == old(w)@.dead,
{
}

/// A session is open for a client once it heard both that its token was accepted and
/// that the server is ready, in either order; an error in between ends the attempt.
pub proof fn law_clients_hear_both_answers(
    start: ClientHandshake,
    a: Frame,
    b: Frame,
    first: Result<ClientHandshake, SdkError>,
    second: Result<ClientHandshake, SdkError>,
    done: bool,
)
    requires
        call_ensures(ClientHandshake::new, (), start),
        call_ensures(ClientHandshake::receive, (start, &a), first),
        first is Ok ==> call_ensures(ClientHandshake::receive, (first->Ok_0, &b), second),
        first is Ok && second is Ok ==> call_ensures(
            ClientHandshake::is_done,
            (&second->Ok_0,),
            done,
        ),
    ensures
        a.tag == FrameTag::AuthError || a.tag == FrameTag::Error <==> first is Err,
        first is Ok ==> (b.tag == FrameTag::AuthError || b.tag == FrameTag::Error <==> second is
            Err),
        first is Ok && second is Ok ==> (done <==> (a.tag == FrameTag::AuthOk && b.tag
            == FrameTag::Ready) || (a.tag == FrameTag::Ready && b.tag == FrameTag::AuthOk)),
{
}

/// Requests are numbered one after the other.
pub proof fn law_requests_are_numbered(ids: &mut RequestIds, r: u64)
    requires
        call_ensures(RequestIds::next_request_id, (ids,), r),
    ensures
        r == old(ids).upcoming(),
        r < u64::MAX ==> final(ids).upcoming() == r + 1,
{
}

/// The wait begins with a tenth of a second and doubles with each attempt, up to the
/// seventh.
pub proof fn law_waits_double(attempt: u32, next: u32, a: u64, b: u64)
    requires
        call_ensures(base_delay_ms, (attempt,), a),
        call_ensures(base_delay_ms, (next,), b),
        next == attempt + 1,
    ensures
        attempt == 0 ==> a == 100,
        attempt < 6 ==> b == 2 * a,
        attempt >= 6 ==> b == a && a == 6400,
{
    lemma2_to64();
    if attempt < 6 {
        lemma_pow2_unfold(next as nat);
    }
}

/// After the last attempt there is no wait; before that the wait is the base, and
/// chance adds at most a half.
pub proof fn law_waits_end(attempt: u32, max_retries: u32, base: u64, r: Option<u64>)
    requires
        call_ensures(base_delay_ms, (attempt,), base),
        call_ensures(retry_delay_ms, (attempt, max_retries), r),
    ensures
        r is Some <==> attempt < max_retries,
        r matches Some(ms) ==> base <= ms && 2 * ms <= 3 * base,
{
}

/// The settings of a client of which only the address is said.
pub proof fn law_settings_begin_with_defaults(addr: &str, b: ClientBuilder, c: ClientConfig)
    requires
        call_ensures(ClientBuilder::new, (addr,), b),
        call_ensures(ClientBuilder::into_config, (b,), c),
    ensures
        c.addr@ == addr@ && c.token@.len() == 0 && !c.tls,
        c.pool_size == 8 && c.max_retries == 3,
{
    reveal_strlit("");
}

/// Setting `token` changes that setting alone.
pub proof fn law_token_is_set(
    a: ClientBuilder,
    b: ClientBuilder,
    token: &str,
    c: ClientConfig,
    d: ClientConfig,
)
    requires
        call_ensures(ClientBuilder::token, (a, token), b),
        call_ensures(ClientBuilder::into_config, (a,), c),
        call_ensures(ClientBuilder::into_config, (b,), d),
    ensures
        d.token@ == token@,
        d.addr@ == c.addr@,
        d.tls == c.tls,
        d.pool_size == c.pool_size,
        d.connect_timeout == c.connect_timeout,
        d.request_timeout == c.request_timeout,
        d.max_retries == c.max_retries,
{
    assert(c@ == a@ && d@ == b@);
}

/// Setting `tls` changes that setting alone.
pub proof fn law_tls_is_set(
    a: ClientBuilder,
    b: ClientBuilder,
    tls: bool,
    c: ClientConfig,
    d: ClientConfig,
)
    requires
        call_ensures(ClientBuilder::tls, (a, tls), b),
        call_ensures(ClientBuilder::into_config, (a,), c),
        call_ensures(ClientBuilder::into_config, (b,), d),
    ensures
        d.tls == tls,
        d.addr@ == c.addr@,
        d.token@ == c.token@,
        d.pool_size == c.pool_size,
        d.connect_timeout == c.connect_timeout,
        d.request_timeout == c.request_timeout,
        d.max_retries == c.max_retries,
{
    assert(c@ == a@ && d@ == b@);
}

/// Setting `pool_size` changes that setting alone.
pub proof fn law_pool_size_is_set(
    a: ClientBuilder,
    b: ClientBuilder,
    pool_size: usize,
    c: ClientConfig,
    d: ClientConfig,
)
    requires
        call_ensures(ClientBuilder::pool_size, (a, pool_size), b),
        call_ensures(ClientBuilder::into_config, (a,), c),
        call_ensures(ClientBuilder::into_config, (b,), d),
    ensures
        d.pool_size == pool_size,
        d.addr@ == c.addr@,
        d.token@ == c.token@,
        d.tls == c.tls,
        d.connect_timeout == c.connect_timeout,
        d.request_timeout == c.request_timeout,
        d.max_retries == c.max_retries,
{
    assert(c@ == a@ && d@ == b@);
}

/// Setting `max_retries` changes that setting alone.
pub proof fn law_max_retries_is_set(
    a: ClientBuilder,
    b: ClientBuilder,
    max_retries: u32,
    c: ClientConfig,
    d: ClientConfig,
)
    requires
        call_ensures(ClientBuilder::max_retries, (a, max_retries), b),
        call_ensures(ClientBuilder::into_config, (a,), c),
        call_ensures(ClientBuilder::into_config, (b,), d),
    ensures
        d.max_retries == max_retries,
        d.addr@ == c.addr@,
        d.token@ == c.token@,
        d.tls == c.tls,
        d.pool_size == c.pool_size,
        d.connect_timeout == c.connect_timeout,
        d.request_timeout == c.request_timeout,
{
    assert(c@ == a@ && d@ == b@);
}

/// Setting `connect_timeout` changes that setting alone.
pub proof fn law_connect_timeout_is_set(
    a: ClientBuilder,
    b: ClientBuilder,
    timeout: std::time::Duration,
    c: ClientConfig,
    d: ClientConfig,
)
    requires
        call_ensures(ClientBuilder::connect_timeout, (a, timeout), b),
        call_ensures(ClientBuilder::into_config, (a,), c),
        call_ensures(ClientBuilder::into_config, (b,), d),
    ensures
        d.connect_timeout == timeout,
        d.addr@ == c.addr@,
        d.token@ == c.token@,
        d.tls == c.tls,
        d.pool_size == c.pool_size,
        d.request_timeout == c.request_timeout,
        d.max_retries == c.max_retries,
{
    assert(c@ == a@ && d@ == b@);
}

/// Setting `request_timeout` changes that setting alone.
pub proof fn law_request_timeout_is_set(
    a: ClientBuilder,
    b: ClientBuilder,
    timeout: std::time::Duration,
    c: ClientConfig,
    d: ClientConfig,
)
    requires
        call_ensures(ClientBuilder::request_timeout, (a, timeout), b),
        call_ensures(ClientBuilder::into_config, (a,), c),
        call_ensures(ClientBuilder::into_config, (b,), d),
    ensures
        d.request_timeout == timeout,
        d.addr@ == c.addr@,
        d.token@ == c.token@,
        d.tls == c.tls,
        d.pool_size == c.pool_size,
        d.connect_timeout == c.connect_timeout,
        d.max_retries == c.max_retries,
{
    assert(c@ == a@ && d@ == b@);
}

} // verus!
