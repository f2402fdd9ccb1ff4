//! A client that is connected.
use crate::clock::{now, Timestamp};
use crate::text::{contains_text, texts};
use vstd::prelude::*;

verus! {

/// A client that is connected.
#[derive(Debug)]
pub struct Session {
    /// The identifier of the session.
    pub id: String,
    /// Whether the client was authenticated.
    pub authenticated: bool,
    /// What both ends can do.
    pub capabilities: Vec<String>,
    /// The subscriptions of the client, by the identifiers it chose.
    pub subscriptions: Vec<String>,
    /// When the session began.
    pub created_at: Timestamp,
}

/// The name under which the engine knows a subscription of a session.
pub open spec fn stream_name(session_id: Seq<char>, subscription_id: Seq<char>) -> Seq<char> {
    session_id + "/"@ + subscription_id
}

impl Session {
    /// A session that begins now.
    pub fn new(id: String) -> (r: Session)
        ensures
            r.id@ == id@,
            !r.authenticated,
            r.capabilities@.len() == 0,
            r.subscriptions@.len() == 0,
            r.created_at.valid(),
    {
        Session {
            id,
            authenticated: false,
            capabilities: Vec::new(),
            subscriptions: Vec::new(),
            created_at: now(),
        }
    }

    /// Whether the session and another agree on everything but subscriptions.
    pub open spec fn same_client(self, other: Session) -> bool {
        &&& self.id@ == other.id@
        &&& self.authenticated == other.authenticated
        &&& texts(self.capabilities@) == texts(other.capabilities@)
        &&& self.created_at == other.created_at
    }

    /// The name under which the engine knows a subscription.
    pub fn stream_name_of(&self, subscription_id: &str) -> (r: String)
        ensures
            r@ == stream_name(self.id@, subscription_id@),
    {
        self.id.clone().concat("/").concat(subscription_id)
    }

    /// Remembers a subscription.
    pub fn remember(&mut self, subscription_id: &str)
        ensures
            final(self).same_client(*old(self)),
            texts(final(self).subscriptions@) == (if texts(old(self).subscriptions@).contains(
                subscription_id@,
            ) {
                texts(old(self).subscriptions@)
            } else {
                texts(old(self).subscriptions@).push(subscription_id@)
            }),
    {
        if !contains_text(&self.subscriptions, subscription_id) {
            let ghost before = self.subscriptions@;
            self.subscriptions.push(subscription_id.to_owned());
            assert(texts(self.subscriptions@) =~= texts(before).push(subscription_id@));
        }
    }

    /// Forgets a subscription.
    pub fn forget(&mut self, subscription_id: &str)
        ensures
            final(self).same_client(*old(self)),
            texts(final(self).subscriptions@) == texts(old(self).subscriptions@).filter(
                |s: Seq<char>| s != subscription_id@,
            ),
    {
        let ghost all = texts(self.subscriptions@);
        let ghost stays = |s: Seq<char>| s != subscription_id@;
        let mut kept: Vec<String> = Vec::new();
        let mut i: usize = 0;
        assert(texts(kept@) =~= all.take(0).filter(stays)) by {
            reveal_with_fuel(Seq::filter, 1);
        }
        while i < self.subscriptions.len()
            invariant
                i <= self.subscriptions@.len(),
                *self == *old(self),
                all == texts(self.subscriptions@),
                stays == (|s: Seq<char>| s != subscription_id@),
                texts(kept@) == all.take(i as int).filter(stays),
            decreases self.subscriptions@.len() - i,
        {
            let ghost before = kept@;
            proof {
                assert(all[i as int] == self.subscriptions@[i as int]@);
                assert(all.take(i + 1).drop_last() =~= all.take(i as int));
                reveal_with_fuel(Seq::filter, 1);
            }
            if *self.subscriptions[i].as_str() != *subscription_id {
                kept.push(self.subscriptions[i].clone());
                assert(texts(kept@) =~= texts(before).push(all[i as int]));
            }
            i = i + 1;
        }
        assert(all.take(i as int) =~= all);
        self.subscriptions = kept;
    }
}

} // verus!
