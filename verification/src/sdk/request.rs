//! What a client asks for.
use crate::fsm::machine::MachineDefinition;
use crate::id::{fresh, is_uuid4};
use crate::json::{json_view, null, Json};
use crate::proto::constants::PROTOCOL_VERSION;
use crate::proto::messages::{
    AuthMessage, CurrentMessage, HistoryMessage, StartupMessage, SubscribeMessage,
    TransitionMessage,
};
use crate::proto::push::DefineMachineMessage;
use crate::text::{opt_text, owned_texts, texts};
use vstd::prelude::*;

verus! {

/// Gathers a request for a transition.
#[derive(Debug)]
pub struct TransitionBuilder {
    entity_id: String,
    machine: String,
    event: String,
    expected_version: Option<u64>,
    ctx: serde_json::Value,
    actor: String,
    idempotency_key: Option<String>,
}

/// The contents of a `TransitionBuilder`.
#[verifier::ext_equal]
pub struct TransitionBuilderView {
    pub entity_id: Seq<char>,
    pub machine: Seq<char>,
    pub event: Seq<char>,
    pub expected_version: Option<u64>,
    pub ctx: Json,
    pub actor: Seq<char>,
    pub idempotency_key: Option<Seq<char>>,
}

impl View for TransitionBuilder {
    type V = TransitionBuilderView;

    closed spec fn view(&self) -> TransitionBuilderView {
        TransitionBuilderView {
            entity_id: self.entity_id@,
            machine: self.machine@,
            event: self.event@,
            expected_version: self.expected_version,
            ctx: json_view(self.ctx),
            actor: self.actor@,
            idempotency_key: opt_text(self.idempotency_key),
        }
    }
}

/// The contents of a message that asks for a transition.
pub open spec fn transition_asked(m: TransitionMessage) -> TransitionBuilderView {
    TransitionBuilderView {
        entity_id: m.entity_id@,
        machine: m.machine@,
        event: m.event@,
        expected_version: m.expected_version,
        ctx: json_view(m.ctx),
        actor: m.actor@,
        idempotency_key: opt_text(m.idempotency_key),
    }
}

impl TransitionBuilder {
    /// A request to fire an event on an entity, with no context and no key, in
    /// the name of whoever is connected.
    pub fn new(entity_id: &str, machine: &str, event: &str) -> (r: Self)
        ensures
            r@ == (TransitionBuilderView {
                entity_id: entity_id@,
                machine: machine@,
                event: event@,
                expected_version: None,
                ctx: Json::Null,
                actor: Seq::empty(),
                idempotency_key: None,
            }),
    {
        proof {
            reveal_strlit("");
            assert(""@ =~= Seq::<char>::empty());
        }
        TransitionBuilder {
            entity_id: entity_id.to_owned(),
            machine: machine.to_owned(),
            event: event.to_owned(),
            expected_version: None,
            ctx: null(),
            actor: "".to_owned(),
            idempotency_key: None,
        }
    }

    /// Demands a version of the entity.
    pub fn expected_version(self, version: u64) -> (r: Self)
        ensures
            r@ == (TransitionBuilderView { expected_version: Some(version), ..self@ }),
    {
        TransitionBuilder { expected_version: Some(version), ..self }
    }

    /// Attaches context.
    pub fn ctx(self, ctx: serde_json::Value) -> (r: Self)
        ensures
            r@ == (TransitionBuilderView { ctx: json_view(ctx), ..self@ }),
    {
        TransitionBuilder { ctx, ..self }
    }

    /// Says in whose name.
    pub fn actor(self, actor: &str) -> (r: Self)
        ensures
            r@ == (TransitionBuilderView { actor: actor@, ..self@ }),
    {
        TransitionBuilder { actor: actor.to_owned(), ..self }
    }

    /// Sets the key under which the request counts once.
    pub fn idempotency_key(self, key: &str) -> (r: Self)
        ensures
            r@ == (TransitionBuilderView { idempotency_key: Some(key@), ..self@ }),
    {
        TransitionBuilder { idempotency_key: Some(key.to_owned()), ..self }
    }

    /// The request as a message.
    pub fn into_message(self, request_id: u64) -> (m: TransitionMessage)
        ensures
            m.request_id == request_id,
            transition_asked(m) == self@,
    {
        TransitionMessage {
            request_id,
            entity_id: self.entity_id,
            machine: self.machine,
            event: self.event,
            expected_version: self.expected_version,
            idempotency_key: self.idempotency_key,
            ctx: self.ctx,
            actor: self.actor,
        }
    }
}

/// Gathers a request for a history.
#[derive(Debug)]
pub struct HistoryBuilder {
    entity_id: String,
    machine: String,
    limit: Option<u32>,
    after_sequence: Option<u64>,
}

/// The contents of a `HistoryBuilder`.
#[verifier::ext_equal]
pub struct HistoryBuilderView {
    pub entity_id: Seq<char>,
    pub machine: Seq<char>,
    pub limit: Option<u32>,
    pub after_sequence: Option<u64>,
}

impl View for HistoryBuilder {
    type V = HistoryBuilderView;

    closed spec fn view(&self) -> HistoryBuilderView {
        HistoryBuilderView {
            entity_id: self.entity_id@,
            machine: self.machine@,
            limit: self.limit,
            after_sequence: self.after_sequence,
        }
    }
}

/// The contents of a message that asks for a history.
pub open spec fn history_asked(m: HistoryMessage) -> HistoryBuilderView {
    HistoryBuilderView {
        entity_id: m.entity_id@,
        machine: m.machine@,
        limit: m.limit,
        after_sequence: m.after_sequence,
    }
}

impl HistoryBuilder {
    /// A request for the whole history of an entity.
    pub fn new(entity_id: &str, machine: &str) -> (r: Self)
        ensures
            r@ == (HistoryBuilderView {
                entity_id: entity_id@,
                machine: machine@,
                limit: None,
                after_sequence: None,
            }),
    {
        HistoryBuilder {
            entity_id: entity_id.to_owned(),
            machine: machine.to_owned(),
            limit: None,
            after_sequence: None,
        }
    }

    /// Asks for no more than so many records.
    pub fn limit(self, limit: u32) -> (r: Self)
        ensures
            r@ == (HistoryBuilderView { limit: Some(limit), ..self@ }),
    {
        HistoryBuilder { limit: Some(limit), ..self }
    }

    /// Asks only for what came after a sequence number.
    pub fn after_sequence(self, seq: u64) -> (r: Self)
        ensures
            r@ == (HistoryBuilderView { after_sequence: Some(seq), ..self@ }),
    {
        HistoryBuilder { after_sequence: Some(seq), ..self }
    }

    /// The request as a message.
    pub fn into_message(self, request_id: u64) -> (m: HistoryMessage)
        ensures
            m.request_id == request_id,
            history_asked(m) == self@,
    {
        HistoryMessage {
            request_id,
            entity_id: self.entity_id,
            machine: self.machine,
            limit: self.limit,
            after_sequence: self.after_sequence,
        }
    }
}

/// The message that registers a definition.
pub fn define_message(request_id: u64, definition: MachineDefinition) -> (m: DefineMachineMessage)
    ensures
        m.request_id == request_id,
        m.name@ == definition@.name,
        m.version == definition@.version,
        m.definition@ == definition@,
{
    DefineMachineMessage {
        request_id,
        name: definition.name.clone(),
        version: definition.version,
        definition,
    }
}

/// The message that asks for the state of an entity.
pub fn current_message(request_id: u64, entity_id: &str, machine: &str) -> (m: CurrentMessage)
    ensures
        m.request_id == request_id,
        m.entity_id@ == entity_id@,
        m.machine@ == machine@,
{
    CurrentMessage { request_id, entity_id: entity_id.to_owned(), machine: machine.to_owned() }
}

/// The message that begins a subscription under a fresh name.
pub fn subscribe_message(
    request_id: u64,
    machine_filter: Option<String>,
    after_sequence: u64,
) -> (m: SubscribeMessage)
    ensures
        m.request_id == request_id,
        is_uuid4(m.subscription_id@),
        opt_text(m.machine_filter) == opt_text(machine_filter),
        m.entity_filter is None,
        m.after_sequence == after_sequence,
{
    SubscribeMessage {
        request_id,
        subscription_id: fresh(),
        machine_filter,
        entity_filter: None,
        after_sequence,
    }
}

/// The first message of a connection.
pub fn startup_message() -> (m: StartupMessage)
    ensures
        m.protocol_version == PROTOCOL_VERSION,
        texts(m.capabilities@) == seq!["subscribe"@, "history"@],
{
    let known: [&str; 2] = ["subscribe", "history"];
    let capabilities = owned_texts(&known);
    assert(texts(capabilities@) =~= seq!["subscribe"@, "history"@]);
    StartupMessage { protocol_version: PROTOCOL_VERSION, capabilities }
}

/// The message that authenticates a client.
pub fn auth_message(token: &str) -> (m: AuthMessage)
    ensures
        m.token@ == token@,
{
    AuthMessage { token: token.to_owned() }
}

} // verus!
