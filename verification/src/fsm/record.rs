//! Entities, the transitions they made, the effects those emitted, and the
//! change records that subscribers receive.
use crate::clock::{now, Timestamp};
use crate::id::{fresh, is_uuid4};
use crate::json::{json_view, Json};
use crate::text::{clone_opt_text, opt_text};
use vstd::prelude::*;

verus! {

/// Where an entity stands in a machine.
#[derive(Debug)]
pub struct EntityState {
    pub entity_id: String,
    pub machine: String,
    pub current_state: String,
    pub version: u64,
    pub updated_at: Timestamp,
    pub created_at: Timestamp,
}

/// The contents of an `EntityState`.
#[verifier::ext_equal]
pub struct EntityView {
    pub entity_id: Seq<char>,
    pub machine: Seq<char>,
    pub current_state: Seq<char>,
    pub version: u64,
    pub updated_at: Timestamp,
    pub created_at: Timestamp,
}

impl View for EntityState {
    type V = EntityView;

    open spec fn view(&self) -> EntityView {
        EntityView {
            entity_id: self.entity_id@,
            machine: self.machine@,
            current_state: self.current_state@,
            version: self.version,
            updated_at: self.updated_at,
            created_at: self.created_at,
        }
    }
}

impl Clone for EntityState {
    fn clone(&self) -> (r: Self)
        ensures
            r@ == self@,
    {
        EntityState {
            entity_id: self.entity_id.clone(),
            machine: self.machine.clone(),
            current_state: self.current_state.clone(),
            version: self.version,
            updated_at: self.updated_at,
            created_at: self.created_at,
        }
    }
}

/// One transition that was made.
#[derive(Debug)]
pub struct TransitionRecord {
    pub id: String,
    /// Zero until the store assigns a number.
    pub sequence: u64,
    pub entity_id: String,
    pub machine: String,
    pub from_state: String,
    pub to_state: String,
    pub event: String,
    pub actor: String,
    pub ctx: serde_json::Value,
    pub idempotency_key: Option<String>,
    /// The version that the entity has after the transition.
    pub version: u64,
    pub timestamp: Timestamp,
}

/// The contents of a `TransitionRecord`; the context by its JSON value.
#[verifier::ext_equal]
pub struct RecordView {
    pub id: Seq<char>,
    pub sequence: u64,
    pub entity_id: Seq<char>,
    pub machine: Seq<char>,
    pub from_state: Seq<char>,
    pub to_state: Seq<char>,
    pub event: Seq<char>,
    pub actor: Seq<char>,
    pub ctx: Json,
    pub idempotency_key: Option<Seq<char>>,
    pub version: u64,
    pub timestamp: Timestamp,
}

impl View for TransitionRecord {
    type V = RecordView;

    open spec fn view(&self) -> RecordView {
        RecordView {
            id: self.id@,
            sequence: self.sequence,
            entity_id: self.entity_id@,
            machine: self.machine@,
            from_state: self.from_state@,
            to_state: self.to_state@,
            event: self.event@,
            actor: self.actor@,
            ctx: json_view(self.ctx),
            idempotency_key: opt_text(self.idempotency_key),
            version: self.version,
            timestamp: self.timestamp,
        }
    }
}

impl Clone for TransitionRecord {
    fn clone(&self) -> (r: Self)
        ensures
            r@ == self@,
    {
        TransitionRecord {
            id: self.id.clone(),
            sequence: self.sequence,
            entity_id: self.entity_id.clone(),
            machine: self.machine.clone(),
            from_state: self.from_state.clone(),
            to_state: self.to_state.clone(),
            event: self.event.clone(),
            actor: self.actor.clone(),
            ctx: self.ctx.clone(),
            idempotency_key: clone_opt_text(&self.idempotency_key),
            version: self.version,
            timestamp: self.timestamp,
        }
    }
}

/// Where an effect stands on its way out.
#[derive(Debug, Clone, Copy, PartialEq, Eq, Structural)]
pub enum EffectStatus {
    Pending,
    Published,
    Failed,
}

impl EffectStatus {
    /// The name of the status.
    pub open spec fn name_of(self) -> Seq<char> {
        match self {
            EffectStatus::Pending => "pending"@,
            EffectStatus::Published => "published"@,
            EffectStatus::Failed => "failed"@,
        }
    }

    /// The status with a name.
    pub open spec fn named(name: Seq<char>) -> Option<EffectStatus> {
        if name == "pending"@ {
            Some(EffectStatus::Pending)
        } else if name == "published"@ {
            Some(EffectStatus::Published)
        } else if name == "failed"@ {
            Some(EffectStatus::Failed)
        } else {
            None
        }
    }

    /// The name of the status.
    pub fn name(&self) -> (r: String)
        ensures
            r@ == self.name_of(),
    {
        match self {
            EffectStatus::Pending => "pending".to_owned(),
            EffectStatus::Published => "published".to_owned(),
            EffectStatus::Failed => "failed".to_owned(),
        }
    }

    /// The status with the name `name`, if there is one.
    pub fn from_name(name: &str) -> (r: Option<EffectStatus>)
        ensures
            r == EffectStatus::named(name@),
    {
        if *name == *"pending" {
            Some(EffectStatus::Pending)
        } else if *name == *"published" {
            Some(EffectStatus::Published)
        } else if *name == *"failed" {
            Some(EffectStatus::Failed)
        } else {
            None
        }
    }
}

/// Reading the name of a status gives the status back.
pub proof fn law_status_names(s: EffectStatus)
    ensures
        EffectStatus::named(s.name_of()) == Some(s),
{
    reveal_strlit("pending");
    reveal_strlit("published");
    reveal_strlit("failed");
    assert("pending"@.len() == 7 && "published"@.len() == 9 && "failed"@.len() == 6);
}

/// An effect waiting in the outbox, or gone out of it.
#[derive(Debug)]
pub struct Effect {
    pub id: String,
    pub transition_id: String,
    pub effect_name: String,
    pub payload: serde_json::Value,
    pub status: EffectStatus,
    pub created_at: Timestamp,
}

/// The contents of an `Effect`; the payload by its JSON value.
#[verifier::ext_equal]
pub struct EffectView {
    pub id: Seq<char>,
    pub transition_id: Seq<char>,
    pub effect_name: Seq<char>,
    pub payload: Json,
    pub status: EffectStatus,
    pub created_at: Timestamp,
}

impl View for Effect {
    type V = EffectView;

    open spec fn view(&self) -> EffectView {
        EffectView {
            id: self.id@,
            transition_id: self.transition_id@,
            effect_name: self.effect_name@,
            payload: json_view(self.payload),
            status: self.status,
            created_at: self.created_at,
        }
    }
}

impl Clone for Effect {
    fn clone(&self) -> (r: Self)
        ensures
            r@ == self@,
    {
        Effect {
            id: self.id.clone(),
            transition_id: self.transition_id.clone(),
            effect_name: self.effect_name.clone(),
            payload: self.payload.clone(),
            status: self.status,
            created_at: self.created_at,
        }
    }
}

/// The contents of a sequence of effects.
pub open spec fn effect_views(s: Seq<Effect>) -> Seq<EffectView> {
    Seq::new(s.len(), |i: int| s[i]@)
}

/// The contents of a sequence of transition records.
pub open spec fn record_views(s: Seq<TransitionRecord>) -> Seq<RecordView> {
    Seq::new(s.len(), |i: int| s[i]@)
}

/// The contents of a sequence of entity states.
pub open spec fn entity_views(s: Seq<EntityState>) -> Seq<EntityView> {
    Seq::new(s.len(), |i: int| s[i]@)
}

impl Effect {
    /// A pending effect, with a fresh identifier and the current time.
    pub fn new(
        transition_id: String,
        effect_name: String,
        payload: serde_json::Value,
    ) -> (r: Effect)
        ensures
            is_uuid4(r.id@),
            r.created_at.valid(),
            r@ == (EffectView {
                id: r.id@,
                transition_id: transition_id@,
                effect_name: effect_name@,
                payload: json_view(payload),
                status: EffectStatus::Pending,
                created_at: r.created_at,
            }),
    {
        Effect {
            id: fresh(),
            transition_id,
            effect_name,
            payload,
            status: EffectStatus::Pending,
            created_at: now(),
        }
    }
}

/// An effect as subscribers see it.
#[derive(Debug)]
pub struct EffectPayload {
    pub effect_name: String,
    pub payload: serde_json::Value,
}

/// The contents of an `EffectPayload`.
#[verifier::ext_equal]
pub struct EffectPayloadView {
    pub effect_name: Seq<char>,
    pub payload: Json,
}

impl View for EffectPayload {
    type V = EffectPayloadView;

    open spec fn view(&self) -> EffectPayloadView {
        EffectPayloadView { effect_name: self.effect_name@, payload: json_view(self.payload) }
    }
}

impl Clone for EffectPayload {
    fn clone(&self) -> (r: Self)
        ensures
            r@ == self@,
    {
        EffectPayload { effect_name: self.effect_name.clone(), payload: self.payload.clone() }
    }
}

/// The contents of a sequence of effect payloads.
pub open spec fn payload_views(s: Seq<EffectPayload>) -> Seq<EffectPayloadView> {
    Seq::new(s.len(), |i: int| s[i]@)
}

/// What a subscriber hears of one transition.
#[derive(Debug)]
pub struct ChangeRecord {
    pub sequence: u64,
    pub transition_id: String,
    pub entity_id: String,
    pub machine: String,
    pub from_state: String,
    pub to_state: String,
    pub event: String,
    pub actor: String,
    pub version: u64,
    pub timestamp: Timestamp,
    pub ctx: serde_json::Value,
    pub effects: Vec<EffectPayload>,
}

/// The contents of a `ChangeRecord`.
#[verifier::ext_equal]
pub struct ChangeView {
    pub sequence: u64,
    pub transition_id: Seq<char>,
    pub entity_id: Seq<char>,
    pub machine: Seq<char>,
    pub from_state: Seq<char>,
    pub to_state: Seq<char>,
    pub event: Seq<char>,
    pub actor: Seq<char>,
    pub version: u64,
    pub timestamp: Timestamp,
    pub ctx: Json,
    pub effects: Seq<EffectPayloadView>,
}

impl View for ChangeRecord {
    type V = ChangeView;

    open spec fn view(&self) -> ChangeView {
        ChangeView {
            sequence: self.sequence,
            transition_id: self.transition_id@,
            entity_id: self.entity_id@,
            machine: self.machine@,
            from_state: self.from_state@,
            to_state: self.to_state@,
            event: self.event@,
            actor: self.actor@,
            version: self.version,
            timestamp: self.timestamp,
            ctx: json_view(self.ctx),
            effects: payload_views(self.effects@),
        }
    }
}

/// Copies a list of effect payloads.
fn clone_payloads(v: &Vec<EffectPayload>) -> (r: Vec<EffectPayload>)
    ensures
        payload_views(r@) == payload_views(v@),
{
    let mut r: Vec<EffectPayload> = Vec::new();
    let mut i: usize = 0;
    while i < v.len()
        invariant
            i <= v.len(),
            r.len() == i,
            forall|j: int| 0 <= j < i ==> r[j]@ == v[j]@,
        decreases v.len() - i,
    {
        r.push(v[i].clone());
        i = i + 1;
    }
    assert(payload_views(r@) =~= payload_views(v@));
    r
}

impl Clone for ChangeRecord {
    fn clone(&self) -> (r: Self)
        ensures
            r@ == self@,
    {
        ChangeRecord {
            sequence: self.sequence,
            transition_id: self.transition_id.clone(),
            entity_id: self.entity_id.clone(),
            machine: self.machine.clone(),
            from_state: self.from_state.clone(),
            to_state: self.to_state.clone(),
            event: self.event.clone(),
            actor: self.actor.clone(),
            version: self.version,
            timestamp: self.timestamp,
            ctx: self.ctx.clone(),
            effects: clone_payloads(&self.effects),
        }
    }
}

} // verus!
