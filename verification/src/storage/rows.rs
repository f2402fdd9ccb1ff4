//! How machines, entities, transitions and effects are written as bytes: each a
//! MessagePack array of its fields, with instants as RFC 3339 text.
use crate::clock::{instant_at, parse_rfc3339, rfc3339, Timestamp};
use crate::fsm::machine::{
    rule_views, EffectRule, EffectRuleView, MachineDefinition, MachineView, RuleView,
    TransitionRule,
};
use crate::fsm::record::{
    law_status_names, Effect, EffectStatus, EffectView, EntityState, EntityView, RecordView,
    TransitionRecord,
};
use crate::json::{json_view, null, Json};
use crate::storage::error::StorageError;
use crate::text::{clone_opt_text, clone_texts, opt_text, texts};
use vstd::prelude::*;

verus! {

/// A row of an entity: identifier, machine, state, version, time of the last
/// change, time of creation.
pub type EntityRow = (String, String, String, u64, String, String);

/// A row of an effect: identifier, transition, name, payload, status, time.
pub type EffectRow = (String, String, String, serde_json::Value, String, String);

/// A row of a transition: identifier, sequence, entity, machine, from-state,
/// to-state, event, actor, context, idempotency key, version, time.
pub type RecordRow = (
    String,
    u64,
    String,
    String,
    String,
    String,
    String,
    String,
    serde_json::Value,
    Option<String>,
    u64,
    String,
);

/// A rule in the row of a machine: event, from-states, to-state, guards.
pub type RuleRow = (String, Vec<String>, String, Vec<String>);

/// An effect rule in the row of a machine: event, effect, payload. A rule
/// without a payload has the null value there.
pub type EffectRuleRow = (String, String, serde_json::Value);

/// A row of a machine: name, version, states, initial state, rules, effect
/// rules, time of creation.
pub type MachineRow = (
    String,
    u32,
    Vec<String>,
    String,
    Vec<RuleRow>,
    Vec<EffectRuleRow>,
    String,
);

/// The contents of an `EntityRow`.
pub struct EntityRowView {
    pub entity_id: Seq<char>,
    pub machine: Seq<char>,
    pub current_state: Seq<char>,
    pub version: u64,
    pub updated_at: Seq<char>,
    pub created_at: Seq<char>,
}

/// The contents of an `EffectRow`.
pub struct EffectRowView {
    pub id: Seq<char>,
    pub transition_id: Seq<char>,
    pub effect_name: Seq<char>,
    pub payload: Json,
    pub status: Seq<char>,
    pub created_at: Seq<char>,
}

/// The contents of a `RecordRow`.
pub struct RecordRowView {
    pub id: Seq<char>,
    pub sequence: u64,
    pub entity_id: Seq<char>,
    pub machine: Seq<char>,
    pub from_state: Seq<char>,
    pub to_state: Seq<char>,
    pub event: Seq<char>,
    pub actor: Seq<char>,
    pub ctx: Json,
    pub idempotency_key: Option<Seq<char>>,
    pub version: u64,
    pub timestamp: Seq<char>,
}

/// The contents of an `EffectRuleRow`.
pub struct EffectRuleRowView {
    pub on_event: Seq<char>,
    pub effect: Seq<char>,
    pub payload: Json,
}

/// The contents of a `MachineRow`.
#[verifier::ext_equal]
pub struct MachineRowView {
    pub name: Seq<char>,
    pub version: u32,
    pub states: Seq<Seq<char>>,
    pub initial_state: Seq<char>,
    pub transitions: Seq<RuleView>,
    pub effects: Seq<EffectRuleRowView>,
    pub created_at: Seq<char>,
}

/// The contents of an entity row.
pub open spec fn entity_row_view(r: EntityRow) -> EntityRowView {
    EntityRowView {
        entity_id: r.0@,
        machine: r.1@,
        current_state: r.2@,
        version: r.3,
        updated_at: r.4@,
        created_at: r.5@,
    }
}

/// The contents of an effect row.
pub open spec fn effect_row_view(r: EffectRow) -> EffectRowView {
    EffectRowView {
        id: r.0@,
        transition_id: r.1@,
        effect_name: r.2@,
        payload: json_view(r.3),
        status: r.4@,
        created_at: r.5@,
    }
}

/// The contents of a transition row.
pub open spec fn record_row_view(r: RecordRow) -> RecordRowView {
    RecordRowView {
        id: r.0@,
        sequence: r.1,
        entity_id: r.2@,
        machine: r.3@,
        from_state: r.4@,
        to_state: r.5@,
        event: r.6@,
        actor: r.7@,
        ctx: json_view(r.8),
        idempotency_key: opt_text(r.9),
        version: r.10,
        timestamp: r.11@,
    }
}

/// The contents of the rule rows of a machine.
pub open spec fn rule_row_views(s: Seq<RuleRow>) -> Seq<RuleView> {
    Seq::new(
        s.len(),
        |i: int|
            RuleView {
                event: s[i].0@,
                from_states: texts(s[i].1@),
                to_state: s[i].2@,
                guards: texts(s[i].3@),
            },
    )
}

/// The contents of the effect rule rows of a machine.
pub open spec fn effect_rule_row_views(s: Seq<EffectRuleRow>) -> Seq<EffectRuleRowView> {
    Seq::new(
        s.len(),
        |i: int|
            EffectRuleRowView {
                on_event: s[i].0@,
                effect: s[i].1@,
                payload: json_view(s[i].2),
            },
    )
}

/// The contents of a machine row.
pub open spec fn machine_row_view(r: MachineRow) -> MachineRowView {
    MachineRowView {
        name: r.0@,
        version: r.1,
        states: texts(r.2@),
        initial_state: r.3@,
        transitions: rule_row_views(r.4@),
        effects: effect_rule_row_views(r.5@),
        created_at: r.6@,
    }
}

/// A row in its encoded form: the row that the bytes stand for, and whether
/// they can be decoded. Bytes that stand for a row cannot be decoded where a
/// value in it is nested too deeply.
pub struct Coded<R> {
    pub readable: bool,
    pub row: R,
}

/// Bytes that decode to a row.
pub open spec fn readable<R>(row: R) -> Coded<R> {
    Coded { readable: true, row }
}

/// How bytes decode to an entity row.
pub uninterp spec fn entity_row(bytes: Seq<u8>) -> Coded<EntityRowView>;

/// How bytes decode to an effect row.
pub uninterp spec fn effect_row(bytes: Seq<u8>) -> Coded<EffectRowView>;

/// How bytes decode to a transition row.
pub uninterp spec fn record_row(bytes: Seq<u8>) -> Coded<RecordRowView>;

/// How bytes decode to a machine row.
pub uninterp spec fn machine_row(bytes: Seq<u8>) -> Coded<MachineRowView>;

/// Whether no payload in the row of a machine is nested too deeply to be read.
pub open spec fn payloads_are_shallow(effects: Seq<EffectRuleRowView>) -> bool {
    forall|i: int| 0 <= i < effects.len() ==> (#[trigger] effects[i]).payload.nests_within(1020)
}

/// `rmp_serde::to_vec` on an entity row. The bytes decode to the row, unless
/// they are so many that a length in them does not fit 32 bits. Writing succeeds
/// as long as there is memory.
#[verifier::external_body]
fn pack_entity(row: &EntityRow) -> (r: Result<Vec<u8>, rmp_serde::encode::Error>)
    ensures
        r is Ok,
        r matches Ok(b) ==> b@.len() <= u32::MAX ==> entity_row(b@) == readable(
            entity_row_view(*row),
        ),
{
    rmp_serde::to_vec(row)
}

/// `rmp_serde::from_slice` into an entity row.
#[verifier::external_body]
fn unpack_entity(bytes: &Vec<u8>) -> (r: Result<EntityRow, rmp_serde::decode::Error>)
    ensures
        match r {
            Ok(row) => entity_row(bytes@) == readable(entity_row_view(row)),
            Err(_) => !entity_row(bytes@).readable,
        },
{
    rmp_serde::from_slice(bytes)
}

/// `rmp_serde::to_vec` on an effect row; as `pack_entity`, but that a payload
/// may be nested too deeply to be decoded.
#[verifier::external_body]
fn pack_effect(row: &EffectRow) -> (r: Result<Vec<u8>, rmp_serde::encode::Error>)
    ensures
        r is Ok,
        r matches Ok(b) ==> b@.len() <= u32::MAX ==> {
            &&& effect_row(b@).row == effect_row_view(*row)
            &&& json_view(
                row.3,
            ).nests_within(1022) ==> effect_row(b@).readable
        },
{
    rmp_serde::to_vec(row)
}

/// `rmp_serde::from_slice` into an effect row.
#[verifier::external_body]
fn unpack_effect(bytes: &Vec<u8>) -> (r: Result<EffectRow, rmp_serde::decode::Error>)
    ensures
        match r {
            Ok(row) => effect_row(bytes@) == readable(effect_row_view(row)),
            Err(_) => !effect_row(bytes@).readable,
        },
{
    rmp_serde::from_slice(bytes)
}

/// `rmp_serde::to_vec` on a transition row; as `pack_entity`, but that a context
/// may be nested too deeply to be decoded.
#[verifier::external_body]
fn pack_record(row: &RecordRow) -> (r: Result<Vec<u8>, rmp_serde::encode::Error>)
    ensures
        r is Ok,
        r matches Ok(b) ==> b@.len() <= u32::MAX ==> {
            &&& record_row(b@).row == record_row_view(*row)
            &&& json_view(
                row.8,
            ).nests_within(1022) ==> record_row(b@).readable
        },
{
    rmp_serde::to_vec(row)
}

/// `rmp_serde::from_slice` into a transition row.
#[verifier::external_body]
fn unpack_record(bytes: &Vec<u8>) -> (r: Result<RecordRow, rmp_serde::decode::Error>)
    ensures
        match r {
            Ok(row) => record_row(bytes@) == readable(record_row_view(row)),
            Err(_) => !record_row(bytes@).readable,
        },
{
    rmp_serde::from_slice(bytes)
}

/// `rmp_serde::to_vec` on a machine row; as `pack_entity`, but that a payload
/// may be nested too deeply to be decoded.
#[verifier::external_body]
fn pack_machine(row: &MachineRow) -> (r: Result<Vec<u8>, rmp_serde::encode::Error>)
    ensures
        r is Ok,
        r matches Ok(b) ==> b@.len() <= u32::MAX ==> {
            &&& machine_row(b@).row == machine_row_view(*row)
            &&& payloads_are_shallow(
                machine_row_view(*row).effects,
            ) ==> machine_row(b@).readable
        },
{
    rmp_serde::to_vec(row)
}

/// `rmp_serde::from_slice` into a machine row.
#[verifier::external_body]
fn unpack_machine(bytes: &Vec<u8>) -> (r: Result<MachineRow, rmp_serde::decode::Error>)
    ensures
        match r {
            Ok(row) => machine_row(bytes@) == readable(machine_row_view(row)),
            Err(_) => !machine_row(bytes@).readable,
        },
{
    rmp_serde::from_slice(bytes)
}

// ---------------------------------------------------------------------------
// What bytes stand for
// ---------------------------------------------------------------------------

/// The instant that a text stands for; the epoch where it stands for none.
pub open spec fn instant(text: Seq<char>) -> Timestamp {
    match instant_at(text) {
        Some(t) => Timestamp { secs: t.0, nanos: t.1 },
        None => Timestamp { secs: 0, nanos: 0 },
    }
}

/// The entity that bytes stand for.
pub open spec fn entity_of(bytes: Seq<u8>) -> EntityView {
    entity_from(entity_row(bytes).row)
}

/// The entity that a row stands for.
pub open spec fn entity_from(r: EntityRowView) -> EntityView {
    EntityView {
        entity_id: r.entity_id,
        machine: r.machine,
        current_state: r.current_state,
        version: r.version,
        updated_at: instant(r.updated_at),
        created_at: instant(r.created_at),
    }
}

/// The effect that bytes stand for.
pub open spec fn effect_of(bytes: Seq<u8>) -> EffectView {
    effect_from(effect_row(bytes).row)
}

/// The effect that a row stands for.
pub open spec fn effect_from(r: EffectRowView) -> EffectView {
    EffectView {
        id: r.id,
        transition_id: r.transition_id,
        effect_name: r.effect_name,
        payload: r.payload,
        status: match EffectStatus::named(r.status) {
            Some(s) => s,
            None => EffectStatus::Pending,
        },
        created_at: instant(r.created_at),
    }
}

/// The transition that bytes stand for.
pub open spec fn record_of(bytes: Seq<u8>) -> RecordView {
    record_from(record_row(bytes).row)
}

/// The transition that a row stands for.
pub open spec fn record_from(r: RecordRowView) -> RecordView {
    RecordView {
        id: r.id,
        sequence: r.sequence,
        entity_id: r.entity_id,
        machine: r.machine,
        from_state: r.from_state,
        to_state: r.to_state,
        event: r.event,
        actor: r.actor,
        ctx: r.ctx,
        idempotency_key: r.idempotency_key,
        version: r.version,
        timestamp: instant(r.timestamp),
    }
}

/// Whether an entity can be read from bytes.
pub open spec fn entity_reads(bytes: Seq<u8>) -> bool {
    let r = entity_row(bytes);
    r.readable && instant_at(r.row.updated_at) is Some && instant_at(r.row.created_at) is Some
}

/// Whether an effect can be read from bytes.
pub open spec fn effect_reads(bytes: Seq<u8>) -> bool {
    let r = effect_row(bytes);
    r.readable && instant_at(r.row.created_at) is Some && EffectStatus::named(r.row.status) is Some
}

/// Whether a transition can be read from bytes.
pub open spec fn record_reads(bytes: Seq<u8>) -> bool {
    let r = record_row(bytes);
    r.readable && instant_at(r.row.timestamp) is Some
}

/// Whether a machine can be read from bytes.
pub open spec fn machine_reads(bytes: Seq<u8>) -> bool {
    let r = machine_row(bytes);
    r.readable && instant_at(r.row.created_at) is Some
}

/// Whether no payload of a definition is nested too deeply to be read.
pub open spec fn is_shallow(m: MachineView) -> bool {
    forall|i: int|
        0 <= i < m.effects.len() ==> ((#[trigger] m.effects[i]).payload matches Some(p)
            ==> p.nests_within(1020))
}

/// A payload as a store keeps it: the null value is no payload.
pub open spec fn settled_payload(p: Option<Json>) -> Option<Json> {
    if p == Some(Json::Null) {
        None
    } else {
        p
    }
}

/// A payload as it is written: the null value where there is none.
pub open spec fn payload_or_null(p: Option<Json>) -> Json {
    match p {
        Some(j) => j,
        None => Json::Null,
    }
}

/// An effect rule as a store keeps it.
pub open spec fn settled_rule(e: EffectRuleView) -> EffectRuleView {
    EffectRuleView { payload: settled_payload(e.payload), ..e }
}

/// A definition as a store keeps it.
pub open spec fn settled(m: MachineView) -> MachineView {
    MachineView {
        effects: Seq::new(m.effects.len(), |i: int| settled_rule(m.effects[i])),
        ..m
    }
}

/// The machine that bytes stand for.
pub open spec fn machine_of(bytes: Seq<u8>) -> MachineView {
    machine_from(machine_row(bytes).row)
}

/// The machine that a row stands for.
pub open spec fn machine_from(r: MachineRowView) -> MachineView {
    MachineView {
        name: r.name,
        version: r.version,
        states: r.states,
        initial_state: r.initial_state,
        transitions: r.transitions,
        effects: Seq::new(
            r.effects.len(),
            |i: int|
                EffectRuleView {
                    on_event: r.effects[i].on_event,
                    effect: r.effects[i].effect,
                    payload: settled_payload(Some(r.effects[i].payload)),
                },
        ),
        created_at: instant(r.created_at),
    }
}

// ---------------------------------------------------------------------------
// Writing and reading
// ---------------------------------------------------------------------------

/// The text of an instant, or why there is none.
fn instant_out(t: &Timestamp) -> (r: Result<String, StorageError>)
    ensures
        match r {
            Ok(s) => t.valid() && instant_at(s@) is Some && instant(s@) == *t,
            Err(e) => !t.valid() && e is Corrupted,
        },
{
    match rfc3339(t) {
        Some(s) => Ok(s),
        None => Err(
            StorageError::Corrupted("serialization error: instant out of range".to_owned()),
        ),
    }
}

/// The instant of a text, or why there is none.
fn instant_in(s: &str) -> (r: Result<Timestamp, StorageError>)
    ensures
        match r {
            Ok(t) => instant_at(s@) is Some && instant(s@) == t,
            Err(e) => instant_at(s@) is None && e is Corrupted,
        },
{
    match parse_rfc3339(s) {
        Some(t) => Ok(t),
        None => Err(
            StorageError::Corrupted("deserialization error: invalid instant".to_owned()),
        ),
    }
}

/// Accepts encoded bytes whose lengths all fit 32 bits.
fn sized(r: Result<Vec<u8>, rmp_serde::encode::Error>) -> (out: Result<Vec<u8>, StorageError>)
    ensures
        match out {
            Ok(b) => r == Ok::<Vec<u8>, rmp_serde::encode::Error>(b) && b@.len() <= u32::MAX,
            Err(e) => e is Corrupted && (r matches Ok(b) ==> b@.len() > u32::MAX),
        },
{
    match r {
        Ok(b) => if b.len() as u64 <= u32::MAX as u64 {
            Ok(b)
        } else {
            Err(StorageError::Corrupted("serialization error: row too large".to_owned()))
        },
        Err(e) => Err(StorageError::of_encode(e)),
    }
}

/// Whether an entity cannot be written: an instant of it is out of range, or its
/// row takes more bytes than 32 bits can count.
pub closed spec fn entity_unwritten(e: EntityView) -> bool {
    ||| !e.updated_at.valid()
    ||| !e.created_at.valid()
    ||| exists|row: EntityRow, b: Vec<u8>|
        entity_from(entity_row_view(row)) == e && b@.len() > u32::MAX
            && #[trigger] call_ensures(pack_entity, (&row,), Ok(b))
}

/// Whether an effect cannot be written.
pub closed spec fn effect_unwritten(e: EffectView) -> bool {
    ||| !e.created_at.valid()
    ||| exists|row: EffectRow, b: Vec<u8>|
        effect_from(effect_row_view(row)) == e && b@.len() > u32::MAX
            && #[trigger] call_ensures(pack_effect, (&row,), Ok(b))
}

/// Whether a transition cannot be written.
pub closed spec fn record_unwritten(t: RecordView) -> bool {
    ||| !t.timestamp.valid()
    ||| exists|row: RecordRow, b: Vec<u8>|
        record_from(record_row_view(row)) == t && b@.len() > u32::MAX
            && #[trigger] call_ensures(pack_record, (&row,), Ok(b))
}

/// Whether a definition cannot be written.
pub closed spec fn machine_unwritten(m: MachineView) -> bool {
    ||| !m.created_at.valid()
    ||| exists|row: MachineRow, b: Vec<u8>|
        machine_from(machine_row_view(row)) == settled(m) && b@.len() > u32::MAX
            && #[trigger] call_ensures(pack_machine, (&row,), Ok(b))
}

/// Writes an entity.
pub fn write_entity(e: &EntityState) -> (r: Result<Vec<u8>, StorageError>)
    ensures
        match r {
            Ok(b) => {
                &&& entity_of(b@) == e@
                &&& entity_reads(b@)
                &&& e.updated_at.valid() && e.created_at.valid()
            },
            Err(x) => x is Corrupted && entity_unwritten(e@),
        },
{
    let updated_at = instant_out(&e.updated_at)?;
    let created_at = instant_out(&e.created_at)?;
    let row: EntityRow = (
        e.entity_id.clone(),
        e.machine.clone(),
        e.current_state.clone(),
        e.version,
        updated_at,
        created_at,
    );
    let packed = pack_entity(&row);
    proof {
        assert(entity_from(entity_row_view(row)) == e@);
        assert(call_ensures(pack_entity, (&row,), packed));
    }
    sized(packed)
}

/// Reads an entity.
pub fn read_entity(bytes: &Vec<u8>) -> (r: Result<EntityState, StorageError>)
    ensures
        match r {
            Ok(e) => entity_reads(bytes@) && e@ == entity_of(bytes@),
            Err(x) => !entity_reads(bytes@) && x is Corrupted,
        },
{
    match unpack_entity(bytes) {
        Ok(row) => {
            let updated_at = instant_in(row.4.as_str())?;
            let created_at = instant_in(row.5.as_str())?;
            Ok(
                EntityState {
                    entity_id: row.0,
                    machine: row.1,
                    current_state: row.2,
                    version: row.3,
                    updated_at,
                    created_at,
                },
            )
        },
        Err(e) => Err(StorageError::of_decode(e)),
    }
}

/// Writes an effect.
pub fn write_effect(e: &Effect) -> (r: Result<Vec<u8>, StorageError>)
    ensures
        match r {
            Ok(b) => {
                &&& effect_of(b@) == e@
                &&& e@.payload.nests_within(1022) ==> effect_reads(b@)
                &&& e.created_at.valid()
            },
            Err(x) => x is Corrupted && effect_unwritten(e@),
        },
{
    proof {
        law_status_names(e.status);
    }
    let created_at = instant_out(&e.created_at)?;
    let row: EffectRow = (
        e.id.clone(),
        e.transition_id.clone(),
        e.effect_name.clone(),
        e.payload.clone(),
        e.status.name(),
        created_at,
    );
    let packed = pack_effect(&row);
    proof {
        assert(effect_from(effect_row_view(row)) == e@);
        assert(call_ensures(pack_effect, (&row,), packed));
    }
    sized(packed)
}

/// Reads an effect.
pub fn read_effect(bytes: &Vec<u8>) -> (r: Result<Effect, StorageError>)
    ensures
        match r {
            Ok(e) => effect_reads(bytes@) && e@ == effect_of(bytes@),
            Err(x) => !effect_reads(bytes@) && x is Corrupted,
        },
{
    match unpack_effect(bytes) {
        Ok(row) => {
            let created_at = instant_in(row.5.as_str())?;
            match EffectStatus::from_name(row.4.as_str()) {
                Some(status) => Ok(
                    Effect {
                        id: row.0,
                        transition_id: row.1,
                        effect_name: row.2,
                        payload: row.3,
                        status,
                        created_at,
                    },
                ),
                None => Err(
                    StorageError::Corrupted(
                        "deserialization error: unknown effect status".to_owned(),
                    ),
                ),
            }
        },
        Err(e) => Err(StorageError::of_decode(e)),
    }
}

/// Writes a transition.
pub fn write_record(t: &TransitionRecord) -> (r: Result<Vec<u8>, StorageError>)
    ensures
        match r {
            Ok(b) => {
                &&& record_of(b@) == t@
                &&& t@.ctx.nests_within(1022) ==> record_reads(b@)
                &&& t.timestamp.valid()
            },
            Err(x) => x is Corrupted && record_unwritten(t@),
        },
{
    let timestamp = instant_out(&t.timestamp)?;
    let row: RecordRow = (
        t.id.clone(),
        t.sequence,
        t.entity_id.clone(),
        t.machine.clone(),
        t.from_state.clone(),
        t.to_state.clone(),
        t.event.clone(),
        t.actor.clone(),
        t.ctx.clone(),
        clone_opt_text(&t.idempotency_key),
        t.version,
        timestamp,
    );
    let packed = pack_record(&row);
    proof {
        assert(record_from(record_row_view(row)) == t@);
        assert(call_ensures(pack_record, (&row,), packed));
    }
    sized(packed)
}

/// Reads a transition.
pub fn read_record(bytes: &Vec<u8>) -> (r: Result<TransitionRecord, StorageError>)
    ensures
        match r {
            Ok(t) => record_reads(bytes@) && t@ == record_of(bytes@),
            Err(x) => !record_reads(bytes@) && x is Corrupted,
        },
{
    match unpack_record(bytes) {
        Ok(row) => {
            let timestamp = instant_in(row.11.as_str())?;
            Ok(
                TransitionRecord {
                    id: row.0,
                    sequence: row.1,
                    entity_id: row.2,
                    machine: row.3,
                    from_state: row.4,
                    to_state: row.5,
                    event: row.6,
                    actor: row.7,
                    ctx: row.8,
                    idempotency_key: row.9,
                    version: row.10,
                    timestamp,
                },
            )
        },
        Err(e) => Err(StorageError::of_decode(e)),
    }
}

/// The rows of a list of rules.
fn rule_rows(v: &Vec<TransitionRule>) -> (r: Vec<RuleRow>)
    ensures
        rule_row_views(r@) == rule_views(v@),
{
    let mut r: Vec<RuleRow> = Vec::new();
    let mut i: usize = 0;
    while i < v.len()
        invariant
            i <= v.len(),
            r.len() == i,
            forall|j: int| 0 <= j < i ==> rule_row_views(r@)[j] == v[j]@,
        decreases v.len() - i,
    {
        let ghost before = r@;
        r.push(
            (
                v[i].event.clone(),
                clone_texts(&v[i].from_states),
                v[i].to_state.clone(),
                clone_texts(&v[i].guards),
            ),
        );
        assert forall|j: int| 0 <= j < i implies rule_row_views(r@)[j] == v[j]@ by {
            assert(rule_row_views(before)[j] == v[j]@);
        }
        i = i + 1;
    }
    assert(rule_row_views(r@) =~= rule_views(v@));
    r
}

/// The rules of a list of rows.
fn rules_of_rows(v: Vec<RuleRow>) -> (r: Vec<TransitionRule>)
    ensures
        rule_views(r@) == rule_row_views(v@),
{
    let mut r: Vec<TransitionRule> = Vec::new();
    let mut i: usize = 0;
    while i < v.len()
        invariant
            i <= v.len(),
            r.len() == i,
            forall|j: int| 0 <= j < i ==> r[j]@ == rule_row_views(v@)[j],
        decreases v.len() - i,
    {
        r.push(
            TransitionRule {
                event: v[i].0.clone(),
                from_states: clone_texts(&v[i].1),
                to_state: v[i].2.clone(),
                guards: clone_texts(&v[i].3),
            },
        );
        i = i + 1;
    }
    assert(rule_views(r@) =~= rule_row_views(v@));
    r
}

/// The rows of a list of effect rules.
fn effect_rule_rows(v: &Vec<EffectRule>) -> (r: Vec<EffectRuleRow>)
    ensures
        r.len() == v.len(),
        forall|j: int|
            #![trigger effect_rule_row_views(r@)[j]]
            0 <= j < v.len() ==> {
                let row = effect_rule_row_views(r@)[j];
                &&& row.on_event == v[j]@.on_event
                &&& row.effect == v[j]@.effect
                &&& row.payload == payload_or_null(v[j]@.payload)
            },
{
    let mut r: Vec<EffectRuleRow> = Vec::new();
    let mut i: usize = 0;
    while i < v.len()
        invariant
            i <= v.len(),
            r.len() == i,
            forall|j: int|
                #![trigger r[j]]
                0 <= j < i ==> {
                    &&& r[j].0@ == v[j]@.on_event
                    &&& r[j].1@ == v[j]@.effect
                    &&& json_view(r[j].2) == payload_or_null(v[j]@.payload)
                },
        decreases v.len() - i,
    {
        let payload = match &v[i].payload {
            Some(p) => p.clone(),
            None => null(),
        };
        r.push((v[i].on_event.clone(), v[i].effect.clone(), payload));
        i = i + 1;
    }
    r
}

/// The effect rules of a list of rows.
fn effect_rules_of_rows(v: Vec<EffectRuleRow>) -> (r: Vec<EffectRule>)
    ensures
        r.len() == v.len(),
        forall|j: int|
            #![trigger r[j]]
            0 <= j < v.len() ==> {
                let row = effect_rule_row_views(v@)[j];
                r[j]@ == (EffectRuleView {
                    on_event: row.on_event,
                    effect: row.effect,
                    payload: settled_payload(Some(row.payload)),
                })
            },
{
    let mut r: Vec<EffectRule> = Vec::new();
    let mut i: usize = 0;
    while i < v.len()
        invariant
            i <= v.len(),
            r.len() == i,
            forall|j: int|
                #![trigger r[j]]
                0 <= j < i ==> {
                    let row = effect_rule_row_views(v@)[j];
                    r[j]@ == (EffectRuleView {
                        on_event: row.on_event,
                        effect: row.effect,
                        payload: settled_payload(Some(row.payload)),
                    })
                },
        decreases v.len() - i,
    {
        let payload = if v[i].2.is_null() {
            None
        } else {
            Some(v[i].2.clone())
        };
        r.push(EffectRule { on_event: v[i].0.clone(), effect: v[i].1.clone(), payload });
        i = i + 1;
    }
    r
}

/// Writes a machine. A payload that is the null value reads back as none.
pub fn write_machine(m: &MachineDefinition) -> (r: Result<Vec<u8>, StorageError>)
    ensures
        match r {
            Ok(b) => {
                &&& machine_of(b@) == settled(m@)
                &&& is_shallow(m@) ==> machine_reads(b@)
                &&& m.created_at.valid()
            },
            Err(x) => x is Corrupted && machine_unwritten(m@),
        },
{
    let created_at = instant_out(&m.created_at)?;
    let row: MachineRow = (
        m.name.clone(),
        m.version,
        clone_texts(&m.states),
        m.initial_state.clone(),
        rule_rows(&m.transitions),
        effect_rule_rows(&m.effects),
        created_at,
    );
    let packed = pack_machine(&row);
    assert(machine_from(machine_row_view(row)) =~= settled(m@)) by {
        let got = machine_from(machine_row_view(row)).effects;
        let want = settled(m@).effects;
        assert forall|j: int| 0 <= j < want.len() implies got[j] == want[j] by {
            assert(effect_rule_row_views(row.5@)[j].on_event == m.effects[j]@.on_event);
        }
        assert(got =~= want);
    }
    assert(call_ensures(pack_machine, (&row,), packed));
    let bytes = sized(packed)?;
    assert(is_shallow(m@) ==> payloads_are_shallow(machine_row_view(row).effects)) by {
        let rows = machine_row_view(row).effects;
        if is_shallow(m@) {
            assert forall|j: int| 0 <= j < rows.len() implies (
            #[trigger] rows[j]).payload.nests_within(1020) by {
                assert(m@.effects[j] == m.effects[j]@);
            }
        }
    }
    Ok(bytes)
}

/// Reads a machine.
pub fn read_machine(bytes: &Vec<u8>) -> (r: Result<MachineDefinition, StorageError>)
    ensures
        match r {
            Ok(m) => machine_reads(bytes@) && m@ == machine_of(bytes@),
            Err(x) => !machine_reads(bytes@) && x is Corrupted,
        },
{
    match unpack_machine(bytes) {
        Ok(row) => {
            let created_at = instant_in(row.6.as_str())?;
            let ghost rows = row.5@;
            let m = MachineDefinition {
                name: row.0,
                version: row.1,
                states: row.2,
                initial_state: row.3,
                transitions: rules_of_rows(row.4),
                effects: effect_rules_of_rows(row.5),
                created_at,
            };
            assert(m@ =~= machine_of(bytes@)) by {
                let got = m@.effects;
                let want = machine_of(bytes@).effects;
                assert forall|j: int| 0 <= j < want.len() implies got[j] == want[j] by {
                    assert(got[j] == m.effects[j]@);
                    assert(effect_rule_row_views(rows)[j] == machine_row(bytes@).row.effects[j]);
                }
                assert(got =~= want);
            }
            Ok(m)
        },
        Err(e) => Err(StorageError::of_decode(e)),
    }
}

} // verus!
