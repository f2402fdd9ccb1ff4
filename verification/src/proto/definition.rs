//! Machine definitions as JSON values.
use crate::clock::{instant_at, instant_text, rfc3339, Timestamp};
use crate::fsm::machine::{
    EffectRule, EffectRuleView, MachineDefinition, MachineView, RuleView, TransitionRule,
};
use crate::json::{
    as_list, json_read, json_view, json_views, list_value, member, null, object, parse, put_member,
    text_value, texts_value, uint_value, Json,
};
use crate::proto::fields::{
    instant_field, lemma_texts_of, lemma_uint_of, name_fields, named, read_instant, read_text,
    read_texts, read_uint32, text_field, texts_field, texts_of, uint32_field, uint_of,
};
use crate::proto::parts::JsonText;
use crate::proto::repeats::{definition_repeats, has_repeated_fields};
use crate::text::{slice_texts, texts};
use vstd::prelude::*;
use vstd::utf8::encode_utf8;

verus! {

/// An instant: its RFC 3339 text, or null where it lies outside the calendar.
pub open spec fn instant_json(t: Timestamp) -> Json {
    if t.valid() {
        Json::Text(instant_text(t.secs, t.nanos))
    } else {
        Json::Null
    }
}

/// An instant as a value. Reading the text gives the instant back.
pub(crate) fn instant_value(t: &Timestamp) -> (v: serde_json::Value)
    ensures
        json_view(v) == instant_json(*t),
        t.valid() ==> instant_at(instant_text(t.secs, t.nanos)) == Some((t.secs, t.nanos)),
{
    match rfc3339(t) {
        Some(s) => text_value(s.as_str()),
        None => null(),
    }
}

/// A rule as JSON.
pub open spec fn rule_json(r: RuleView) -> Json {
    Json::Object(
        Map::empty().insert("event"@, Json::Text(r.event)).insert(
            "from_states"@,
            Json::texts(r.from_states),
        ).insert("to_state"@, Json::Text(r.to_state)).insert("guards"@, Json::texts(r.guards)),
    )
}

/// An effect rule as JSON. A rule without a payload has null there.
pub open spec fn effect_rule_json(e: EffectRuleView) -> Json {
    Json::Object(
        Map::empty().insert("on_event"@, Json::Text(e.on_event)).insert(
            "effect"@,
            Json::Text(e.effect),
        ).insert(
            "payload"@,
            match e.payload {
                Some(p) => p,
                None => Json::Null,
            },
        ),
    )
}

/// A definition as JSON.
pub open spec fn machine_json(m: MachineView) -> Json {
    Json::Object(
        Map::empty().insert("name"@, Json::Text(m.name)).insert(
            "version"@,
            Json::uint(m.version as nat),
        ).insert("states"@, Json::texts(m.states)).insert(
            "initial_state"@,
            Json::Text(m.initial_state),
        ).insert(
            "transitions"@,
            Json::List(Seq::new(m.transitions.len(), |i: int| rule_json(m.transitions[i]))),
        ).insert(
            "effects"@,
            Json::List(Seq::new(m.effects.len(), |i: int| effect_rule_json(m.effects[i]))),
        ).insert("created_at"@, instant_json(m.created_at)),
    )
}

/// The fields of a rule, in their places.
pub open spec fn rule_fields() -> Seq<Seq<char>> {
    seq!["event"@, "from_states"@, "to_state"@, "guards"@]
}

/// The fields of an effect rule, in their places.
pub open spec fn effect_rule_fields() -> Seq<Seq<char>> {
    seq!["on_event"@, "effect"@, "payload"@]
}

/// The fields of a definition, in their places.
pub open spec fn machine_fields() -> Seq<Seq<char>> {
    seq![
        "name"@,
        "version"@,
        "states"@,
        "initial_state"@,
        "transitions"@,
        "effects"@,
        "created_at"@,
    ]
}

/// The rule that a value stands for, if it stands for one. Its fields go by
/// their names or by their places.
pub open spec fn rule_at(value: Json) -> Option<RuleView> {
    let j = named(value, rule_fields());
    match (
        text_field(j, "event"@),
        texts_field(j, "from_states"@),
        text_field(j, "to_state"@),
        texts_field(j, "guards"@),
    ) {
        (Some(event), Some(from_states), Some(to_state), Some(guards)) => Some(
            RuleView { event, from_states, to_state, guards },
        ),
        _ => None,
    }
}

/// The effect rule that a value stands for, if it stands for one. Its fields go
/// by their names or by their places. A payload that is missing or null is none.
pub open spec fn effect_rule_at(value: Json) -> Option<EffectRuleView> {
    let j = named(value, effect_rule_fields());
    match (text_field(j, "on_event"@), text_field(j, "effect"@)) {
        (Some(on_event), Some(effect)) => Some(
            EffectRuleView {
                on_event,
                effect,
                payload: match j.member("payload"@) {
                    Some(p) => if p is Null {
                        None
                    } else {
                        Some(p)
                    },
                    None => None,
                },
            },
        ),
        _ => None,
    }
}

/// The rules that a list stands for, if every item stands for one.
pub open spec fn rules_at(j: Json) -> Option<Seq<RuleView>> {
    if j is List && forall|i: int|
        0 <= i < j->List_0.len() ==> rule_at(#[trigger] j->List_0[i]) is Some {
        Some(Seq::new(j->List_0.len(), |i: int| rule_at(j->List_0[i])->0))
    } else {
        None
    }
}

/// The effect rules that a list stands for, if every item stands for one.
pub open spec fn effect_rules_at(j: Json) -> Option<Seq<EffectRuleView>> {
    if j is List && forall|i: int|
        0 <= i < j->List_0.len() ==> effect_rule_at(#[trigger] j->List_0[i]) is Some {
        Some(Seq::new(j->List_0.len(), |i: int| effect_rule_at(j->List_0[i])->0))
    } else {
        None
    }
}

/// The value of a member that has to be there, read in some way.
pub open spec fn rules_field(j: Json, key: Seq<char>) -> Option<Seq<RuleView>> {
    match j.member(key) {
        Some(v) => rules_at(v),
        None => None,
    }
}

/// The value of a member that has to be there, read in some way.
pub open spec fn effect_rules_field(j: Json, key: Seq<char>) -> Option<Seq<EffectRuleView>> {
    match j.member(key) {
        Some(v) => effect_rules_at(v),
        None => None,
    }
}

/// The definition that a value stands for, if it stands for one. Its fields go by
/// their names or by their places.
pub open spec fn machine_at(value: Json) -> Option<MachineView> {
    let j = named(value, machine_fields());
    match (
        text_field(j, "name"@),
        uint32_field(j, "version"@),
        texts_field(j, "states"@),
        text_field(j, "initial_state"@),
        rules_field(j, "transitions"@),
        effect_rules_field(j, "effects"@),
        instant_field(j, "created_at"@),
    ) {
        (
            Some(name),
            Some(version),
            Some(states),
            Some(initial_state),
            Some(transitions),
            Some(effects),
            Some(created_at),
        ) => Some(
            MachineView { name, version, states, initial_state, transitions, effects, created_at },
        ),
        _ => None,
    }
}

// ---------------------------------------------------------------------------
// Writing
// ---------------------------------------------------------------------------

/// A rule as a value.
fn rule_value(r: &TransitionRule) -> (v: serde_json::Value)
    ensures
        json_view(v) == rule_json(r@),
{
    let mut v = object();
    put_member(&mut v, "event", text_value(r.event.as_str()));
    put_member(&mut v, "from_states", texts_value(&r.from_states));
    put_member(&mut v, "to_state", text_value(r.to_state.as_str()));
    put_member(&mut v, "guards", texts_value(&r.guards));
    v
}

/// An effect rule as a value.
fn effect_rule_value(e: &EffectRule) -> (v: serde_json::Value)
    ensures
        json_view(v) == effect_rule_json(e@),
{
    let mut v = object();
    put_member(&mut v, "on_event", text_value(e.on_event.as_str()));
    put_member(&mut v, "effect", text_value(e.effect.as_str()));
    let payload = match &e.payload {
        Some(p) => p.clone(),
        None => null(),
    };
    put_member(&mut v, "payload", payload);
    v
}

/// A definition as a value.
pub fn machine_value(m: &MachineDefinition) -> (v: serde_json::Value)
    ensures
        json_view(v) == machine_json(m@),
{
    let mut rules: Vec<serde_json::Value> = Vec::new();
    let mut i: usize = 0;
    while i < m.transitions.len()
        invariant
            i <= m.transitions.len(),
            rules.len() == i,
            forall|j: int|
                0 <= j < i ==> json_view(#[trigger] rules[j]) == rule_json(m.transitions[j]@),
        decreases m.transitions.len() - i,
    {
        rules.push(rule_value(&m.transitions[i]));
        i = i + 1;
    }
    let mut effects: Vec<serde_json::Value> = Vec::new();
    let mut k: usize = 0;
    while k < m.effects.len()
        invariant
            k <= m.effects.len(),
            effects.len() == k,
            forall|j: int|
                0 <= j < k ==> json_view(#[trigger] effects[j]) == effect_rule_json(m.effects[j]@),
        decreases m.effects.len() - k,
    {
        effects.push(effect_rule_value(&m.effects[k]));
        k = k + 1;
    }
    proof {
        assert(json_views(rules@) =~= Seq::new(
            m@.transitions.len(),
            |i: int| rule_json(m@.transitions[i]),
        ));
        assert(json_views(effects@) =~= Seq::new(
            m@.effects.len(),
            |i: int| effect_rule_json(m@.effects[i]),
        ));
    }
    let mut v = object();
    put_member(&mut v, "name", text_value(m.name.as_str()));
    put_member(&mut v, "version", uint_value(m.version as u64));
    put_member(&mut v, "states", texts_value(&m.states));
    put_member(&mut v, "initial_state", text_value(m.initial_state.as_str()));
    put_member(&mut v, "transitions", list_value(rules));
    put_member(&mut v, "effects", list_value(effects));
    put_member(&mut v, "created_at", instant_value(&m.created_at));
    v
}

// ---------------------------------------------------------------------------
// Reading
// ---------------------------------------------------------------------------

/// Reads a rule.
fn read_rule(value: &serde_json::Value) -> (r: Option<TransitionRule>)
    ensures
        match r {
            Some(rule) => rule_at(json_view(*value)) == Some(rule@),
            None => rule_at(json_view(*value)) is None,
        },
{
    let fields: [&str; 4] = ["event", "from_states", "to_state", "guards"];
    assert(slice_texts(fields@) =~= rule_fields());
    let v = &name_fields(value, &fields);
    let event = read_text(v, "event");
    let from_states = read_texts(v, "from_states");
    let to_state = read_text(v, "to_state");
    let guards = read_texts(v, "guards");
    match (event, from_states, to_state, guards) {
        (Some(event), Some(from_states), Some(to_state), Some(guards)) => Some(
            TransitionRule { event, from_states, to_state, guards },
        ),
        _ => None,
    }
}

/// Reads an effect rule.
fn read_effect_rule(value: &serde_json::Value) -> (r: Option<EffectRule>)
    ensures
        match r {
            Some(rule) => effect_rule_at(json_view(*value)) == Some(rule@),
            None => effect_rule_at(json_view(*value)) is None,
        },
{
    let fields: [&str; 3] = ["on_event", "effect", "payload"];
    assert(slice_texts(fields@) =~= effect_rule_fields());
    let v = &name_fields(value, &fields);
    let payload = match member(v, "payload") {
        Some(p) => if p.is_null() {
            None
        } else {
            Some(p)
        },
        None => None,
    };
    let on_event = read_text(v, "on_event");
    let effect = read_text(v, "effect");
    match (on_event, effect) {
        (Some(on_event), Some(effect)) => Some(EffectRule { on_event, effect, payload }),
        _ => None,
    }
}

/// Reads the rules of a list.
fn read_rules(v: &serde_json::Value) -> (r: Option<Vec<TransitionRule>>)
    ensures
        match r {
            Some(rules) => rules_at(json_view(*v)) == Some(
                crate::fsm::machine::rule_views(rules@),
            ),
            None => rules_at(json_view(*v)) is None,
        },
{
    let items = match as_list(v) {
        Some(items) => items,
        None => {
            return None;
        },
    };
    let ghost list = json_view(*v)->List_0;
    let mut found: Vec<TransitionRule> = Vec::new();
    let mut i: usize = 0;
    while i < items.len()
        invariant
            i <= items.len(),
            json_view(*v) == Json::List(list),
            list == json_views(items@),
            found.len() == i,
            forall|j: int| 0 <= j < i ==> rule_at(#[trigger] list[j]) == Some(found[j]@),
        decreases items.len() - i,
    {
        assert(list[i as int] == json_view(items[i as int]));
        match read_rule(&items[i]) {
            Some(rule) => {
                found.push(rule);
            },
            None => {
                assert(rule_at(json_view(*v)->List_0[i as int]) is None);
                return None;
            },
        }
        i = i + 1;
    }
    proof {
        let want = Seq::new(list.len(), |j: int| rule_at(list[j])->0);
        assert(list.len() == items.len());
        assert(crate::fsm::machine::rule_views(found@) =~= want) by {
            assert forall|j: int| 0 <= j < list.len() implies want[j] == found[j]@ by {
                assert(rule_at(list[j]) == Some(found[j]@));
            }
        }
    }
    Some(found)
}

/// Reads the effect rules of a list.
fn read_effect_rules(v: &serde_json::Value) -> (r: Option<Vec<EffectRule>>)
    ensures
        match r {
            Some(rules) => effect_rules_at(json_view(*v)) == Some(
                crate::fsm::machine::effect_rule_views(rules@),
            ),
            None => effect_rules_at(json_view(*v)) is None,
        },
{
    let items = match as_list(v) {
        Some(items) => items,
        None => {
            return None;
        },
    };
    let ghost list = json_view(*v)->List_0;
    let mut found: Vec<EffectRule> = Vec::new();
    let mut i: usize = 0;
    while i < items.len()
        invariant
            i <= items.len(),
            json_view(*v) == Json::List(list),
            list == json_views(items@),
            found.len() == i,
            forall|j: int| 0 <= j < i ==> effect_rule_at(#[trigger] list[j]) == Some(found[j]@),
        decreases items.len() - i,
    {
        assert(list[i as int] == json_view(items[i as int]));
        match read_effect_rule(&items[i]) {
            Some(rule) => {
                found.push(rule);
            },
            None => {
                assert(effect_rule_at(json_view(*v)->List_0[i as int]) is None);
                return None;
            },
        }
        i = i + 1;
    }
    proof {
        let want = Seq::new(list.len(), |j: int| effect_rule_at(list[j])->0);
        assert(list.len() == items.len());
        assert(crate::fsm::machine::effect_rule_views(found@) =~= want) by {
            assert forall|j: int| 0 <= j < list.len() implies want[j] == found[j]@ by {
                assert(effect_rule_at(list[j]) == Some(found[j]@));
            }
        }
    }
    Some(found)
}

/// Reads a definition.
pub fn read_machine(value: &serde_json::Value) -> (r: Option<MachineDefinition>)
    ensures
        match r {
            Some(m) => machine_at(json_view(*value)) == Some(m@),
            None => machine_at(json_view(*value)) is None,
        },
{
    let fields: [&str; 7] = [
        "name",
        "version",
        "states",
        "initial_state",
        "transitions",
        "effects",
        "created_at",
    ];
    assert(slice_texts(fields@) =~= machine_fields());
    let v = &name_fields(value, &fields);
    let name = read_text(v, "name");
    let version = read_uint32(v, "version");
    let states = read_texts(v, "states");
    let initial_state = read_text(v, "initial_state");
    let transitions = match member(v, "transitions") {
        Some(m) => read_rules(&m),
        None => None,
    };
    let effects = match member(v, "effects") {
        Some(m) => read_effect_rules(&m),
        None => None,
    };
    let created_at = read_instant(v, "created_at");
    match (name, version, states, initial_state, transitions, effects, created_at) {
        (
            Some(name),
            Some(version),
            Some(states),
            Some(initial_state),
            Some(transitions),
            Some(effects),
            Some(created_at),
        ) => Some(
            MachineDefinition {
                name,
                version,
                states,
                initial_state,
                transitions,
                effects,
                created_at,
            },
        ),
        _ => None,
    }
}

/// The definition that a JSON text stands for, or the complaint about it. One in
/// which a field comes twice is refused.
pub open spec fn definition_in(text: Seq<char>) -> Result<MachineView, Seq<char>> {
    match json_read(text) {
        Ok(j) => if machine_at(j) is None || definition_repeats::<JsonText>(encode_utf8(text)) {
            Err("unexpected shape"@)
        } else {
            Ok(machine_at(j)->0)
        },
        Err(why) => Err(why),
    }
}

/// Reads a definition in a JSON text.
pub fn read_definition(text: &str) -> (r: Result<MachineDefinition, String>)
    ensures
        match r {
            Ok(m) => definition_in(text@) == Ok::<MachineView, Seq<char>>(m@),
            Err(e) => definition_in(text@) == Err::<MachineView, Seq<char>>(e@),
        },
{
    match parse(text) {
        Ok(v) => match read_machine(&v) {
            Some(m) => if has_repeated_fields::<JsonText>(text.as_bytes()) {
                Err("unexpected shape".to_owned())
            } else {
                Ok(m)
            },
            None => Err("unexpected shape".to_owned()),
        },
        Err(why) => Err(why),
    }
}

proof fn lemma_rule_keys()
    ensures
        "event"@ != "from_states"@,
        "event"@ != "to_state"@,
        "event"@ != "guards"@,
        "from_states"@ != "to_state"@,
        "from_states"@ != "guards"@,
        "to_state"@ != "guards"@,
        "on_event"@ != "effect"@,
        "on_event"@ != "payload"@,
        "effect"@ != "payload"@,
{
    reveal_strlit("event");
    reveal_strlit("from_states");
    reveal_strlit("to_state");
    reveal_strlit("guards");
    reveal_strlit("on_event");
    reveal_strlit("effect");
    reveal_strlit("payload");
    assert("event"@.len() == 5 && "from_states"@.len() == 11 && "to_state"@.len() == 8
        && "guards"@.len() == 6);
    assert("on_event"@.len() == 8 && "effect"@.len() == 6 && "payload"@.len() == 7);
}

proof fn lemma_machine_keys()
    ensures
        "name"@ != "version"@,
        "name"@ != "states"@,
        "name"@ != "initial_state"@,
        "name"@ != "transitions"@,
        "name"@ != "effects"@,
        "name"@ != "created_at"@,
        "version"@ != "states"@,
        "version"@ != "initial_state"@,
        "version"@ != "transitions"@,
        "version"@ != "effects"@,
        "version"@ != "created_at"@,
        "states"@ != "initial_state"@,
        "states"@ != "transitions"@,
        "states"@ != "effects"@,
        "states"@ != "created_at"@,
        "initial_state"@ != "transitions"@,
        "initial_state"@ != "effects"@,
        "initial_state"@ != "created_at"@,
        "transitions"@ != "effects"@,
        "transitions"@ != "created_at"@,
        "effects"@ != "created_at"@,
{
    reveal_strlit("name");
    reveal_strlit("version");
    reveal_strlit("states");
    reveal_strlit("initial_state");
    reveal_strlit("transitions");
    reveal_strlit("effects");
    reveal_strlit("created_at");
    assert("name"@.len() == 4 && "version"@.len() == 7 && "states"@.len() == 6);
    assert("initial_state"@.len() == 13 && "transitions"@.len() == 11 && "created_at"@.len() == 10);
    assert("effects"@.len() == 7 && "effects"@[0] == 'e' && "version"@[0] == 'v');
}

/// A definition that was written as JSON reads back as it was, provided that its
/// time of creation does, but for payloads that are the null value, which read
/// back as none.
pub proof fn law_definitions_read_back(m: MachineView)
    requires
        m.created_at.valid(),
    ensures
        instant_at(instant_text(m.created_at.secs, m.created_at.nanos)) == Some(
            (m.created_at.secs, m.created_at.nanos),
        ) ==> machine_at(machine_json(m)) == Some(crate::storage::rows::settled(m)),
{
    if instant_at(instant_text(m.created_at.secs, m.created_at.nanos)) == Some(
        (m.created_at.secs, m.created_at.nanos),
    ) {
        lemma_definitions_read_back(m);
    }
}

proof fn lemma_definitions_read_back(m: MachineView)
    requires
        m.created_at.valid(),
        instant_at(instant_text(m.created_at.secs, m.created_at.nanos)) == Some(
            (m.created_at.secs, m.created_at.nanos),
        ),
    ensures
        machine_at(machine_json(m)) == Some(crate::storage::rows::settled(m)),
{
    broadcast use {lemma_texts_of, lemma_uint_of};

    lemma_rule_keys();
    lemma_machine_keys();
    let want = crate::storage::rows::settled(m);
    let j = machine_json(m);
    let rules = Seq::new(m.transitions.len(), |i: int| rule_json(m.transitions[i]));
    let effects = Seq::new(m.effects.len(), |i: int| effect_rule_json(m.effects[i]));
    assert forall|i: int| 0 <= i < rules.len() implies rule_at(#[trigger] rules[i]) == Some(
        m.transitions[i],
    ) by {
        let r = rules[i];
        assert(texts_of(Json::texts(m.transitions[i].from_states)) == Some(
            m.transitions[i].from_states,
        ));
        assert(texts_of(Json::texts(m.transitions[i].guards)) == Some(m.transitions[i].guards));
        assert(text_field(r, "event"@) == Some(m.transitions[i].event));
        assert(texts_field(r, "from_states"@) == Some(m.transitions[i].from_states));
        assert(text_field(r, "to_state"@) == Some(m.transitions[i].to_state));
        assert(texts_field(r, "guards"@) == Some(m.transitions[i].guards));
    }
    assert forall|i: int| 0 <= i < effects.len() implies effect_rule_at(#[trigger] effects[i])
        == Some(want.effects[i]) by {
        let e = effects[i];
        assert(text_field(e, "on_event"@) == Some(m.effects[i].on_event));
        assert(text_field(e, "effect"@) == Some(m.effects[i].effect));
    }
    assert(Seq::new(rules.len(), |i: int| rule_at(rules[i])->0) =~= m.transitions);
    assert(Seq::new(effects.len(), |i: int| effect_rule_at(effects[i])->0) =~= want.effects);
    assert(text_field(j, "name"@) == Some(m.name));
    assert(uint_of(Json::uint(m.version as u64 as nat)) == Some(m.version as u64));
    assert(uint32_field(j, "version"@) == Some(m.version));
    assert(texts_of(Json::texts(m.states)) == Some(m.states));
    assert(texts_field(j, "states"@) == Some(m.states));
    assert(text_field(j, "initial_state"@) == Some(m.initial_state));
    assert(j.member("transitions"@) == Some(Json::List(rules)));
    assert(j.member("effects"@) == Some(Json::List(effects)));
    assert(rules_at(Json::List(rules)) == Some(m.transitions));
    assert(effect_rules_at(Json::List(effects)) == Some(want.effects));
    assert(instant_field(j, "created_at"@) == Some(m.created_at));
}

} // verus!
