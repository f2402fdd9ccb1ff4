//! The shape of a definition, as it is written and read.
use crate::clock::instant_at;
use crate::fsm::machine::{MachineDefinition, MachineView};
use crate::json::{json_view, Json};
use crate::proto::definition::{
    effect_rule_at, effect_rule_json, effect_rules_at, machine_at, machine_json, machine_value,
    read_machine, rule_at, rule_json, rules_at,
};
use crate::proto::fields::{lemma_uint_of, texts_of};
use crate::text::texts;
use vstd::prelude::*;

verus! {

/// The names in a definition differ.
proof fn lemma_names()
    ensures
        "name"@.len() == 4,
        "version"@.len() == 7,
        "states"@.len() == 6,
        "initial_state"@.len() == 13,
        "transitions"@.len() == 11,
        "effects"@.len() == 7,
        "created_at"@.len() == 10,
        "effects"@ != "version"@,
        "event"@.len() == 5,
        "from_states"@.len() == 11,
        "to_state"@.len() == 8,
        "guards"@.len() == 6,
        "on_event"@.len() == 8,
        "effect"@.len() == 6,
        "payload"@.len() == 7,
{
    reveal_strlit("name");
    reveal_strlit("version");
    reveal_strlit("states");
    reveal_strlit("initial_state");
    reveal_strlit("transitions");
    reveal_strlit("effects");
    reveal_strlit("created_at");
    reveal_strlit("event");
    reveal_strlit("from_states");
    reveal_strlit("to_state");
    reveal_strlit("guards");
    reveal_strlit("on_event");
    reveal_strlit("effect");
    reveal_strlit("payload");
    assert("effects"@[0] == 'e' && "version"@[0] == 'v');
}

/// A definition is written with its parts under their names: the states, the rules
/// with their events, states and guards, and the effects with their payloads, each
/// in its order.
pub proof fn law_definitions_are_written(d: MachineDefinition, v: serde_json::Value)
    requires
        call_ensures(machine_value, (&d,), v),
    ensures
        ({
            let j = json_view(v);
            &&& j.member("name"@) == Some(Json::Text(d.name@))
            &&& j.member("version"@) == Some(Json::uint(d.version as nat))
            &&& j.member("initial_state"@) == Some(Json::Text(d.initial_state@))
            &&& j.member("states"@) matches Some(Json::List(l)) && l.len() == d.states@.len() && (
            forall|i: int| 0 <= i < l.len() ==> #[trigger] l[i] == Json::Text(d.states@[i]@))
        }),
        ({
            &&& json_view(v).member("transitions"@) matches Some(Json::List(l))
            &&& l.len() == d.transitions@.len()
            &&& forall|i: int|
                #![trigger l[i]]
                0 <= i < l.len() ==> {
                    let t = d.transitions@[i];
                    &&& l[i].member("event"@) == Some(Json::Text(t.event@))
                    &&& l[i].member("to_state"@) == Some(Json::Text(t.to_state@))
                    &&& l[i].member("from_states"@) == Some(
                        Json::List(texts(t.from_states@).map_values(|x: Seq<char>| Json::Text(x))),
                    )
                    &&& l[i].member("guards"@) == Some(
                        Json::List(texts(t.guards@).map_values(|x: Seq<char>| Json::Text(x))),
                    )
                }
        }),
        ({
            &&& json_view(v).member("effects"@) matches Some(Json::List(l))
            &&& l.len() == d.effects@.len()
            &&& forall|i: int|
                #![trigger l[i]]
                0 <= i < l.len() ==> {
                    let t = d.effects@[i];
                    &&& l[i].member("on_event"@) == Some(Json::Text(t.on_event@))
                    &&& l[i].member("effect"@) == Some(Json::Text(t.effect@))
                    &&& l[i].member("payload"@) == Some(
                        match t.payload {
                            Some(p) => json_view(p),
                            None => Json::Null,
                        },
                    )
                }
        }),
{
    lemma_names();
    let m = d@;
    assert(json_view(v) == machine_json(m));
    let ts = Seq::new(m.transitions.len(), |i: int| rule_json(m.transitions[i]));
    let es = Seq::new(m.effects.len(), |i: int| effect_rule_json(m.effects[i]));
    assert(json_view(v).member("transitions"@) == Some(Json::List(ts)));
    assert(json_view(v).member("effects"@) == Some(Json::List(es)));
    assert(texts(d.states@) =~= m.states);
    assert forall|i: int| #![trigger ts[i]] 0 <= i < ts.len() implies {
        let t = d.transitions@[i];
        &&& ts[i].member("event"@) == Some(Json::Text(t.event@))
        &&& ts[i].member("to_state"@) == Some(Json::Text(t.to_state@))
        &&& ts[i].member("from_states"@) == Some(
            Json::List(texts(t.from_states@).map_values(|x: Seq<char>| Json::Text(x))),
        )
        &&& ts[i].member("guards"@) == Some(
            Json::List(texts(t.guards@).map_values(|x: Seq<char>| Json::Text(x))),
        )
    } by {
        let t = d.transitions@[i];
        assert(m.transitions[i] == t@);
        assert(ts[i] == rule_json(t@));
        let f = |x: Seq<char>| Json::Text(x);
        assert(texts(t.from_states@).map_values(f) =~= Seq::new(
            texts(t.from_states@).len(),
            |k: int| Json::Text(texts(t.from_states@)[k]),
        ));
        assert(texts(t.guards@).map_values(f) =~= Seq::new(
            texts(t.guards@).len(),
            |k: int| Json::Text(texts(t.guards@)[k]),
        ));
    }
    assert forall|i: int| #![trigger es[i]] 0 <= i < es.len() implies {
        let t = d.effects@[i];
        &&& es[i].member("on_event"@) == Some(Json::Text(t.on_event@))
        &&& es[i].member("effect"@) == Some(Json::Text(t.effect@))
        &&& es[i].member("payload"@) == Some(
            match t.payload {
                Some(p) => json_view(p),
                None => Json::Null,
            },
        )
    } by {
        assert(m.effects[i] == d.effects@[i]@);
        assert(es[i] == effect_rule_json(d.effects@[i]@));
    }
}

/// An object whose members have the names and the kinds of the parts of a definition
/// is read as the definition with those parts. An effect whose payload is missing or
/// null has none.
pub proof fn law_definitions_are_read(
    v: serde_json::Value,
    r: Option<MachineDefinition>,
    m: MachineView,
    rules: Seq<Json>,
    effects: Seq<Json>,
    created: Seq<char>,
)
    requires
        call_ensures(read_machine, (&v,), r),
        json_view(v).member("name"@) == Some(Json::Text(m.name)),
        json_view(v).member("version"@) == Some(Json::uint(m.version as nat)),
        json_view(v).member("initial_state"@) == Some(Json::Text(m.initial_state)),
        json_view(v).member("states"@) == Some(
            Json::List(m.states.map_values(|x: Seq<char>| Json::Text(x))),
        ),
        json_view(v).member("transitions"@) == Some(Json::List(rules)),
        json_view(v).member("effects"@) == Some(Json::List(effects)),
        json_view(v).member("created_at"@) == Some(Json::Text(created)),
        rules.len() == m.transitions.len(),
        effects.len() == m.effects.len(),
        forall|i: int|
            #![trigger rules[i]]
            #![trigger m.transitions[i]]
            0 <= i < rules.len() ==> {
                let t = m.transitions[i];
                &&& rules[i].member("event"@) == Some(Json::Text(t.event))
                &&& rules[i].member("to_state"@) == Some(Json::Text(t.to_state))
                &&& rules[i].member("from_states"@) == Some(
                    Json::List(t.from_states.map_values(|x: Seq<char>| Json::Text(x))),
                )
                &&& rules[i].member("guards"@) == Some(
                    Json::List(t.guards.map_values(|x: Seq<char>| Json::Text(x))),
                )
            },
        forall|i: int|
            #![trigger effects[i]]
            #![trigger m.effects[i]]
            0 <= i < effects.len() ==> {
                let t = m.effects[i];
                &&& effects[i].member("on_event"@) == Some(Json::Text(t.on_event))
                &&& effects[i].member("effect"@) == Some(Json::Text(t.effect))
                &&& match t.payload {
                    Some(p) => !(p is Null) && effects[i].member("payload"@) == Some(p),
                    None => effects[i].member("payload"@) is None || effects[i].member("payload"@)
                        == Some(Json::Null),
                }
            },
    ensures
        instant_at(created) == Some((m.created_at.secs, m.created_at.nanos)) ==> r is Some
            && r->0@ == m,
{
    broadcast use lemma_uint_of;

    lemma_uint_of(m.version as u64);
    lemma_texts(m.states);
    let j = json_view(v);
    assert forall|i: int| 0 <= i < rules.len() implies #[trigger] rule_at(rules[i]) == Some(
        m.transitions[i],
    ) by {
        lemma_texts(m.transitions[i].from_states);
        lemma_texts(m.transitions[i].guards);
        assert(rules[i] is Object);
    }
    assert forall|i: int| 0 <= i < effects.len() implies #[trigger] effect_rule_at(effects[i])
        == Some(m.effects[i]) by {
        assert(effects[i] is Object);
    }
    assert(rules_at(Json::List(rules)) is Some);
    assert(rules_at(Json::List(rules))->0 =~= m.transitions);
    assert(effect_rules_at(Json::List(effects)) is Some);
    assert(effect_rules_at(Json::List(effects))->0 =~= m.effects);
    assert(j is Object);
    if instant_at(created) == Some((m.created_at.secs, m.created_at.nanos)) {
        assert(machine_at(j) == Some(m));
    }
}

/// A list of texts is read as those texts.
proof fn lemma_texts(s: Seq<Seq<char>>)
    ensures
        texts_of(Json::List(s.map_values(|x: Seq<char>| Json::Text(x)))) == Some(s),
{
    let l = s.map_values(|x: Seq<char>| Json::Text(x));
    assert forall|i: int| 0 <= i < l.len() implies (#[trigger] l[i]) is Text && l[i]->Text_0
        == s[i] by {}
    assert(texts_of(Json::List(l))->0 =~= s);
}

} // verus!
