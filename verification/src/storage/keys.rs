//! The keys of rows.
use crate::storage::model::{entity_key, machine_key};
use crate::storage::raw::numbered_key;
use crate::text::fixed_of;
use vstd::prelude::*;

verus! {

pub(crate) proof fn lemma_nul()
    ensures
        "\0"@ == seq!['\0'],
{
    reveal_strlit("\0");
    assert("\0"@ =~= seq!['\0']);
}

/// The key of an entity.
pub(crate) fn entity_state_key(entity_id: &str, machine: &str) -> (r: String)
    ensures
        r@ == entity_key(entity_id@, machine@),
{
    proof {
        lemma_nul();
    }
    entity_id.to_owned().concat("\0").concat(machine)
}

/// The key of a definition.
pub(crate) fn definition_key(name: &str, version: u32) -> (r: String)
    ensures
        r@ == machine_key(name@, version),
{
    proof {
        lemma_nul();
    }
    name.to_owned().concat("\0").concat(fixed_of(version as u64, 10).as_str())
}

/// A key with a number behind it.
pub(crate) fn key_with_number(base: &str, n: u64) -> (r: String)
    ensures
        r@ == numbered_key(base@, n as nat),
{
    proof {
        lemma_nul();
    }
    base.to_owned().concat("\0").concat(fixed_of(n, 20).as_str())
}

/// The key of a transition in the index of histories.
pub(crate) fn entity_transition_key(entity_id: &str, machine: &str, sequence: u64) -> (r: String)
    ensures
        r@ == numbered_key(entity_key(entity_id@, machine@), sequence as nat),
{
    key_with_number(entity_state_key(entity_id, machine).as_str(), sequence)
}

/// The key of an effect in the index of emitted effects.
pub(crate) fn effect_by_txn_key(transition_id: &str, position: u64) -> (r: String)
    ensures
        r@ == numbered_key(transition_id@, position as nat),
{
    key_with_number(transition_id, position)
}

} // verus!
