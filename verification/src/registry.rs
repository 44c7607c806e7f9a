//! The receiver registry: per-receiver settings keyed by address.
//!
//! The registry is stored as a vector of entries with pairwise distinct
//! addresses and is modelled in specifications as a map from address to
//! settings, together with the sum of all stored weights.

use vstd::prelude::*;

use crate::state::ReceivableContractSettings;

verus! {

/// One stored receiver: its address and its settings.
#[derive(Clone, Debug, PartialEq)]
pub struct ReceiverEntry {
    pub address: String,
    pub settings: ReceivableContractSettings,
}

/// The registry as a mathematical map from address to settings.
pub open spec fn receivers_map(s: Seq<ReceiverEntry>) -> Map<
    Seq<char>,
    ReceivableContractSettings,
>
    decreases s.len(),
{
    if s.len() == 0 {
        Map::empty()
    } else {
        receivers_map(s.drop_last()).insert(s.last().address@, s.last().settings)
    }
}

/// The sum of every stored receiver's weight.
pub open spec fn sum_weights(s: Seq<ReceiverEntry>) -> int
    decreases s.len(),
{
    if s.len() == 0 {
        0
    } else {
        sum_weights(s.drop_last()) + s.last().settings.weight
    }
}

/// Each address appears at most once.
pub open spec fn unique_addresses(s: Seq<ReceiverEntry>) -> bool {
    forall|i: int, j: int| 0 <= i < j < s.len() ==> s[i].address@ != s[j].address@
}

/// An address is in the map exactly when some entry holds it.
pub proof fn lemma_map_domain(s: Seq<ReceiverEntry>, a: Seq<char>)
    ensures
        receivers_map(s).contains_key(a) <==> exists|i: int|
            0 <= i < s.len() && s[i].address@ == a,
    decreases s.len(),
{
    if s.len() > 0 {
        lemma_map_domain(s.drop_last(), a);
        if receivers_map(s).contains_key(a) {
            if s.last().address@ == a {
                assert(s[s.len() - 1].address@ == a);
            } else {
                let i = choose|i: int| 0 <= i < s.drop_last().len() && s.drop_last()[i].address@
                    == a;
                assert(s[i].address@ == a);
            }
        }
        if exists|i: int| 0 <= i < s.len() && s[i].address@ == a {
            let i = choose|i: int| 0 <= i < s.len() && s[i].address@ == a;
            if i < s.len() - 1 {
                assert(s.drop_last()[i].address@ == a);
            }
        }
    }
}

/// With distinct addresses, the map sends each entry's address to that
/// entry's settings.
pub proof fn lemma_map_at(s: Seq<ReceiverEntry>, i: int)
    requires
        unique_addresses(s),
        0 <= i < s.len(),
    ensures
        receivers_map(s).contains_key(s[i].address@),
        receivers_map(s)[s[i].address@] == s[i].settings,
    decreases s.len(),
{
    lemma_map_domain(s, s[i].address@);
    if i < s.len() - 1 {
        assert(s.drop_last()[i] == s[i]);
        lemma_map_at(s.drop_last(), i);
    }
}

/// Replacing the settings at one entry updates the map at that address and
/// shifts the weight sum by the difference.
pub proof fn lemma_update_entry(s: Seq<ReceiverEntry>, i: int, e: ReceiverEntry)
    requires
        unique_addresses(s),
        0 <= i < s.len(),
        e.address@ == s[i].address@,
    ensures
        unique_addresses(s.update(i, e)),
        receivers_map(s.update(i, e)) =~= receivers_map(s).insert(e.address@, e.settings),
        sum_weights(s.update(i, e)) == sum_weights(s) - s[i].settings.weight + e.settings.weight,
    decreases s.len(),
{
    let t = s.update(i, e);
    assert forall|p: int, q: int| 0 <= p < q < t.len() implies t[p].address@ != t[q].address@ by {
        assert(s[p].address@ != s[q].address@);
    }
    if i == s.len() - 1 {
        assert(t.drop_last() =~= s.drop_last());
        lemma_map_at(s, i);
    } else {
        lemma_update_entry(s.drop_last(), i, e);
        assert(t.drop_last() =~= s.drop_last().update(i, e));
        assert(t.last() == s.last());
        // the untouched last entry commutes with the insert at a different address
        assert(s.last().address@ != e.address@);
    }
}

/// Appending a fresh address inserts it into the map and adds its weight.
pub proof fn lemma_push_entry(s: Seq<ReceiverEntry>, e: ReceiverEntry)
    requires
        unique_addresses(s),
        forall|i: int| 0 <= i < s.len() ==> s[i].address@ != e.address@,
    ensures
        unique_addresses(s.push(e)),
        receivers_map(s.push(e)) == receivers_map(s).insert(e.address@, e.settings),
        sum_weights(s.push(e)) == sum_weights(s) + e.settings.weight,
{
    assert(s.push(e).drop_last() =~= s);
    assert(s.push(e).last() == e);
}

/// Finds the entry holding `address`, if any.
pub fn find_receiver(entries: &Vec<ReceiverEntry>, address: &String) -> (r: Option<usize>)
    ensures
        match r {
            Some(i) => i < entries@.len() && entries@[i as int].address@ == address@,
            None => forall|i: int| 0 <= i < entries@.len() ==> entries@[i].address@ != address@,
        },
{
    let mut i: usize = 0;
    while i < entries.len()
        invariant
            i <= entries@.len(),
            forall|j: int| 0 <= j < i ==> entries@[j].address@ != address@,
        decreases entries@.len() - i,
    {
        if entries[i].address == *address {
            return Some(i);
        }
        i = i + 1;
    }
    None
}

} // verus!
