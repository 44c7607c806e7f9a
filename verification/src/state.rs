//! The persistent data model: schedule units, per-receiver settings, and the
//! distributor's stored configuration.

use vstd::prelude::*;

verus! {

/// A reference to an external token contract: its address and code hash.
/// Identities are carried as plain strings; the library only ever compares
/// them for equality.
#[derive(Clone, Debug, PartialEq)]
pub struct SecretContract {
    pub address: String,
    pub contract_hash: String,
}

impl SecretContract {
    /// An exact copy.
    pub fn duplicate(&self) -> (r: SecretContract)
        ensures
            r == *self,
    {
        SecretContract {
            address: self.address.clone(),
            contract_hash: self.contract_hash.clone(),
        }
    }
}

/// Per-receiver bookkeeping: the receiver's relative claim on emission, and
/// the last block at which its entitlement was settled.
#[derive(Clone, Copy, Debug, PartialEq, Eq, Structural)]
pub struct ReceivableContractSettings {
    pub weight: u64,
    pub last_update_block: u64,
}

/// One step of the emission schedule: `release_per_block` units are emitted
/// for every block up to and including `end_block` (and after the previous
/// unit's `end_block`, once the schedule is sorted).
#[derive(Clone, Copy, Debug, PartialEq, Eq, Structural)]
pub struct ScheduleUnit {
    pub end_block: u64,
    pub release_per_block: u128,
}

/// The emission schedule: a step function over block height, kept sorted
/// ascending by `end_block`.  Blocks beyond the last unit's `end_block` emit
/// nothing.
pub type Schedule = Vec<ScheduleUnit>;

/// True when the units are sorted ascending by `end_block`.  Equal end blocks
/// are allowed; uniqueness is not enforced.
pub open spec fn schedule_sorted(s: Seq<ScheduleUnit>) -> bool {
    forall|i: int, j: int|
        0 <= i <= j < s.len() ==> #[trigger] s[i].end_block <= #[trigger] s[j].end_block
}

/// The subsequence of units whose `end_block` is exactly `end_block`, in the
/// order they stand in `s`.  Sorting must keep this order: of two units with
/// the same end block the earlier one decides the rate, so tie order matters.
pub open spec fn units_ending_at(s: Seq<ScheduleUnit>, end_block: u64) -> Seq<ScheduleUnit>
    decreases s.len(),
{
    if s.len() == 0 {
        Seq::empty()
    } else if s.last().end_block == end_block {
        units_ending_at(s.drop_last(), end_block).push(s.last())
    } else {
        units_ending_at(s.drop_last(), end_block)
    }
}

/// The key subsequence of a concatenation is the two key subsequences, one
/// after the other.
proof fn lemma_units_ending_at_add(a: Seq<ScheduleUnit>, b: Seq<ScheduleUnit>, k: u64)
    ensures
        units_ending_at(a + b, k) == units_ending_at(a, k) + units_ending_at(b, k),
    decreases b.len(),
{
    if b.len() == 0 {
        assert(a + b =~= a);
        assert(units_ending_at(a, k) + units_ending_at(b, k) =~= units_ending_at(a, k));
    } else {
        lemma_units_ending_at_add(a, b.drop_last(), k);
        assert((a + b).drop_last() =~= a + b.drop_last());
        assert((a + b).last() == b.last());
        if b.last().end_block == k {
            assert(units_ending_at(a, k) + units_ending_at(b.drop_last(), k).push(b.last()) =~= (
            units_ending_at(a, k) + units_ending_at(b.drop_last(), k)).push(b.last()));
        }
    }
}

/// No unit of `s` ends at `k`, so the key subsequence for `k` is empty.
proof fn lemma_units_ending_at_none(s: Seq<ScheduleUnit>, k: u64)
    requires
        forall|j: int| 0 <= j < s.len() ==> s[j].end_block != k,
    ensures
        units_ending_at(s, k) == Seq::<ScheduleUnit>::empty(),
    decreases s.len(),
{
    if s.len() > 0 {
        lemma_units_ending_at_none(s.drop_last(), k);
    }
}

/// Inserting a unit behind every unit that ends at or before its own end
/// block appends it to its key subsequence and leaves every other key
/// subsequence as it was.
proof fn lemma_units_ending_at_insert(s: Seq<ScheduleUnit>, idx: int, u: ScheduleUnit, k: u64)
    requires
        0 <= idx <= s.len(),
        forall|j: int| idx <= j < s.len() ==> s[j].end_block > u.end_block,
    ensures
        units_ending_at(s.insert(idx, u), k) == if k == u.end_block {
            units_ending_at(s, k).push(u)
        } else {
            units_ending_at(s, k)
        },
{
    let sub1 = s.subrange(0, idx);
    let sub2 = s.subrange(idx, s.len() as int);
    assert(s =~= sub1 + sub2);
    assert(s.insert(idx, u) =~= sub1.push(u) + sub2);
    lemma_units_ending_at_add(sub1, sub2, k);
    lemma_units_ending_at_add(sub1.push(u), sub2, k);
    assert(sub1.push(u).drop_last() =~= sub1);
    if k == u.end_block {
        lemma_units_ending_at_none(sub2, k);
        assert(units_ending_at(sub1, k).push(u) + units_ending_at(sub2, k) =~= units_ending_at(
            sub1,
            k,
        ).push(u));
        assert(units_ending_at(sub1, k) + units_ending_at(sub2, k) =~= units_ending_at(sub1, k));
    }
}

/// Places one unit into an already sorted schedule, keeping it sorted: it
/// goes behind every unit that ends at or before its own end block, so among
/// equal end blocks it comes last.
fn insert_sorted(v: &mut Vec<ScheduleUnit>, u: ScheduleUnit)
    requires
        schedule_sorted(old(v)@),
    ensures
        schedule_sorted(final(v)@),
        final(v)@.to_multiset() == old(v)@.to_multiset().insert(u),
        final(v)@.len() == old(v)@.len() + 1,
        forall|k: u64|
            #[trigger] units_ending_at(final(v)@, k) == (if k == u.end_block {
                units_ending_at(old(v)@, k).push(u)
            } else {
                units_ending_at(old(v)@, k)
            }),
{
    let mut idx: usize = 0;
    while idx < v.len() && v[idx].end_block <= u.end_block
        invariant
            idx <= v@.len(),
            forall|k: int| 0 <= k < idx ==> #[trigger] v@[k].end_block <= u.end_block,
        decreases v@.len() - idx,
    {
        idx = idx + 1;
    }
    proof {
        assert forall|j: int| idx <= j < v@.len() implies v@[j].end_block > u.end_block by {
            assert(v@[idx as int].end_block <= v@[j].end_block);
        }
        vstd::seq_lib::to_multiset_insert(v@, idx as int, u);
        v@.insert_ensures(idx as int, u);
        assert forall|k: u64|
            #[trigger] units_ending_at(v@.insert(idx as int, u), k) == (if k == u.end_block {
                units_ending_at(v@, k).push(u)
            } else {
                units_ending_at(v@, k)
            }) by {
            lemma_units_ending_at_insert(v@, idx as int, u, k);
        }
    }
    v.insert(idx, u);
}

/// Sorts the schedule ascending by `end_block` (insertion sort).  The result
/// holds exactly the units that went in, and the sort is stable: for every
/// end-block value, the units carrying it keep their relative order.
pub fn sort_schedule(s: &mut Schedule)
    ensures
        schedule_sorted(final(s)@),
        final(s)@.to_multiset() == old(s)@.to_multiset(),
        final(s)@.len() == old(s)@.len(),
        forall|k: u64| #[trigger] units_ending_at(final(s)@, k) == units_ending_at(old(s)@, k),
{
    let ghost unsorted: Seq<ScheduleUnit> = s@;
    let mut out: Vec<ScheduleUnit> = Vec::new();
    proof {
        assert(out@ =~= s@.subrange(0, 0));
    }
    let mut i: usize = 0;
    while i < s.len()
        invariant
            i <= s@.len(),
            s@ == unsorted,
            out@.len() == i,
            schedule_sorted(out@),
            out@.to_multiset() == s@.subrange(0, i as int).to_multiset(),
            forall|k: u64|
                #[trigger] units_ending_at(out@, k) == units_ending_at(
                    s@.subrange(0, i as int),
                    k,
                ),
        decreases s@.len() - i,
    {
        let ghost prefix: Seq<ScheduleUnit> = s@.subrange(0, i as int);
        insert_sorted(&mut out, s[i]);
        proof {
            assert(s@.subrange(0, i + 1) =~= prefix.push(s@[i as int]));
            vstd::seq_lib::to_multiset_build(prefix, s@[i as int]);
            assert(prefix.push(s@[i as int]).drop_last() =~= prefix);
            assert forall|k: u64|
                #[trigger] units_ending_at(out@, k) == units_ending_at(
                    prefix.push(s@[i as int]),
                    k,
                ) by {
                assert(units_ending_at(prefix.push(s@[i as int]), k) == (if s@[
                    i as int
                ].end_block == k {
                    units_ending_at(prefix, k).push(s@[i as int])
                } else {
                    units_ending_at(prefix, k)
                }));
            }
        }
        i = i + 1;
    }
    proof {
        assert(s@.subrange(0, s@.len() as int) =~= s@);
    }
    *s = out;
}

/// The stored configuration of the weighted distributor: its admin, the
/// reward token, the current emission schedule, and the running total of all
/// receiver weights.
#[derive(Clone, Debug, PartialEq)]
pub struct State {
    pub admin: String,
    pub buttcoin: SecretContract,
    pub release_schedule: Schedule,
    pub total_weight: u64,
    pub viewing_key: String,
}

/// Descriptive data of a token, as reported by its contract.
#[derive(Clone, Debug, PartialEq, Eq)]
pub struct TokenInfo {
    pub name: String,
    pub symbol: String,
}

/// One entry of a batched weight update: which receiver, and its new weight.
#[derive(Clone, Debug, PartialEq)]
pub struct WeightInfo {
    pub address: String,
    pub hash: String,
    pub weight: u64,
}

} // verus!
