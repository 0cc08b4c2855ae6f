//! Ordering of unit records: case-insensitive by name, and an in-place
//! insertion sort proved to produce a sorted permutation of its input.

use vstd::prelude::*;
use crate::text::lex_le;
use crate::text::lower_of;
use crate::text::lowercase;
use crate::text::str_lex_le;
use crate::text::lemma_lex_le_total;
use crate::text::lemma_lex_le_trans;
use crate::units::SystemdUnit;

verus! {

/// `a` sorts no later than `b`: its lowercased name is lexicographically
/// no greater.
pub open spec fn unit_le(a: SystemdUnit, b: SystemdUnit) -> bool {
    lex_le(lower_of(a.name@), lower_of(b.name@))
}

/// Non-decreasing by case-insensitive name.
pub open spec fn sorted_units(s: Seq<SystemdUnit>) -> bool {
    forall|i: int, j: int| 0 <= i < j < s.len() ==> unit_le(s[i], s[j])
}

pub proof fn lemma_unit_le_total(a: SystemdUnit, b: SystemdUnit)
    ensures
        unit_le(a, b) || unit_le(b, a),
{
    lemma_lex_le_total(lower_of(a.name@), lower_of(b.name@));
}

pub proof fn lemma_unit_le_trans(a: SystemdUnit, b: SystemdUnit, c: SystemdUnit)
    requires
        unit_le(a, b),
        unit_le(b, c),
    ensures
        unit_le(a, c),
{
    lemma_lex_le_trans(lower_of(a.name@), lower_of(b.name@), lower_of(c.name@));
}

fn unit_le_exec(a: &SystemdUnit, b: &SystemdUnit) -> (r: bool)
    ensures
        r == unit_le(*a, *b),
{
    let la = lowercase(a.name.as_str());
    let lb = lowercase(b.name.as_str());
    str_lex_le(la.as_str(), lb.as_str())
}

/// Sort the listing in place, case-insensitively by unit name.  The result
/// is a permutation of the input in non-decreasing name order.
pub fn sort_units(units: &mut Vec<SystemdUnit>)
    ensures
        sorted_units(final(units)@),
        final(units)@.to_multiset() == old(units)@.to_multiset(),
{
    let ghost orig = units@;
    if units.len() <= 1 {
        return ;
    }
    let mut i: usize = 1;
    while i < units.len()
        invariant
            1 <= i <= units@.len(),
            units@.len() == orig.len(),
            units@.to_multiset() == orig.to_multiset(),
            sorted_units(units@.take(i as int)),
        decreases units@.len() - i,
    {
        let ghost i_ = i as int;
        let mut j: usize = i;
        proof {
            assert(units@.subrange(0, i_ + 1).remove(i_) =~= units@.take(i_));
        }
        while j > 0 && !unit_le_exec(&units[j - 1], &units[j])
            invariant
                0 <= j <= i_ < units@.len(),
                i_ == i,
                units@.len() == orig.len(),
                units@.to_multiset() == orig.to_multiset(),
                sorted_units(units@.subrange(0, i_ + 1).remove(j as int)),
                forall|k: int| j < k <= i_ ==> unit_le(units@[j as int], units@[k]),
            decreases j,
        {
            let ghost before = units@;
            let ghost moved = units@[j as int];
            proof {
                lemma_unit_le_total(before[j - 1], before[j as int]);
            }
            let u = units.remove(j);
            let ghost removed = units@;
            units.insert(j - 1, u);
            proof {
                broadcast use vstd::multiset::group_multiset_axioms;

                let after = units@;
                assert(after == removed.insert(j - 1, moved));
                // the multiset of elements is unchanged by the adjacent swap
                assert(before[j as int] == moved);
                assert(before.contains(moved));
                vstd::seq_lib::to_multiset_contains(before, moved);
                vstd::seq_lib::to_multiset_remove(before, j as int);
                vstd::seq_lib::to_multiset_insert(removed, j - 1, moved);
                assert(after.to_multiset() == before.to_multiset().remove(moved).insert(moved));
                assert(before.to_multiset().remove(moved).insert(moved)
                    =~= before.to_multiset());
                assert(after.to_multiset() == before.to_multiset());
                // the sequence without the moving element is unchanged
                assert(after.subrange(0, i_ + 1).remove(j - 1) =~= before.subrange(
                    0,
                    i_ + 1,
                ).remove(j as int));
                // the moving element still precedes everything it passed
                assert(after[j - 1] == moved);
                assert(after[j as int] == before[j - 1]);
                assert forall|k: int| j - 1 < k <= i_ implies unit_le(after[j - 1], #[trigger] after[k]) by {
                    if k > j {
                        assert(after[k] == before[k]);
                    }
                }
            }
            j = j - 1;
        }
        proof {
            let s = units@.subrange(0, i_ + 1);
            let r = s.remove(j as int);
            let j_ = j as int;
            assert forall|a: int, b: int| 0 <= a < b <= i_ implies unit_le(s[a], s[b]) by {
                if b < j_ {
                    assert(s[a] == r[a] && s[b] == r[b]);
                } else if a > j_ {
                    assert(s[a] == r[a - 1] && s[b] == r[b - 1]);
                } else if a < j_ && b == j_ {
                    // a is below the insertion point: through its neighbour
                    assert(s[a] == r[a]);
                    if a < j_ - 1 {
                        assert(s[j_ - 1] == r[j_ - 1]);
                        assert(unit_le(s[a], s[j_ - 1]));
                        lemma_unit_le_trans(s[a], s[j_ - 1], s[j_]);
                    }
                } else if a < j_ && b > j_ {
                    assert(s[a] == r[a] && s[b] == r[b - 1]);
                } else if a == j_ {
                    assert(unit_le(units@[j_], units@[b]));
                }
            }
            assert(sorted_units(units@.take(i_ + 1))) by {
                assert(units@.take(i_ + 1) =~= s);
            }
        }
        i = i + 1;
    }
    proof {
        assert(units@.take(units@.len() as int) =~= units@);
    }
}

} // verus!
