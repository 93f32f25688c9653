//! The digit puzzle: can the decimal digits of a number be combined to zero?

use vstd::prelude::*;
use std::collections::HashSet;

verus! {

broadcast use vstd::std_specs::hash::group_hash_axioms;

/// The decimal digits of `n`, most significant first.
pub open spec fn spec_digits(n: nat) -> Seq<u32>
    decreases n,
{
    if n < 10 {
        seq![n as u32]
    } else {
        spec_digits(n / 10).push((n % 10) as u32)
    }
}

/// Whether a list of digits is short enough to be settled without a search:
/// up to three digits are.
pub open spec fn spec_recursive_combinations(digits: Seq<u32>) -> bool {
    digits.len() <= 3
}

/// Whether `n` counts as reducible to zero: every number above 9999 does, and
/// so does every number with a digit 0, with a repeated digit, or with at
/// most three digits.
pub open spec fn spec_is_n_zeroable(n: int) -> bool
    recommends
        n >= 0,
{
    ||| n > 9999
    ||| spec_digits(n as nat).contains(0)
    ||| !spec_digits(n as nat).no_duplicates()
    ||| spec_recursive_combinations(spec_digits(n as nat))
}

/// A number below 10000 has at most four digits, each below ten.
pub proof fn lemma_digits_bounds(n: nat)
    ensures
        1 <= spec_digits(n).len(),
        n <= 9 ==> spec_digits(n).len() == 1,
        10 <= n <= 99 ==> spec_digits(n).len() == 2,
        100 <= n <= 999 ==> spec_digits(n).len() == 3,
        1000 <= n <= 9999 ==> spec_digits(n).len() == 4,
        forall|i: int| 0 <= i < spec_digits(n).len() ==> #[trigger] spec_digits(n)[i] <= 9,
    decreases n,
{
    if n >= 10 {
        lemma_digits_bounds(n / 10);
    }
}

/// The numbers that do not count as reducible are exactly those of four
/// different digits, none of them 0.
pub proof fn lemma_not_zeroable(n: int)
    requires
        n >= 0,
    ensures
        !spec_is_n_zeroable(n) <==> {
            &&& 1000 <= n <= 9999
            &&& !spec_digits(n as nat).contains(0)
            &&& spec_digits(n as nat).no_duplicates()
        },
{
    lemma_digits_bounds(n as nat);
}

/// The decimal digits of `n`, most significant first.
pub fn digits_of(n: u32) -> (digits: Vec<u32>)
    ensures
        digits@ == spec_digits(n as nat),
    decreases n,
{
    if n < 10 {
        let mut digits: Vec<u32> = Vec::new();
        digits.push(n);
        assert(digits@ =~= seq![n]);
        digits
    } else {
        let mut digits: Vec<u32> = digits_of(n / 10);
        digits.push(n % 10);
        digits
    }
}

/// Whether one of `digits` is 0.
fn has_zero(digits: &Vec<u32>) -> (found: bool)
    ensures
        found == digits@.contains(0),
{
    let mut index: usize = 0;
    while index < digits.len()
        invariant
            index <= digits@.len(),
            forall|i: int| 0 <= i < index ==> digits@[i] != 0,
        decreases digits@.len() - index,
    {
        if digits[index] == 0 {
            return true;
        }
        index = index + 1;
    }
    false
}

/// Whether some digit occurs twice in `digits`: the set of the digits is then
/// smaller than their list.
fn has_repeat(digits: &Vec<u32>) -> (found: bool)
    ensures
        found == !digits@.no_duplicates(),
{
    let mut unique: HashSet<u32> = HashSet::new();
    let mut index: usize = 0;
    while index < digits.len()
        invariant
            index <= digits@.len(),
            unique@ == digits@.take(index as int).to_set(),
            unique@.finite(),
        decreases digits@.len() - index,
    {
        unique.insert(digits[index]);
        proof {
            let before = digits@.take(index as int);
            let after = digits@.take(index + 1);
            assert(after =~= before.push(digits@[index as int]));
            assert(after.to_set() =~= before.to_set().insert(digits@[index as int])) by {
                assert forall|d: u32| after.to_set().contains(d) implies before.to_set().insert(
                    digits@[index as int],
                ).contains(d) by {
                    let i = choose|i: int| 0 <= i < after.len() && after[i] == d;
                    if i < index {
                        assert(before[i] == d);
                    }
                }
                assert forall|d: u32|
                    before.to_set().insert(digits@[index as int]).contains(
                        d,
                    ) implies after.to_set().contains(d) by {
                    if d == digits@[index as int] {
                        assert(after[index as int] == d);
                    } else {
                        let i = choose|i: int| 0 <= i < before.len() && before[i] == d;
                        assert(after[i] == d);
                    }
                }
            }
        }
        index = index + 1;
    }
    proof {
        assert(digits@.take(digits@.len() as int) =~= digits@);
        if digits@.no_duplicates() {
            digits@.unique_seq_to_set();
        } else if digits@.to_set().len() == digits@.len() {
            digits@.lemma_no_dup_set_cardinality();
        }
    }
    digits.len() != unique.len()
}

/// Settles a list of digits without a search where it is short enough.
pub fn recursive_combinations(digits: Vec<u32>) -> (settled: bool)
    ensures
        settled == spec_recursive_combinations(digits@),
{
    digits.len() <= 3
}

/// Whether `n` counts as reducible to zero.
pub fn is_n_zeroable(n: i32) -> (zeroable: bool)
    requires
        n >= 0,
    ensures
        zeroable == spec_is_n_zeroable(n as int),
{
    if n > 9999 {
        return true;
    }
    let digits: Vec<u32> = digits_of(n as u32);
    if has_zero(&digits) {
        return true;
    }
    if has_repeat(&digits) {
        return true;
    }
    recursive_combinations(digits)
}

} // verus!
