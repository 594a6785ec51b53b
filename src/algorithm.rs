use vstd::prelude::*;
use vstd::string::StringSliceAdditionalSpecFns;

use crate::counting::{count_above, count_count, count_fold, count_for, count_for_if};
use crate::error::CountError;

verus! {

/// The four counting strategies; they differ in how they count, never in what.
#[derive(Debug, Clone, Copy, PartialEq, Eq, Structural)]
pub enum Algorithm {
    Count,
    Fold,
    ForIf,
    ForNoIf,
}

/// The name under which each strategy is selected: `count`, `fold`, `for-if`,
/// `for-no-if`, as ASCII bytes.
pub open spec fn algorithm_name(a: Algorithm) -> Seq<u8> {
    match a {
        Algorithm::Count => seq!['c' as u8, 'o' as u8, 'u' as u8, 'n' as u8, 't' as u8],
        Algorithm::Fold => seq!['f' as u8, 'o' as u8, 'l' as u8, 'd' as u8],
        Algorithm::ForIf => seq!['f' as u8, 'o' as u8, 'r' as u8, '-' as u8, 'i' as u8, 'f' as u8],
        Algorithm::ForNoIf => seq!['f' as u8, 'o' as u8, 'r' as u8, '-' as u8, 'n' as u8, 'o' as u8, '-' as u8, 'i' as u8, 'f' as u8],
    }
}

/// An ASCII upper-case letter mapped to its lower-case form; other bytes unchanged.
pub open spec fn ascii_lower(b: u8) -> u8 {
    if 'A' as u8 <= b <= 'Z' as u8 {
        (b + 32) as u8
    } else {
        b
    }
}

/// `given` names `a` when it equals `a`'s name up to ASCII case.
pub open spec fn names(given: Seq<u8>, a: Algorithm) -> bool {
    given.map_values(|b: u8| ascii_lower(b)) == algorithm_name(a)
}

fn lower_byte(b: u8) -> (r: u8)
    ensures
        r == ascii_lower(b),
{
    if 'A' as u8 <= b && b <= 'Z' as u8 {
        b + 32
    } else {
        b
    }
}

fn lowered(bytes: &[u8]) -> (r: Vec<u8>)
    ensures
        r@ == bytes@.map_values(|b: u8| ascii_lower(b)),
{
    let mut r: Vec<u8> = Vec::new();
    let mut i: usize = 0;
    while i < bytes.len()
        invariant
            i <= bytes@.len(),
            r@ == bytes@.take(i as int).map_values(|b: u8| ascii_lower(b)),
        decreases bytes@.len() - i,
    {
        r.push(lower_byte(bytes[i]));
        assert(bytes@.take(i + 1) =~= bytes@.take(i as int).push(bytes@[i as int]));
        i += 1;
        assert(r@ =~= bytes@.take(i as int).map_values(|b: u8| ascii_lower(b)));
    }
    assert(bytes@.take(bytes@.len() as int) =~= bytes@);
    r
}

fn same_bytes(a: &[u8], b: &[u8]) -> (r: bool)
    ensures
        r == (a@ == b@),
{
    if a.len() != b.len() {
        return false;
    }
    let mut i: usize = 0;
    while i < a.len()
        invariant
            a@.len() == b@.len(),
            i <= a@.len(),
            forall|j: int| 0 <= j < i ==> a@[j] == b@[j],
        decreases a@.len() - i,
    {
        if a[i] != b[i] {
            return false;
        }
        i += 1;
    }
    assert(a@ =~= b@);
    true
}

impl Algorithm {
    /// The strategy whose name `name` spells, ignoring ASCII case; an
    /// `ArgumentError` when it spells none of the four.
    pub fn from_name(name: &str) -> (r: Result<Algorithm, CountError>)
        ensures
            match r {
                Ok(a) => names(name.spec_bytes(), a),
                Err(e) => e == CountError::ArgumentError && forall|a: Algorithm|
                    !names(name.spec_bytes(), a),
            },
    {
        let l = lowered(name.as_bytes());
        let count_name: [u8; 5] = ['c' as u8, 'o' as u8, 'u' as u8, 'n' as u8, 't' as u8];
        let fold_name: [u8; 4] = ['f' as u8, 'o' as u8, 'l' as u8, 'd' as u8];
        let for_if_name: [u8; 6] = ['f' as u8, 'o' as u8, 'r' as u8, '-' as u8, 'i' as u8, 'f' as u8];
        let for_no_if_name: [u8; 9] = ['f' as u8, 'o' as u8, 'r' as u8, '-' as u8, 'n' as u8, 'o' as u8, '-' as u8, 'i' as u8, 'f' as u8];
        if same_bytes(l.as_slice(), count_name.as_slice()) {
            assert(count_name@ =~= algorithm_name(Algorithm::Count));
            Ok(Algorithm::Count)
        } else if same_bytes(l.as_slice(), fold_name.as_slice()) {
            assert(fold_name@ =~= algorithm_name(Algorithm::Fold));
            Ok(Algorithm::Fold)
        } else if same_bytes(l.as_slice(), for_if_name.as_slice()) {
            assert(for_if_name@ =~= algorithm_name(Algorithm::ForIf));
            Ok(Algorithm::ForIf)
        } else if same_bytes(l.as_slice(), for_no_if_name.as_slice()) {
            assert(for_no_if_name@ =~= algorithm_name(Algorithm::ForNoIf));
            Ok(Algorithm::ForNoIf)
        } else {
            assert(count_name@ =~= algorithm_name(Algorithm::Count));
            assert(fold_name@ =~= algorithm_name(Algorithm::Fold));
            assert(for_if_name@ =~= algorithm_name(Algorithm::ForIf));
            assert(for_no_if_name@ =~= algorithm_name(Algorithm::ForNoIf));
            Err(CountError::ArgumentError)
        }
    }

    /// Runs the selected strategy on `nums`.
    pub fn count_with(self, nums: &[usize], geq: usize) -> (r: usize)
        ensures
            r == count_above(nums@, geq),
    {
        match self {
            Algorithm::Count => count_count(nums, geq),
            Algorithm::Fold => count_fold(nums, geq),
            Algorithm::ForIf => count_for_if(nums, geq),
            Algorithm::ForNoIf => count_for(nums, geq),
        }
    }
}

} // verus!
