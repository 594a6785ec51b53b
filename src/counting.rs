use vstd::prelude::*;

verus! {

/// The predicate `x > t` that every variant counts.
pub open spec fn above(t: usize) -> spec_fn(usize) -> bool {
    |x: usize| x > t
}

/// How many elements of `s` are strictly greater than `t`: `|{ x in s : x > t }|`.
pub open spec fn count_above(s: Seq<usize>, t: usize) -> nat {
    s.filter(above(t)).len()
}

/// Extending a prefix by one element adds one to the count exactly when that
/// element exceeds the threshold.
pub proof fn lemma_count_above_step(s: Seq<usize>, t: usize, i: int)
    requires
        0 <= i < s.len(),
    ensures
        count_above(s.take(i + 1), t) == count_above(s.take(i), t) + if s[i] > t {
            1nat
        } else {
            0nat
        },
        count_above(s.take(i + 1), t) <= i + 1,
{
    reveal(Seq::filter);
    assert(s.take(i + 1).drop_last() =~= s.take(i));
    s.take(i + 1).lemma_filter_len(above(t));
}

/// The fold step of the counting: add one when the element exceeds `t`.
pub open spec fn count_step(t: usize) -> spec_fn(nat, usize) -> nat {
    |acc: nat, x: usize| if x > t {
        acc + 1
    } else {
        acc
    }
}

/// Filtering then counting and folding with `count_step` from 0 give the same
/// number, for every sequence and threshold; so every variant below, whichever
/// formulation it follows, computes one and the same count.
pub proof fn lemma_count_above_as_fold(s: Seq<usize>, t: usize)
    ensures
        count_above(s, t) == s.fold_left(0nat, count_step(t)),
    decreases s.len(),
{
    reveal(Seq::filter);
    if s.len() > 0 {
        lemma_count_above_as_fold(s.drop_last(), t);
    }
}

/// The empty sequence has no element above any threshold.
pub proof fn lemma_count_empty(t: usize)
    ensures
        count_above(Seq::<usize>::empty(), t) == 0,
{
    reveal(Seq::filter);
}

/// When the threshold is at least every element, nothing is counted.
pub proof fn lemma_count_none_above(s: Seq<usize>, t: usize)
    requires
        forall|i: int| 0 <= i < s.len() ==> s[i] <= t,
    ensures
        count_above(s, t) == 0,
    decreases s.len(),
{
    reveal(Seq::filter);
    if s.len() > 0 {
        lemma_count_none_above(s.drop_last(), t);
    }
}

/// When the threshold is below every element, every element is counted.
pub proof fn lemma_count_all_above(s: Seq<usize>, t: usize)
    requires
        forall|i: int| 0 <= i < s.len() ==> s[i] > t,
    ensures
        count_above(s, t) == s.len(),
    decreases s.len(),
{
    reveal(Seq::filter);
    if s.len() > 0 {
        lemma_count_all_above(s.drop_last(), t);
    }
}

/// Counting with a branching loop: one conditional increment per element.
pub fn count_for_if(nums: &[usize], geq: usize) -> (r: usize)
    ensures
        r == count_above(nums@, geq),
{
    let mut count: usize = 0;
    for num in it: nums.iter()
        invariant
            count == count_above(nums@.take(it.index() as int), geq),
            count <= it.index(),
    {
        proof {
            assert(it.index() < nums.len());
            lemma_count_above_step(nums@, geq, it.index() as int);
        }
        if *num > geq {
            count += 1;
        }
    }
    assert(nums@.take(nums@.len() as int) =~= nums@);
    count
}

/// Counting without a data-dependent branch: every element adds the integer
/// value of its predicate, 0 or 1.
pub fn count_for(nums: &[usize], geq: usize) -> (r: usize)
    ensures
        r == count_above(nums@, geq),
{
    let mut count: usize = 0;
    for num in it: nums.iter()
        invariant
            count == count_above(nums@.take(it.index() as int), geq),
            count <= it.index(),
    {
        proof {
            assert(it.index() < nums.len());
            lemma_count_above_step(nums@, geq, it.index() as int);
        }
        count += (*num > geq) as usize;
    }
    assert(nums@.take(nums@.len() as int) =~= nums@);
    count
}

/// One step of the fold: the running count, plus one when `num` exceeds `geq`.
fn fold_step(acc: usize, num: usize, geq: usize) -> (r: usize)
    requires
        acc < usize::MAX,
    ensures
        r == acc + if num > geq {
            1int
        } else {
            0int
        },
{
    if num > geq {
        acc + 1
    } else {
        acc
    }
}

/// Counting as a left fold: the accumulator starts at 0 and each element is
/// combined into it by `fold_step`.
pub fn count_fold(nums: &[usize], geq: usize) -> (r: usize)
    ensures
        r == count_above(nums@, geq),
{
    let mut acc: usize = 0;
    for num in it: nums.iter()
        invariant
            acc == count_above(nums@.take(it.index() as int), geq),
            acc <= it.index(),
    {
        proof {
            assert(it.index() < nums.len());
            lemma_count_above_step(nums@, geq, it.index() as int);
        }
        acc = fold_step(acc, *num, geq);
    }
    assert(nums@.take(nums@.len() as int) =~= nums@);
    acc
}

/// Counting the elements that pass the filter `x > geq`, visited by index and
/// never collected.
pub fn count_count(nums: &[usize], geq: usize) -> (r: usize)
    ensures
        r == count_above(nums@, geq),
{
    let mut passed: usize = 0;
    let mut i: usize = 0;
    while i < nums.len()
        invariant
            i <= nums@.len(),
            passed == count_above(nums@.take(i as int), geq),
            passed <= i,
        decreases nums@.len() - i,
    {
        proof {
            lemma_count_above_step(nums@, geq, i as int);
        }
        if nums[i] > geq {
            passed += 1;
        }
        i += 1;
    }
    assert(nums@.take(nums@.len() as int) =~= nums@);
    passed
}

} // verus!
