//! Sums of an integer function over a finite set of transaction IDs.
use vstd::prelude::*;
use vstd::set::fold::{is_fun_commutative, lemma_fold_insert};

verus! {

pub open spec fn add_fn(f: spec_fn(u32) -> int) -> spec_fn(int, u32) -> int {
    |acc: int, t: u32| acc + f(t)
}

/// The sum of `f` over `s`.
pub open spec fn sum_by(s: Set<u32>, f: spec_fn(u32) -> int) -> int {
    s.fold(0int, add_fn(f))
}

proof fn lemma_add_commutative(f: spec_fn(u32) -> int)
    ensures
        is_fun_commutative(add_fn(f)),
{
}

pub proof fn lemma_sum_empty(f: spec_fn(u32) -> int)
    ensures
        sum_by(Set::empty(), f) == 0,
{
    vstd::set::fold::lemma_fold_empty(0int, add_fn(f));
}

pub proof fn lemma_sum_insert(s: Set<u32>, f: spec_fn(u32) -> int, t: u32)
    requires
        s.finite(),
        !s.contains(t),
    ensures
        sum_by(s.insert(t), f) == sum_by(s, f) + f(t),
{
    lemma_add_commutative(f);
    lemma_fold_insert(s, 0int, add_fn(f), t);
}

pub proof fn lemma_sum_remove(s: Set<u32>, f: spec_fn(u32) -> int, t: u32)
    requires
        s.finite(),
        s.contains(t),
    ensures
        sum_by(s, f) == sum_by(s.remove(t), f) + f(t),
{
    lemma_sum_insert(s.remove(t), f, t);
    assert(s.remove(t).insert(t) =~= s);
}

/// Functions that agree on `s` have the same sum over it.
pub proof fn lemma_sum_congruent(s: Set<u32>, f: spec_fn(u32) -> int, g: spec_fn(u32) -> int)
    requires
        s.finite(),
        forall|t: u32| s.contains(t) ==> f(t) == g(t),
    ensures
        sum_by(s, f) == sum_by(s, g),
    decreases s.len(),
{
    if s.len() == 0 {
        assert(s =~= Set::empty());
        lemma_sum_empty(f);
        lemma_sum_empty(g);
    } else {
        let t = s.choose();
        lemma_sum_congruent(s.remove(t), f, g);
        lemma_sum_remove(s, f, t);
        lemma_sum_remove(s, g, t);
    }
}

/// A sum of non-negative terms grows with the set.
pub proof fn lemma_sum_subset(sub: Set<u32>, s: Set<u32>, f: spec_fn(u32) -> int)
    requires
        s.finite(),
        sub.subset_of(s),
        forall|t: u32| s.contains(t) ==> f(t) >= 0,
    ensures
        0 <= sum_by(sub, f) <= sum_by(s, f),
    decreases s.len(),
{
    if s.len() == 0 {
        assert(s =~= Set::empty());
        assert(sub =~= Set::empty());
        lemma_sum_empty(f);
    } else {
        let t = s.choose();
        lemma_sum_remove(s, f, t);
        if sub.contains(t) {
            lemma_sum_subset(sub.remove(t), s.remove(t), f);
            vstd::set_lib::lemma_len_subset(sub, s);
            lemma_sum_remove(sub, f, t);
        } else {
            assert(sub.subset_of(s.remove(t)));
            lemma_sum_subset(sub, s.remove(t), f);
        }
    }
}

/// A sum is bounded, in absolute value, by the sum of bounds on its terms;
/// each term bound is at most `m`, so the sum is at most `m` per element.
pub proof fn lemma_sum_dominated(
    s: Set<u32>,
    f: spec_fn(u32) -> int,
    g: spec_fn(u32) -> int,
    m: int,
)
    requires
        s.finite(),
        forall|t: u32| s.contains(t) ==> -g(t) <= f(t) <= g(t) && g(t) <= m,
    ensures
        -sum_by(s, g) <= sum_by(s, f) <= sum_by(s, g),
        sum_by(s, g) <= s.len() * m,
    decreases s.len(),
{
    if s.len() == 0 {
        assert(s =~= Set::empty());
        lemma_sum_empty(f);
        lemma_sum_empty(g);
    } else {
        let t = s.choose();
        lemma_sum_dominated(s.remove(t), f, g, m);
        lemma_sum_remove(s, f, t);
        lemma_sum_remove(s, g, t);
        assert(s.remove(t).len() * m + m == s.len() * m) by (nonlinear_arith)
            requires
                s.remove(t).len() + 1 == s.len(),
        ;
    }
}

/// A finite set of `u32` values has at most 2^32 elements.
pub proof fn lemma_u32_set_len(s: Set<u32>)
    requires
        s.finite(),
    ensures
        s.len() <= 0x1_0000_0000,
{
    let f = |t: u32| t as int;
    let img = s.map(f);
    assert(vstd::relations::injective_on(f, s));
    vstd::set_lib::lemma_map_size(s, img, f);
    vstd::set_lib::lemma_int_range(0, 0x1_0000_0000);
    assert(img.subset_of(vstd::set_lib::set_int_range(0, 0x1_0000_0000)));
    vstd::set_lib::lemma_len_subset(img, vstd::set_lib::set_int_range(0, 0x1_0000_0000));
}

} // verus!
