//! Shared helpers: first-match search over sequences, and deep-copy helpers
//! whose contracts state that the copy has the same view as the original.

use vstd::prelude::*;

verus! {

/// Index of the first element of `s` satisfying `p`, if any.
pub open spec fn first_idx<T>(s: Seq<T>, p: spec_fn(T) -> bool) -> Option<int>
    decreases s.len(),
{
    if s.len() == 0 {
        None
    } else if p(s[0]) {
        Some(0)
    } else {
        match first_idx(s.drop_first(), p) {
            None => None,
            Some(i) => Some(i + 1),
        }
    }
}

/// What `first_idx` means: `None` iff no element matches; `Some(i)` iff
/// `s[i]` is the first match.
pub proof fn lemma_first_idx<T>(s: Seq<T>, p: spec_fn(T) -> bool)
    ensures
        match first_idx(s, p) {
            None => forall|j: int| 0 <= j < s.len() ==> !p(s[j]),
            Some(i) => 0 <= i < s.len() && p(s[i]) && forall|j: int| 0 <= j < i ==> !p(s[j]),
        },
    decreases s.len(),
{
    if s.len() > 0 {
        if !p(s[0]) {
            lemma_first_idx(s.drop_first(), p);
            assert forall|j: int| 0 <= j < s.len() implies s.drop_first()[j - 1] == s[j] || j == 0
            by {}
        }
    }
}

/// The first match is determined by any witness index `i` whose prefix has
/// no match.
pub proof fn lemma_first_idx_is<T>(s: Seq<T>, p: spec_fn(T) -> bool, i: int)
    requires
        0 <= i < s.len(),
        p(s[i]),
        forall|j: int| 0 <= j < i ==> !p(s[j]),
    ensures
        first_idx(s, p) == Some(i),
    decreases s.len(),
{
    if i == 0 {
    } else {
        assert(!p(s[0]));
        assert forall|j: int| 0 <= j < i - 1 implies !p(s.drop_first()[j]) by {
            assert(s.drop_first()[j] == s[j + 1]);
        }
        assert(s.drop_first()[i - 1] == s[i]);
        lemma_first_idx_is(s.drop_first(), p, i - 1);
    }
}

/// If no element matches, `first_idx` is `None`.
pub proof fn lemma_first_idx_none<T>(s: Seq<T>, p: spec_fn(T) -> bool)
    requires
        forall|j: int| 0 <= j < s.len() ==> !p(s[j]),
    ensures
        first_idx(s, p) == None::<int>,
{
    lemma_first_idx(s, p);
    if let Some(i) = first_idx(s, p) {
        assert(p(s[i]));
    }
}

/// How many elements of `s` satisfy `p`.
pub open spec fn count_matching<T>(s: Seq<T>, p: spec_fn(T) -> bool) -> int
    decreases s.len(),
{
    if s.len() == 0 {
        0
    } else {
        (if p(s[0]) {
            1int
        } else {
            0int
        }) + count_matching(s.drop_first(), p)
    }
}

/// The count is non-negative and bounded by the length.
pub proof fn lemma_count_matching_bounds<T>(s: Seq<T>, p: spec_fn(T) -> bool)
    ensures
        0 <= count_matching(s, p) <= s.len(),
    decreases s.len(),
{
    if s.len() > 0 {
        lemma_count_matching_bounds(s.drop_first(), p);
    }
}

/// Removing one element removes its contribution to the count.
pub proof fn lemma_count_matching_remove<T>(s: Seq<T>, p: spec_fn(T) -> bool, i: int)
    requires
        0 <= i < s.len(),
    ensures
        count_matching(s, p) == count_matching(s.remove(i), p) + (if p(s[i]) {
            1int
        } else {
            0int
        }),
    decreases s.len(),
{
    if i == 0 {
        assert(s.remove(0) =~= s.drop_first());
    } else {
        lemma_count_matching_remove(s.drop_first(), p, i - 1);
        assert(s.remove(i).drop_first() =~= s.drop_first().remove(i - 1));
        assert(s.drop_first()[i - 1] == s[i]);
    }
}

/// Two sequences holding the same elements the same number of times have
/// the same count for every predicate.
pub proof fn lemma_count_matching_permutation<T>(s1: Seq<T>, s2: Seq<T>, p: spec_fn(T) -> bool)
    requires
        s1.to_multiset() == s2.to_multiset(),
    ensures
        count_matching(s1, p) == count_matching(s2, p),
    decreases s1.len(),
{
    broadcast use vstd::seq_lib::group_to_multiset_ensures;

    if s1.len() == 0 {
        assert(s2.to_multiset().len() == 0);
        assert(s2.len() == 0);
    } else {
        let x = s1[0];
        assert(s1.remove(0).to_multiset() =~= s1.to_multiset().remove(x));
        assert(s1.to_multiset().count(x) > 0);
        assert(s2.to_multiset().count(x) > 0);
        assert(s2.contains(x));
        let j = choose|j: int| 0 <= j < s2.len() && s2[j] == x;
        assert(s2.remove(j).to_multiset() =~= s2.to_multiset().remove(x));
        lemma_count_matching_permutation(s1.remove(0), s2.remove(j), p);
        lemma_count_matching_remove(s1, p, 0);
        lemma_count_matching_remove(s2, p, j);
    }
}

/// Whether some element satisfying `p` exists is likewise determined by the
/// multiset of elements.
pub proof fn lemma_exists_matching_permutation<T>(s1: Seq<T>, s2: Seq<T>, p: spec_fn(T) -> bool)
    requires
        s1.to_multiset() == s2.to_multiset(),
    ensures
        (exists|i: int| 0 <= i < s1.len() && p(#[trigger] s1[i])) == (exists|j: int|
            0 <= j < s2.len() && p(#[trigger] s2[j])),
{
    broadcast use vstd::seq_lib::group_to_multiset_ensures;

    assert forall|i: int| 0 <= i < s1.len() && p(s1[i]) implies (exists|j: int|
        0 <= j < s2.len() && p(#[trigger] s2[j])) by {
        assert(s1.contains(s1[i]));
        assert(s1.to_multiset().count(s1[i]) > 0);
        assert(s2.contains(s1[i]));
        let j = choose|j: int| 0 <= j < s2.len() && s2[j] == s1[i];
        assert(p(s2[j]));
    }
    assert forall|j: int| 0 <= j < s2.len() && p(s2[j]) implies (exists|i: int|
        0 <= i < s1.len() && p(#[trigger] s1[i])) by {
        assert(s2.contains(s2[j]));
        assert(s2.to_multiset().count(s2[j]) > 0);
        assert(s1.contains(s2[j]));
        let i = choose|i: int| 0 <= i < s1.len() && s1[i] == s2[j];
        assert(p(s1[i]));
    }
}

/// Two equally long sequences on which a predicate agrees index by index
/// have the same first match.
pub proof fn lemma_first_idx_same_pred<T>(s1: Seq<T>, s2: Seq<T>, p: spec_fn(T) -> bool)
    requires
        s1.len() == s2.len(),
        forall|j: int| 0 <= j < s1.len() ==> p(#[trigger] s1[j]) == p(#[trigger] s2[j]),
    ensures
        first_idx(s1, p) == first_idx(s2, p),
    decreases s1.len(),
{
    if s1.len() > 0 {
        assert forall|j: int| 0 <= j < s1.len() - 1 implies p(#[trigger] s1.drop_first()[j]) == p(
            #[trigger] s2.drop_first()[j],
        ) by {
            assert(s1.drop_first()[j] == s1[j + 1]);
            assert(s2.drop_first()[j] == s2[j + 1]);
        }
        lemma_first_idx_same_pred(s1.drop_first(), s2.drop_first(), p);
    }
}

/// Pushing onto a vector pushes the element's view onto the vector's view.
pub proof fn lemma_push_deep_view<T: DeepView>(v1: Vec<T>, v2: Vec<T>, x: T)
    requires
        v2@ == v1@.push(x),
    ensures
        v2.deep_view() == v1.deep_view().push(x.deep_view()),
{
    assert(v2.deep_view() =~= v1.deep_view().push(x.deep_view()));
}

/// Whether the sequence of strings holds one equal to `s`.
pub fn vec_contains_str(v: &Vec<String>, s: &str) -> (r: bool)
    ensures
        r == v.deep_view().contains(s@),
{
    let mut i: usize = 0;
    while i < v.len()
        invariant
            i <= v.len(),
            forall|j: int| 0 <= j < i ==> v.deep_view()[j] != s@,
        decreases v.len() - i,
    {
        if crate::text::str_eq(v[i].as_str(), s) {
            proof {
                assert(v.deep_view()[i as int] == s@);
            }
            return true;
        }
        proof {
            assert(v.deep_view()[i as int] == v@[i as int]@);
        }
        i = i + 1;
    }
    proof {
        if v.deep_view().contains(s@) {
            let j = choose|j: int| 0 <= j < v.deep_view().len() && v.deep_view()[j] == s@;
            assert(v.deep_view()[j] != s@);
        }
    }
    false
}

/// Whether the byte vector holds `x`.
pub fn vec_contains_u8(v: &Vec<u8>, x: u8) -> (r: bool)
    ensures
        r == v@.contains(x),
{
    let mut i: usize = 0;
    while i < v.len()
        invariant
            i <= v.len(),
            forall|j: int| 0 <= j < i ==> v@[j] != x,
        decreases v.len() - i,
    {
        if v[i] == x {
            return true;
        }
        i = i + 1;
    }
    proof {
        if v@.contains(x) {
            let j = choose|j: int| 0 <= j < v@.len() && v@[j] == x;
            assert(v@[j] != x);
        }
    }
    false
}

/// Copies an optional string; the copy equals the original.
pub fn clone_opt_string(o: &Option<String>) -> (r: Option<String>)
    ensures
        r == *o,
{
    match o {
        Option::None => Option::None,
        Option::Some(s) => Option::Some(s.clone()),
    }
}

/// Copies a vector of strings; the copy's view equals the original's.
pub fn clone_vec_string(v: &Vec<String>) -> (r: Vec<String>)
    ensures
        r.deep_view() == v.deep_view(),
{
    let mut r: Vec<String> = Vec::new();
    let mut i: usize = 0;
    while i < v.len()
        invariant
            i <= v.len(),
            r.len() == i,
            forall|j: int| 0 <= j < i ==> r@[j] == v@[j],
        decreases v.len() - i,
    {
        r.push(v[i].clone());
        i = i + 1;
    }
    proof {
        assert(r.deep_view() =~= v.deep_view());
    }
    r
}

/// Copies an optional vector of strings; the copy's view equals the
/// original's.
pub fn clone_opt_vec_string(o: &Option<Vec<String>>) -> (r: Option<Vec<String>>)
    ensures
        r.deep_view() == o.deep_view(),
{
    match o {
        Option::None => Option::None,
        Option::Some(v) => Option::Some(clone_vec_string(v)),
    }
}

/// Copies a vector of values whose own copies preserve the deep view; the
/// copy's deep view equals the original's.
pub fn clone_vec_deep<T: Clone + DeepView>(v: &Vec<T>) -> (r: Vec<T>)
    requires
        forall|a: T, b: T| cloned(a, b) ==> a.deep_view() == b.deep_view(),
    ensures
        r.deep_view() == v.deep_view(),
{
    let r = v.clone();
    proof {
        assert forall|i: int| 0 <= i < v.len() implies r.deep_view()[i] == v.deep_view()[i] by {
            assert(cloned(v[i], r[i]));
        }
        assert(r.deep_view() =~= v.deep_view());
    }
    r
}

/// Copies an optional vector under the same conditions as `clone_vec_deep`.
pub fn clone_opt_vec_deep<T: Clone + DeepView>(o: &Option<Vec<T>>) -> (r: Option<Vec<T>>)
    requires
        forall|a: T, b: T| cloned(a, b) ==> a.deep_view() == b.deep_view(),
    ensures
        r.deep_view() == o.deep_view(),
{
    match o {
        Option::None => Option::None,
        Option::Some(v) => Option::Some(clone_vec_deep(v)),
    }
}

} // verus!
