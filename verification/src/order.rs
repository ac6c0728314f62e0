//! Deterministic ordering of variable names.
//!
//! The reducer assigns each distinct variable an index by sorting the names
//! that occur in a formula and removing duplicates, so that reduction is
//! reproducible. The order is the lexicographic order on the character
//! sequences of the names, which for UTF-8 encoded strings coincides with
//! the byte order `str` is compared by.

use vstd::prelude::*;

verus! {

broadcast use vstd::seq_lib::group_to_multiset_ensures;

/// Whether two string slices spell the same characters.
pub fn str_is(s: &str, t: &str) -> (r: bool)
    ensures
        r == (s@ == t@),
{
    let a = String::from_str(s);
    let b = String::from_str(t);
    a.eq(&b)
}

/// Lexicographic `<=` on character sequences, by code point.
pub open spec fn lex_leq(a: Seq<char>, b: Seq<char>) -> bool
    decreases a.len(),
{
    if a.len() == 0 {
        true
    } else if b.len() == 0 {
        false
    } else if (a[0] as int) < (b[0] as int) {
        true
    } else if (a[0] as int) > (b[0] as int) {
        false
    } else {
        lex_leq(a.drop_first(), b.drop_first())
    }
}

/// The ordering relation as a value, for use with sequence sorting.
pub open spec fn name_order() -> spec_fn(Seq<char>, Seq<char>) -> bool {
    |a: Seq<char>, b: Seq<char>| lex_leq(a, b)
}

proof fn lemma_lex_leq_reflexive(a: Seq<char>)
    ensures
        lex_leq(a, a),
    decreases a.len(),
{
    if a.len() > 0 {
        lemma_lex_leq_reflexive(a.drop_first());
    }
}

proof fn lemma_lex_leq_antisymmetric(a: Seq<char>, b: Seq<char>)
    requires
        lex_leq(a, b),
        lex_leq(b, a),
    ensures
        a == b,
    decreases a.len(),
{
    if a.len() == 0 {
        assert(b.len() == 0);
        assert(a =~= b);
    } else {
        assert(b.len() > 0);
        assert(!((a[0] as int) < (b[0] as int)));
        assert(!((a[0] as int) > (b[0] as int)));
        assert(a[0] as int == b[0] as int);
        assert(a[0] == b[0]);
        lemma_lex_leq_antisymmetric(a.drop_first(), b.drop_first());
        assert(a =~= b) by {
            assert(a.drop_first() =~= b.drop_first());
            assert(a.len() == b.len());
            assert(forall|i: int| 1 <= i < a.len() ==> a[i] == a.drop_first()[i - 1]);
        }
    }
}

proof fn lemma_lex_leq_transitive(a: Seq<char>, b: Seq<char>, c: Seq<char>)
    requires
        lex_leq(a, b),
        lex_leq(b, c),
    ensures
        lex_leq(a, c),
    decreases a.len(),
{
    if a.len() > 0 && b.len() > 0 && c.len() > 0 {
        if a[0] == b[0] && b[0] == c[0] {
            lemma_lex_leq_transitive(a.drop_first(), b.drop_first(), c.drop_first());
        }
    }
}

proof fn lemma_lex_leq_connected(a: Seq<char>, b: Seq<char>)
    ensures
        lex_leq(a, b) || lex_leq(b, a),
    decreases a.len(),
{
    if a.len() > 0 && b.len() > 0 && a[0] == b[0] {
        lemma_lex_leq_connected(a.drop_first(), b.drop_first());
    }
}

/// The name order is a total ordering, which makes the sorted form of a
/// collection of names unique.
pub proof fn lemma_name_order_total()
    ensures
        vstd::relations::total_ordering(name_order()),
{
    let leq = name_order();
    assert forall|a: Seq<char>| #[trigger] leq(a, a) by {
        lemma_lex_leq_reflexive(a);
    }
    assert forall|a: Seq<char>, b: Seq<char>| #[trigger] leq(a, b) && #[trigger] leq(b, a)
        implies a == b by {
        lemma_lex_leq_antisymmetric(a, b);
    }
    assert forall|a: Seq<char>, b: Seq<char>, c: Seq<char>|
        #[trigger] leq(a, b) && #[trigger] leq(b, c) implies leq(a, c) by {
        lemma_lex_leq_transitive(a, b, c);
    }
    assert forall|a: Seq<char>, b: Seq<char>| #![trigger leq(a, b)] true implies leq(a, b) || leq(
        b,
        a,
    ) by {
        lemma_lex_leq_connected(a, b);
    }
}

/// Relies on `itertools::Itertools::sorted`, which collects the names and
/// sorts them by `str`'s `Ord`: the result is a permutation of the input in
/// nondecreasing order. `str` orders strings lexicographically by byte,
/// which on UTF-8 text is exactly the lexicographic order by code point that
/// `lex_leq` states.
#[verifier::external_body]
fn sorted_strings(names: Vec<String>) -> (r: Vec<String>)
    ensures
        r.deep_view().to_multiset() == names.deep_view().to_multiset(),
        vstd::relations::sorted_by(r.deep_view(), name_order()),
{
    itertools::Itertools::sorted(names.into_iter()).collect()
}

/// Sorts names into nondecreasing lexicographic order. The result is pinned
/// exactly: it is the unique sorted permutation of the input.
pub fn sort_names(names: Vec<String>) -> (r: Vec<String>)
    ensures
        r.deep_view() == names.deep_view().sort_by(name_order()),
{
    let r = sorted_strings(names);
    proof {
        lemma_name_order_total();
        names.deep_view().lemma_sort_by_ensures(name_order());
        vstd::seq_lib::lemma_sorted_unique(
            r.deep_view(),
            names.deep_view().sort_by(name_order()),
            name_order(),
        );
    }
    r
}

/// Removal of adjacent duplicates: a name is kept when it differs from its
/// predecessor. On sorted input this keeps exactly one copy of each name.
pub open spec fn dedup_adjacent(s: Seq<Seq<char>>) -> Seq<Seq<char>>
    decreases s.len(),
{
    if s.len() == 0 {
        s
    } else if s.len() == 1 {
        s
    } else if s.last() == s[s.len() - 2] {
        dedup_adjacent(s.drop_last())
    } else {
        dedup_adjacent(s.drop_last()).push(s.last())
    }
}

/// Deduplication keeps exactly the set of names of its input.
pub proof fn lemma_dedup_adjacent_contains(s: Seq<Seq<char>>, x: Seq<char>)
    ensures
        dedup_adjacent(s).contains(x) <==> s.contains(x),
    decreases s.len(),
{
    if s.len() >= 2 {
        let t = s.drop_last();
        let d = dedup_adjacent(t);
        lemma_dedup_adjacent_contains(t, x);
        if s.contains(x) {
            let i = choose|i: int| 0 <= i < s.len() && s[i] == x;
            if i < s.len() - 1 {
                assert(t[i] == x);
                assert(t.contains(x));
                if s.last() == s[s.len() - 2] {
                    assert(dedup_adjacent(s) == d);
                    assert(dedup_adjacent(s).contains(x));
                } else {
                    let j = choose|j: int| 0 <= j < d.len() && d[j] == x;
                    assert(d.push(s.last())[j] == x);
                    assert(dedup_adjacent(s).contains(x));
                }
            } else {
                assert(s.last() == x);
                if s.last() == s[s.len() - 2] {
                    assert(t[s.len() - 2] == x);
                    assert(t.contains(x));
                    assert(dedup_adjacent(s).contains(x));
                } else {
                    assert(d.push(s.last())[d.len() as int] == x);
                    assert(dedup_adjacent(s).contains(x));
                }
            }
        }
        if dedup_adjacent(s).contains(x) {
            if s.last() == s[s.len() - 2] {
                assert(d.contains(x));
                assert(t.contains(x));
                let i = choose|i: int| 0 <= i < t.len() && t[i] == x;
                assert(s[i] == x);
                assert(s.contains(x));
            } else {
                let i = choose|i: int|
                    0 <= i < d.push(s.last()).len() && d.push(s.last())[i] == x;
                if i < d.len() {
                    assert(d[i] == x);
                    assert(d.contains(x));
                    assert(t.contains(x));
                    let j = choose|j: int| 0 <= j < t.len() && t[j] == x;
                    assert(s[j] == x);
                    assert(s.contains(x));
                } else {
                    assert(s.last() == x);
                    assert(s[s.len() - 1] == x);
                    assert(s.contains(x));
                }
            }
        }
    }
}

/// Removes adjacent duplicate names, keeping the first of each run.
pub fn dedup_names(names: &Vec<String>) -> (r: Vec<String>)
    ensures
        r.deep_view() == dedup_adjacent(names.deep_view()),
{
    let mut r: Vec<String> = Vec::new();
    let mut i: usize = 0;
    while i < names.len()
        invariant
            i <= names@.len(),
            r.deep_view() == dedup_adjacent(names.deep_view().take(i as int)),
        decreases names@.len() - i,
    {
        proof {
            let prefix = names.deep_view().take(i as int + 1);
            assert(prefix.drop_last() =~= names.deep_view().take(i as int));
            assert(prefix.last() == names.deep_view()[i as int]);
        }
        if i == 0 || !names[i - 1].eq(&names[i]) {
            r.push(names[i].clone());
        }
        proof {
            assert(r.deep_view() =~= dedup_adjacent(names.deep_view().take(i as int + 1)));
        }
        i = i + 1;
    }
    proof {
        assert(names.deep_view().take(names@.len() as int) =~= names.deep_view());
    }
    r
}

/// The index of the first occurrence of a name in a list; the list length
/// when the name does not occur.
pub open spec fn index_of_name(names: Seq<Seq<char>>, x: Seq<char>) -> int
    decreases names.len(),
{
    if names.len() == 0 {
        0
    } else if names[0] == x {
        0
    } else {
        1 + index_of_name(names.drop_first(), x)
    }
}

/// The first-occurrence index is the one the linear scan finds.
pub proof fn lemma_index_of_name_first(names: Seq<Seq<char>>, x: Seq<char>, i: int)
    requires
        0 <= i < names.len(),
        names[i] == x,
        forall|j: int| 0 <= j < i ==> names[j] != x,
    ensures
        index_of_name(names, x) == i,
    decreases i,
{
    if i > 0 {
        assert(names[0] != x);
        lemma_index_of_name_first(names.drop_first(), x, i - 1);
    }
}

/// Looks up the index assigned to a registered name. A literal referencing
/// an unregistered name would be an internal error of the reducer, which
/// only looks up names it has itself collected; the precondition records
/// that, so the scan cannot run off the end.
pub fn find_name_index(names: &Vec<String>, x: &String) -> (r: usize)
    requires
        names.deep_view().contains(x@),
    ensures
        r == index_of_name(names.deep_view(), x@),
        r < names.deep_view().len(),
    decreases names@.len(),
{
    let mut i: usize = 0;
    loop
        invariant
            names.deep_view().contains(x@),
            0 <= i <= names@.len(),
            forall|j: int| 0 <= j < i ==> names.deep_view()[j] != x@,
        decreases names@.len() - i,
    {
        if i == names.len() {
            proof {
                let w = choose|w: int|
                    0 <= w < names.deep_view().len() && names.deep_view()[w] == x@;
                assert(false);
            }
        } else {
            if names[i].eq(x) {
                proof {
                    lemma_index_of_name_first(names.deep_view(), x@, i as int);
                }
                return i;
            }
        }
        i = i + 1;
    }
}

} // verus!
