use vstd::prelude::*;

verus! {

/// The last element of `s` that satisfies `p`: a table kept as a sequence of
/// records answers a lookup with its most recent record for the key.
pub open spec fn last_match<T>(s: Seq<T>, p: spec_fn(T) -> bool) -> Option<T>
    decreases s.len(),
{
    if s.len() == 0 {
        None
    } else if p(s.last()) {
        Some(s.last())
    } else {
        last_match(s.drop_last(), p)
    }
}

/// A record appended to the table is what its key finds; other keys find
/// what they found before.
pub proof fn lemma_last_match_push<T>(s: Seq<T>, x: T, p: spec_fn(T) -> bool)
    ensures
        last_match(s.push(x), p) == if p(x) {
            Some(x)
        } else {
            last_match(s, p)
        },
{
    assert(s.push(x).drop_last() =~= s);
}

/// Position `i` holds the last record that satisfies `p`, so it is found.
pub proof fn lemma_last_match_at<T>(s: Seq<T>, i: int, p: spec_fn(T) -> bool)
    requires
        0 <= i < s.len(),
        p(s[i]),
        forall|j: int| i < j < s.len() ==> !p(#[trigger] s[j]),
    ensures
        last_match(s, p) == Some(s[i]),
    decreases s.len(),
{
    if i < s.len() - 1 {
        assert(!p(s[s.len() - 1]));
        lemma_last_match_at(s.drop_last(), i, p);
    }
}

/// No record satisfies `p`, so nothing is found.
pub proof fn lemma_last_match_none<T>(s: Seq<T>, p: spec_fn(T) -> bool)
    requires
        forall|j: int| 0 <= j < s.len() ==> !p(#[trigger] s[j]),
    ensures
        last_match(s, p) is None,
    decreases s.len(),
{
    if s.len() > 0 {
        assert(!p(s[s.len() - 1]));
        lemma_last_match_none(s.drop_last(), p);
    }
}

/// Replacing the last record for a key by another record for it: the key
/// finds the new record.
pub proof fn lemma_last_match_replace<T>(s: Seq<T>, i: int, x: T, p: spec_fn(T) -> bool)
    requires
        0 <= i < s.len(),
        p(x),
        forall|j: int| i < j < s.len() ==> !p(#[trigger] s[j]),
    ensures
        last_match(s.update(i, x), p) == Some(x),
{
    let u = s.update(i, x);
    assert forall|j: int| i < j < u.len() implies !p(#[trigger] u[j]) by {
        assert(u[j] == s[j]);
    }
    lemma_last_match_at(u, i, p);
}

/// Replacing a record that `q` does not select by another that it does not
/// select changes nothing for `q`.
pub proof fn lemma_last_match_other<T>(s: Seq<T>, i: int, x: T, q: spec_fn(T) -> bool)
    requires
        0 <= i < s.len(),
        !q(s[i]),
        !q(x),
    ensures
        last_match(s.update(i, x), q) == last_match(s, q),
    decreases s.len(),
{
    let u = s.update(i, x);
    if i == s.len() - 1 {
        assert(u.drop_last() =~= s.drop_last());
    } else {
        lemma_last_match_other(s.drop_last(), i, x, q);
        assert(u.drop_last() =~= s.drop_last().update(i, x));
    }
}

} // verus!
