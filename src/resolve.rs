use vstd::prelude::*;
use crate::error::SnipError;
use crate::ident::Identifier;
use vstd::string::*;

verus! {

broadcast use vstd::string::group_string_axioms;

/// `p` occurs in `t` as a run of consecutive characters.
pub open spec fn occurs_in(p: Seq<char>, t: Seq<char>) -> bool {
    exists|i: int| 0 <= i <= t.len() - p.len() && #[trigger] t.subrange(i, i + p.len()) == p
}

/// A partial identifier matches an identifier when it occurs in its canonical form.
pub open spec fn matches_partial(id: Identifier, p: Seq<char>) -> bool {
    occurs_in(p, id.text())
}

/// How many entries of `ids` the partial identifier `p` matches.
pub open spec fn match_count(ids: Seq<Identifier>, p: Seq<char>) -> nat
    decreases ids.len(),
{
    if ids.len() == 0 {
        0
    } else {
        match_count(ids.drop_last(), p) + if matches_partial(ids.last(), p) {
            1nat
        } else {
            0nat
        }
    }
}

/// Tests whether `p` occurs in `t`.
pub fn occurs(p: &str, t: &str) -> (r: bool)
    ensures
        r == occurs_in(p@, t@),
{
    let n = t.unicode_len();
    let m = p.unicode_len();
    if m > n {
        proof {
            assert forall|i: int| 0 <= i <= t@.len() - p@.len() implies #[trigger] t@.subrange(
                i,
                i + p@.len(),
            ) != p@ by {}
        }
        return false;
    }
    let mut i: usize = 0;
    while i <= n - m
        invariant
            n == t@.len(),
            m == p@.len(),
            m <= n,
            i <= n - m + 1,
            forall|k: int| 0 <= k < i ==> #[trigger] t@.subrange(k, k + m) != p@,
        decreases n - m + 1 - i,
    {
        let mut j: usize = 0;
        while j < m && t.get_char(i + j) == p.get_char(j)
            invariant
                n == t@.len(),
                m == p@.len(),
                i + m <= n,
                j <= m,
                forall|l: int| 0 <= l < j ==> t@[i + l] == p@[l],
            decreases m - j,
        {
            j = j + 1;
        }
        if j == m {
            assert(t@.subrange(i as int, i + m) =~= p@);
            return true;
        }
        assert(t@.subrange(i as int, i + m)[j as int] != p@[j as int]);
        i = i + 1;
    }
    false
}

/// Finds the one identifier of `ids` in whose canonical form `partial` occurs.
/// Fails with `NotFound` when there is none and with `MultipleMatches` when
/// there are two or more; the search stops at the second match.
pub fn resolve(partial: &str, ids: &Vec<Identifier>) -> (r: Result<Identifier, SnipError>)
    ensures
        match_count(ids@, partial@) == 1 <==> r is Ok,
        r matches Ok(id) ==> ids@.contains(id) && matches_partial(id, partial@),
        match_count(ids@, partial@) == 0 <==> r matches Err(SnipError::NotFound(_)),
        match_count(ids@, partial@) >= 2 <==> r matches Err(SnipError::MultipleMatches(_)),
        r matches Err(SnipError::NotFound(t)) ==> t@ == partial@,
        r matches Err(SnipError::MultipleMatches(t)) ==> t@ == partial@,
{
    let mut found: Option<Identifier> = None;
    let mut i: usize = 0;
    while i < ids.len()
        invariant
            i <= ids@.len(),
            match_count(ids@.take(i as int), partial@) == if found is Some {
                1nat
            } else {
                0nat
            },
            found matches Some(id) ==> ids@.contains(id) && matches_partial(id, partial@),
        decreases ids@.len() - i,
    {
        let id = ids[i];
        let text = id.format();
        let hit = occurs(partial, text.as_str());
        proof {
            assert(ids@.take(i + 1).drop_last() =~= ids@.take(i as int));
        }
        if hit {
            if found.is_some() {
                proof {
                    lemma_count_prefix(ids@, partial@, i + 1);
                }
                return Err(SnipError::MultipleMatches(partial.to_string()));
            }
            found = Some(id);
        }
        i = i + 1;
    }
    assert(ids@.take(ids@.len() as int) =~= ids@);
    match found {
        Some(id) => Ok(id),
        None => Err(SnipError::NotFound(partial.to_string())),
    }
}

/// A prefix of a collection has no more matches than the whole.
pub proof fn lemma_count_prefix(ids: Seq<Identifier>, p: Seq<char>, n: int)
    requires
        0 <= n <= ids.len(),
    ensures
        match_count(ids.take(n), p) <= match_count(ids, p),
    decreases ids.len(),
{
    if n == ids.len() {
        assert(ids.take(n) =~= ids);
    } else {
        assert(ids.drop_last().take(n) =~= ids.take(n));
        lemma_count_prefix(ids.drop_last(), p, n);
    }
}

/// When no entry's canonical form contains the partial string, nothing matches.
pub proof fn lemma_count_none(ids: Seq<Identifier>, p: Seq<char>)
    requires
        forall|j: int| 0 <= j < ids.len() ==> !matches_partial(#[trigger] ids[j], p),
    ensures
        match_count(ids, p) == 0,
    decreases ids.len(),
{
    if ids.len() > 0 {
        let d = ids.drop_last();
        assert forall|j: int| 0 <= j < d.len() implies !matches_partial(#[trigger] d[j], p) by {
            assert(d[j] == ids[j]);
        }
        lemma_count_none(d, p);
        assert(!matches_partial(ids[ids.len() - 1], p));
    }
}

/// When some entry's canonical form contains the partial string, there is a match.
pub proof fn lemma_count_some(ids: Seq<Identifier>, p: Seq<char>, i: int)
    requires
        0 <= i < ids.len(),
        matches_partial(ids[i], p),
    ensures
        match_count(ids, p) >= 1,
    decreases ids.len(),
{
    if i < ids.len() - 1 {
        let d = ids.drop_last();
        assert(d[i] == ids[i]);
        lemma_count_some(d, p, i);
    }
}

/// When exactly one entry's canonical form contains the partial string, there is
/// exactly one match, so resolution returns that entry.
pub proof fn lemma_count_one(ids: Seq<Identifier>, p: Seq<char>, i: int)
    requires
        0 <= i < ids.len(),
        matches_partial(ids[i], p),
        forall|j: int| 0 <= j < ids.len() && j != i ==> !matches_partial(#[trigger] ids[j], p),
    ensures
        match_count(ids, p) == 1,
    decreases ids.len(),
{
    let d = ids.drop_last();
    if i == ids.len() - 1 {
        assert forall|j: int| 0 <= j < d.len() implies !matches_partial(#[trigger] d[j], p) by {
            assert(d[j] == ids[j]);
        }
        lemma_count_none(d, p);
    } else {
        assert(d[i] == ids[i]);
        assert forall|j: int| 0 <= j < d.len() && j != i implies !matches_partial(
            #[trigger] d[j],
            p,
        ) by {
            assert(d[j] == ids[j]);
        }
        lemma_count_one(d, p, i);
        assert(!matches_partial(ids[ids.len() - 1], p));
    }
}

/// When two entries' canonical forms contain the partial string, there are two or
/// more matches, so resolution reports the partial string as ambiguous.
pub proof fn lemma_count_two(ids: Seq<Identifier>, p: Seq<char>, i: int, j: int)
    requires
        0 <= i < j < ids.len(),
        matches_partial(ids[i], p),
        matches_partial(ids[j], p),
    ensures
        match_count(ids, p) >= 2,
    decreases ids.len(),
{
    let d = ids.drop_last();
    assert(d[i] == ids[i]);
    if j == ids.len() - 1 {
        lemma_count_some(d, p, i);
    } else {
        assert(d[j] == ids[j]);
        lemma_count_two(d, p, i, j);
    }
}

} // verus!
