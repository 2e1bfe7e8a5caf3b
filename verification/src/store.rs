//! The in-memory cache of run summaries: lookup by id and append with a
//! deterministic last-write policy, keeping at most one entry per id.

use vstd::prelude::*;
use crate::summary::{RunSummary, RunSummaryView};

verus! {

/// Index of the first entry with the given id, if any.
pub open spec fn first_match(c: Seq<RunSummaryView>, id: int) -> Option<int>
    decreases c.len(),
{
    if c.len() == 0 {
        None
    } else if c[0].id == id {
        Some(0int)
    } else {
        match first_match(c.drop_first(), id) {
            Some(i) => Some(i + 1),
            None => None,
        }
    }
}

/// What a lookup returns: the first entry with the id.
pub open spec fn lookup_spec(c: Seq<RunSummaryView>, id: int) -> Option<RunSummaryView> {
    match first_match(c, id) {
        Some(i) => Some(c[i]),
        None => None,
    }
}

/// What an append leaves behind: last-write wins. If the id is already
/// present its entry is replaced in place; otherwise the summary is pushed.
pub open spec fn append_spec(c: Seq<RunSummaryView>, s: RunSummaryView) -> Seq<RunSummaryView> {
    match first_match(c, s.id) {
        Some(i) => c.update(i, s),
        None => c.push(s),
    }
}

/// The cache invariant: at most one entry per id.
pub open spec fn unique_ids(c: Seq<RunSummaryView>) -> bool {
    forall|i: int, j: int| 0 <= i < j < c.len() ==> c[i].id != c[j].id
}

pub proof fn lemma_first_match_props(c: Seq<RunSummaryView>, id: int)
    ensures
        match first_match(c, id) {
            Some(i) => 0 <= i < c.len() && c[i].id == id && forall|j: int|
                0 <= j < i ==> c[j].id != id,
            None => forall|j: int| 0 <= j < c.len() ==> c[j].id != id,
        },
    decreases c.len(),
{
    if c.len() > 0 && c[0].id != id {
        let d = c.drop_first();
        lemma_first_match_props(d, id);
        assert(forall|j: int| 0 <= j < d.len() ==> #[trigger] d[j] == c[j + 1]);
        match first_match(d, id) {
            Some(i) => {
                assert forall|j: int| 0 <= j < i + 1 implies c[j].id != id by {
                    if j > 0 {
                        assert(c[j] == d[j - 1]);
                    }
                }
            },
            None => {
                assert forall|j: int| 0 <= j < c.len() implies c[j].id != id by {
                    if j > 0 {
                        assert(c[j] == d[j - 1]);
                    }
                }
            },
        }
    }
}

pub proof fn lemma_first_match_at(c: Seq<RunSummaryView>, id: int, idx: int)
    requires
        0 <= idx < c.len(),
        c[idx].id == id,
        forall|j: int| 0 <= j < idx ==> c[j].id != id,
    ensures
        first_match(c, id) == Some(idx),
    decreases c.len(),
{
    if idx > 0 {
        lemma_first_match_at(c.drop_first(), id, idx - 1);
    }
}

pub proof fn lemma_first_match_none(c: Seq<RunSummaryView>, id: int)
    requires
        forall|j: int| 0 <= j < c.len() ==> c[j].id != id,
    ensures
        first_match(c, id) is None,
    decreases c.len(),
{
    if c.len() > 0 {
        lemma_first_match_none(c.drop_first(), id);
    }
}

/// An appended summary is what a lookup of its id then finds, fields and
/// roster order included, whatever the cache held before.
pub proof fn lemma_append_then_lookup(c: Seq<RunSummaryView>, s: RunSummaryView)
    ensures
        lookup_spec(append_spec(c, s), s.id) == Some(s),
{
    lemma_first_match_props(c, s.id);
    match first_match(c, s.id) {
        Some(i) => {
            let c2 = c.update(i, s);
            lemma_first_match_at(c2, s.id, i);
        },
        None => {
            let c2 = c.push(s);
            lemma_first_match_at(c2, s.id, c.len() as int);
        },
    }
}

/// Appending never creates a second entry with the same id: the invariant
/// is preserved.
pub proof fn lemma_append_preserves_unique(c: Seq<RunSummaryView>, s: RunSummaryView)
    requires
        unique_ids(c),
    ensures
        unique_ids(append_spec(c, s)),
{
    lemma_first_match_props(c, s.id);
    match first_match(c, s.id) {
        Some(i) => {
            let c2 = c.update(i, s);
            assert forall|p: int, q: int| 0 <= p < q < c2.len() implies c2[p].id != c2[q].id by {
                assert(c[p].id != c[q].id);
            }
        },
        None => {
            let c2 = c.push(s);
            assert forall|p: int, q: int| 0 <= p < q < c2.len() implies c2[p].id != c2[q].id by {
                if q < c.len() {
                    assert(c[p].id != c[q].id);
                } else {
                    assert(c[p].id != s.id);
                }
            }
        },
    }
}

/// Linear scan for the first summary with the given id.
pub fn lookup_in(cache: &Vec<RunSummary>, id: i64) -> (r: Option<RunSummary>)
    ensures
        match r {
            Some(s) => lookup_spec(cache.deep_view(), id as int) == Some(s@),
            None => lookup_spec(cache.deep_view(), id as int) is None,
        },
{
    let ghost c = cache.deep_view();
    let mut i: usize = 0;
    while i < cache.len()
        invariant
            0 <= i <= cache.len(),
            c == cache.deep_view(),
            c.len() == cache.len(),
            forall|j: int| 0 <= j < i ==> c[j].id != id as int,
        decreases cache.len() - i,
    {
        proof {
            assert(c[i as int] == cache[i as int]@);
        }
        if cache[i].id == id {
            let found = cache[i].clone();
            proof {
                lemma_first_match_at(c, id as int, i as int);
            }
            return Some(found);
        }
        i += 1;
    }
    proof {
        lemma_first_match_none(c, id as int);
    }
    None
}

/// Records a summary: replaces the entry with its id if one exists, else
/// pushes it at the end (last-write wins, so the result is deterministic).
#[verifier::loop_isolation(false)]
pub fn append_to(cache: &mut Vec<RunSummary>, s: RunSummary)
    ensures
        final(cache).deep_view() == append_spec(old(cache).deep_view(), s@),
{
    let ghost c = old(cache).deep_view();
    let ghost sv = s@;
    let mut i: usize = 0;
    while i < cache.len()
        invariant
            0 <= i <= cache.len(),
            c == cache.deep_view(),
            c.len() == cache.len(),
            forall|j: int| 0 <= j < i ==> c[j].id != sv.id,
            sv == s@,
        decreases cache.len() - i,
    {
        proof {
            assert(c[i as int] == cache[i as int]@);
        }
        if cache[i].id == s.id {
            proof {
                lemma_first_match_at(c, sv.id, i as int);
            }
            let ghost v0 = cache@;
            cache.remove(i);
            cache.insert(i, s);
            proof {
                assert(cache@ =~= v0.update(i as int, s));
                assert forall|k: int| 0 <= k < c.len() implies cache.deep_view()[k] == c.update(
                    i as int,
                    sv,
                )[k] by {
                    assert(cache@[k] == v0.update(i as int, s)[k]);
                    if k != i as int {
                        assert(c[k] == v0[k].deep_view());
                    }
                }
                assert(cache.deep_view() =~= c.update(i as int, sv));
            }
            return;
        }
        i += 1;
    }
    proof {
        lemma_first_match_none(c, sv.id);
    }
    let ghost v0 = cache@;
    cache.push(s);
    proof {
        assert forall|k: int| 0 <= k < c.len() + 1 implies cache.deep_view()[k] == c.push(sv)[k] by {
            if k < c.len() {
                assert(cache@[k] == v0[k]);
                assert(c[k] == v0[k].deep_view());
            } else {
                assert(cache@[k] == s);
            }
        }
        assert(cache.deep_view() =~= c.push(sv));
    }
}

} // verus!
