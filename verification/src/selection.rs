//! Selection: which example, if any, matches a query.
//!
//! The host scores the examples against the query. An example is a candidate
//! if it has an embedding and its score is a number that reaches the
//! threshold. The match is the candidate with the highest score; where
//! several candidates share the highest score, it is the one enumerated last.

use vstd::prelude::*;

use crate::registry::Entry;
use crate::similarity::Similarity;

verus! {

/// Whether example `j` of entry `i` is a candidate: it has an embedding, it
/// was given a score, and the score is a number that reaches the threshold.
pub open spec fn eligible<X>(
    registry: Seq<Entry<X>>,
    scores: Seq<Vec<Option<Similarity>>>,
    threshold: Similarity,
    i: int,
    j: int,
) -> bool {
    &&& 0 <= i < registry.len()
    &&& 0 <= j < registry[i].0@.len()
    &&& registry[i].0@[j].embedding is Some
    &&& i < scores.len()
    &&& j < scores[i]@.len()
    &&& scores[i]@[j] is Some
    &&& scores[i]@[j]->0.reaches(threshold)
}

/// Whether example `j` of entry `i` is enumerated before example `b` of entry `a`.
pub open spec fn precedes(i: int, j: int, a: int, b: int) -> bool {
    i < a || (i == a && j < b)
}

/// Whether example `j` of entry `i` is the match: a candidate that no
/// candidate outscores, and that outscores every candidate enumerated after
/// it. So of the candidates tied at the highest score, the last is the match.
pub open spec fn is_best<X>(
    registry: Seq<Entry<X>>,
    scores: Seq<Vec<Option<Similarity>>>,
    threshold: Similarity,
    i: int,
    j: int,
) -> bool {
    &&& eligible(registry, scores, threshold, i, j)
    &&& forall|m: int, n: int| #[trigger]
        eligible(registry, scores, threshold, m, n) ==> {
            &&& scores[m]@[n]->0.rank() <= scores[i]@[j]->0.rank()
            &&& precedes(i, j, m, n) ==> scores[m]@[n]->0.rank() < scores[i]@[j]->0.rank()
        }
}

/// The match for the given scores: entry and example, or `None` where there is
/// no candidate.
pub open spec fn selection<X>(
    registry: Seq<Entry<X>>,
    scores: Seq<Vec<Option<Similarity>>>,
    threshold: Similarity,
) -> Option<(int, int)> {
    if exists|p: (int, int)| is_best(registry, scores, threshold, p.0, p.1) {
        Some(choose|p: (int, int)| is_best(registry, scores, threshold, p.0, p.1))
    } else {
        None
    }
}

/// Whether example `j` of entry `i` is the match among the candidates that
/// are enumerated before example `b` of entry `a`.
pub(crate) open spec fn is_best_before<X>(
    registry: Seq<Entry<X>>,
    scores: Seq<Vec<Option<Similarity>>>,
    threshold: Similarity,
    a: int,
    b: int,
    i: int,
    j: int,
) -> bool {
    &&& eligible(registry, scores, threshold, i, j)
    &&& precedes(i, j, a, b)
    &&& forall|m: int, n: int|
        #[trigger] eligible(registry, scores, threshold, m, n) && precedes(m, n, a, b) ==> {
            &&& scores[m]@[n]->0.rank() <= scores[i]@[j]->0.rank()
            &&& precedes(i, j, m, n) ==> scores[m]@[n]->0.rank() < scores[i]@[j]->0.rank()
        }
}

/// What the scan for the match knows when it stands at example `b` of entry
/// `a`: `found` is the match among the candidates before that place, and
/// `top` is its rank.
pub(crate) open spec fn scanned<X>(
    registry: Seq<Entry<X>>,
    scores: Seq<Vec<Option<Similarity>>>,
    threshold: Similarity,
    a: int,
    b: int,
    found: Option<(usize, usize)>,
    top: i64,
) -> bool {
    match found {
        Some((i, j)) => {
            &&& is_best_before(registry, scores, threshold, a, b, i as int, j as int)
            &&& top == scores[i as int]@[j as int]->0.rank()
        },
        None => forall|m: int, n: int|
            #[trigger] eligible(registry, scores, threshold, m, n) ==> !precedes(m, n, a, b),
    }
}

/// A scan that stands behind the last entry has seen every candidate.
pub(crate) proof fn lemma_scanned_all<X>(
    registry: Seq<Entry<X>>,
    scores: Seq<Vec<Option<Similarity>>>,
    threshold: Similarity,
    found: Option<(usize, usize)>,
    top: i64,
)
    requires
        scanned(registry, scores, threshold, registry.len() as int, 0, found, top),
    ensures
        match found {
            Some((i, j)) => is_best(registry, scores, threshold, i as int, j as int),
            None => forall|m: int, n: int| !#[trigger] eligible(registry, scores, threshold, m, n),
        },
{
    assert forall|m: int, n: int| #[trigger]
        eligible(registry, scores, threshold, m, n) implies precedes(
        m,
        n,
        registry.len() as int,
        0,
    ) by {}
}

/// Selection is deterministic: for a registry and scores there is at most one
/// match.
pub proof fn match_is_unique<X>(
    registry: Seq<Entry<X>>,
    scores: Seq<Vec<Option<Similarity>>>,
    threshold: Similarity,
    i: int,
    j: int,
    a: int,
    b: int,
)
    requires
        is_best(registry, scores, threshold, i, j),
        is_best(registry, scores, threshold, a, b),
    ensures
        i == a,
        j == b,
{
}

/// The match, where there is one, is what `selection` gives.
pub proof fn match_is_selected<X>(
    registry: Seq<Entry<X>>,
    scores: Seq<Vec<Option<Similarity>>>,
    threshold: Similarity,
    i: int,
    j: int,
)
    requires
        is_best(registry, scores, threshold, i, j),
    ensures
        selection(registry, scores, threshold) == Some((i, j)),
{
    let p = (i, j);
    assert(is_best(registry, scores, threshold, p.0, p.1));
    let q = choose|q: (int, int)| is_best(registry, scores, threshold, q.0, q.1);
    match_is_unique(registry, scores, threshold, i, j, q.0, q.1);
}

/// Without a candidate there is no match.
pub proof fn no_candidate_no_match<X>(
    registry: Seq<Entry<X>>,
    scores: Seq<Vec<Option<Similarity>>>,
    threshold: Similarity,
)
    requires
        forall|i: int, j: int| !#[trigger] eligible(registry, scores, threshold, i, j),
    ensures
        selection(registry, scores, threshold) is None,
{
    assert forall|p: (int, int)| !is_best(registry, scores, threshold, p.0, p.1) by {
        assert(!eligible(registry, scores, threshold, p.0, p.1));
    }
}

/// Among the candidates enumerated before a place there is a match, unless
/// there is no candidate before it.
proof fn lemma_best_exists_before<X>(
    registry: Seq<Entry<X>>,
    scores: Seq<Vec<Option<Similarity>>>,
    threshold: Similarity,
    a: int,
    b: int,
)
    requires
        0 <= a <= registry.len(),
        0 <= b,
        a < registry.len() ==> b <= registry[a].0@.len(),
        a == registry.len() ==> b == 0,
    ensures
        (exists|p: (int, int)| is_best_before(registry, scores, threshold, a, b, p.0, p.1)) || (
        forall|m: int, n: int| #[trigger]
            eligible(registry, scores, threshold, m, n) ==> !precedes(m, n, a, b)),
    decreases a, b,
{
    if b > 0 {
        lemma_best_exists_before(registry, scores, threshold, a, b - 1);
        assert forall|m: int, n: int| precedes(m, n, a, b) <==> precedes(m, n, a, b - 1) || (m == a
            && n == b - 1) by {}
        let new = (a, b - 1);
        if exists|p: (int, int)| is_best_before(registry, scores, threshold, a, b - 1, p.0, p.1) {
            let old = choose|p: (int, int)|
                is_best_before(registry, scores, threshold, a, b - 1, p.0, p.1);
            if eligible(registry, scores, threshold, a, b - 1) && scores[a]@[b - 1]->0.rank()
                >= scores[old.0]@[old.1]->0.rank() {
                assert(is_best_before(registry, scores, threshold, a, b, new.0, new.1));
            } else {
                assert(is_best_before(registry, scores, threshold, a, b, old.0, old.1));
            }
        } else if eligible(registry, scores, threshold, a, b - 1) {
            assert(is_best_before(registry, scores, threshold, a, b, new.0, new.1));
        }
    } else if a > 0 {
        let end = registry[a - 1].0@.len() as int;
        lemma_best_exists_before(registry, scores, threshold, a - 1, end);
        assert forall|m: int, n: int| #[trigger]
            eligible(registry, scores, threshold, m, n) implies (precedes(m, n, a, 0) <==> precedes(
            m,
            n,
            a - 1,
            end,
        )) by {}
        if exists|p: (int, int)| is_best_before(registry, scores, threshold, a - 1, end, p.0, p.1) {
            let old = choose|p: (int, int)|
                is_best_before(registry, scores, threshold, a - 1, end, p.0, p.1);
            assert(is_best_before(registry, scores, threshold, a, 0, old.0, old.1));
        }
    }
}

/// Where there is a candidate there is a match: selection finds nothing only
/// where nothing reaches the threshold.
pub proof fn candidate_means_match<X>(
    registry: Seq<Entry<X>>,
    scores: Seq<Vec<Option<Similarity>>>,
    threshold: Similarity,
    i: int,
    j: int,
)
    requires
        eligible(registry, scores, threshold, i, j),
    ensures
        selection(registry, scores, threshold) is Some,
{
    lemma_best_exists_before(registry, scores, threshold, registry.len() as int, 0);
    assert(precedes(i, j, registry.len() as int, 0));
    let p = choose|p: (int, int)|
        is_best_before(registry, scores, threshold, registry.len() as int, 0, p.0, p.1);
    assert(is_best(registry, scores, threshold, p.0, p.1)) by {
        assert forall|m: int, n: int| #[trigger]
            eligible(registry, scores, threshold, m, n) implies precedes(
            m,
            n,
            registry.len() as int,
            0,
        ) by {}
    }
}

/// Where no score reaches the threshold there is no match.
pub proof fn no_match_below_threshold<X>(
    registry: Seq<Entry<X>>,
    scores: Seq<Vec<Option<Similarity>>>,
    threshold: Similarity,
)
    requires
        forall|i: int, j: int|
            0 <= i < scores.len() && 0 <= j < scores[i]@.len() && (#[trigger] scores[i]@[j]) is Some
                ==> !scores[i]@[j]->0.reaches(threshold),
    ensures
        selection(registry, scores, threshold) is None,
{
    assert forall|i: int, j: int| !#[trigger] eligible(registry, scores, threshold, i, j) by {
        if 0 <= i < scores.len() && 0 <= j < scores[i]@.len() && scores[i]@[j] is Some {
            assert(!scores[i]@[j]->0.reaches(threshold));
        }
    }
    no_candidate_no_match(registry, scores, threshold);
}

/// A candidate that is the only one is the match. So an example whose score
/// reaches the threshold is selected where nothing else was registered.
pub proof fn only_candidate_is_selected<X>(
    registry: Seq<Entry<X>>,
    scores: Seq<Vec<Option<Similarity>>>,
    threshold: Similarity,
    i: int,
    j: int,
)
    requires
        eligible(registry, scores, threshold, i, j),
        forall|m: int, n: int| #[trigger]
            eligible(registry, scores, threshold, m, n) ==> m == i && n == j,
    ensures
        selection(registry, scores, threshold) == Some((i, j)),
{
    match_is_selected(registry, scores, threshold, i, j);
}

/// Of two candidates tied at the highest score, the one enumerated later is
/// the match.
pub proof fn later_of_tied_is_selected<X>(
    registry: Seq<Entry<X>>,
    scores: Seq<Vec<Option<Similarity>>>,
    threshold: Similarity,
    i: int,
    j: int,
    a: int,
    b: int,
)
    requires
        eligible(registry, scores, threshold, i, j),
        eligible(registry, scores, threshold, a, b),
        precedes(i, j, a, b),
        scores[i]@[j]->0.rank() == scores[a]@[b]->0.rank(),
        forall|m: int, n: int| #[trigger]
            eligible(registry, scores, threshold, m, n) && !(m == i && n == j) && !(m == a && n == b)
                ==> scores[m]@[n]->0.rank() < scores[a]@[b]->0.rank(),
    ensures
        selection(registry, scores, threshold) == Some((a, b)),
{
    match_is_selected(registry, scores, threshold, a, b);
}

} // verus!
