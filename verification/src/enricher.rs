//! Pull-request enrichment: merging the pull-request numbers an API
//! reported for each commit into one association, and looking a commit up
//! in it.
//!
//! The network calls themselves happen outside the library and run
//! concurrently; their completion order cannot matter here, because the
//! association is built from the per-commit answers in commit order, and a
//! failed call contributes an empty answer for its commit alone.

use vstd::prelude::*;

use crate::errors::ReleaseError;

verus! {

/// The association pairs one commit's answer contributes: one
/// `(commit id, number)` pair per reported pull request, in order.
pub open spec fn pairs_for(id: Seq<char>, prs: Seq<u64>) -> Seq<(Seq<char>, u64)> {
    prs.map_values(|n: u64| (id, n))
}

/// The merged association of the first `m` commits.
pub open spec fn assoc_prefix(
    ids: Seq<Seq<char>>,
    responses: Seq<Seq<u64>>,
    m: int,
) -> Seq<(Seq<char>, u64)>
    decreases m,
{
    if m <= 0 {
        Seq::empty()
    } else {
        assoc_prefix(ids, responses, m - 1) + pairs_for(ids[m - 1], responses[m - 1])
    }
}

/// The merged association of all commits: every `(commit id, number)` pair,
/// commit by commit.
pub open spec fn assoc_spec(ids: Seq<Seq<char>>, responses: Seq<Seq<u64>>) -> Seq<
    (Seq<char>, u64),
> {
    assoc_prefix(ids, responses, ids.len() as int)
}

/// The views of an association's pairs.
pub open spec fn pair_views(assoc: Seq<(String, u64)>) -> Seq<(Seq<char>, u64)> {
    assoc.map_values(|p: (String, u64)| (p.0@, p.1))
}

/// The number of the first pair whose commit id matches, if any.
pub open spec fn first_match(assoc: Seq<(Seq<char>, u64)>, id: Seq<char>) -> Option<u64>
    decreases assoc.len(),
{
    if assoc.len() == 0 {
        None
    } else if assoc[0].0 == id {
        Some(assoc[0].1)
    } else {
        first_match(assoc.drop_first(), id)
    }
}

/// Merges the per-commit answers of the pull-request API into one
/// association: for each commit, in order, one pair per reported pull
/// request. A commit whose lookup failed has an empty answer and so
/// contributes nothing.
pub fn associate(commit_ids: &Vec<String>, responses: &Vec<Vec<u64>>) -> (r: Vec<(String, u64)>)
    requires
        commit_ids@.len() == responses@.len(),
    ensures
        pair_views(r@) == assoc_spec(
            commit_ids@.map_values(|s: String| s@),
            responses@.map_values(|v: Vec<u64>| v@),
        ),
{
    let ghost ids = commit_ids@.map_values(|s: String| s@);
    let ghost resp = responses@.map_values(|v: Vec<u64>| v@);
    let mut out: Vec<(String, u64)> = Vec::new();
    let n = commit_ids.len();
    for i in 0..n
        invariant
            n == commit_ids@.len(),
            commit_ids@.len() == responses@.len(),
            ids == commit_ids@.map_values(|s: String| s@),
            resp == responses@.map_values(|v: Vec<u64>| v@),
            pair_views(out@) == assoc_prefix(ids, resp, i as int),
    {
        let m = responses[i].len();
        for k in 0..m
            invariant
                n == commit_ids@.len(),
                commit_ids@.len() == responses@.len(),
                0 <= i < n,
                m == responses@[i as int]@.len(),
                ids == commit_ids@.map_values(|s: String| s@),
                resp == responses@.map_values(|v: Vec<u64>| v@),
                pair_views(out@) == assoc_prefix(ids, resp, i as int) + pairs_for(
                    ids[i as int],
                    resp[i as int].take(k as int),
                ),
        {
            let ghost old_out = out@;
            out.push((commit_ids[i].clone(), responses[i][k]));
            proof {
                assert(pair_views(out@) =~= pair_views(old_out).push(
                    (ids[i as int], resp[i as int][k as int]),
                ));
                assert(pairs_for(ids[i as int], resp[i as int].take(k as int + 1)) =~= pairs_for(
                    ids[i as int],
                    resp[i as int].take(k as int),
                ).push((ids[i as int], resp[i as int][k as int])));
            }
        }
        proof {
            assert(resp[i as int].take(m as int) =~= resp[i as int]);
            assert(pair_views(out@) =~= assoc_prefix(ids, resp, i as int + 1));
        }
    }
    out
}

/// The pull request associated with a commit: the number of the first pair
/// carrying the commit's id, or `None` when the association has none.
pub fn first_pr_for(assoc: &Vec<(String, u64)>, commit_id: &String) -> (r: Option<u64>)
    ensures
        r == first_match(pair_views(assoc@), commit_id@),
{
    let ghost pv = pair_views(assoc@);
    let n = assoc.len();
    proof {
        assert(pv.skip(0) =~= pv);
    }
    for k in 0..n
        invariant
            n == assoc@.len(),
            pv == pair_views(assoc@),
            first_match(pv, commit_id@) == first_match(pv.skip(k as int), commit_id@),
            forall|j: int| 0 <= j < k ==> pv[j].0 != commit_id@,
    {
        if assoc[k].0 == *commit_id {
            assert(pv.skip(k as int)[0] == pv[k as int]);
            return Some(assoc[k].1);
        }
        proof {
            assert(pv.skip(k as int).drop_first() =~= pv.skip(k as int + 1));
            assert(pv.skip(k as int)[0] == pv[k as int]);
        }
    }
    proof {
        assert(pv.skip(n as int) =~= Seq::<(Seq<char>, u64)>::empty());
    }
    None
}

/// The enrichment step demands credentials: a missing or empty bearer
/// token is reported as an error, never attempted silently.
pub fn validate_token(token: &Option<String>) -> (r: Result<String, ReleaseError>)
    ensures
        match r {
            Ok(t) => token is Some && t@ == token->0@ && t@.len() > 0,
            Err(e) => e is MissingToken && (token is None || token->0@.len() == 0),
        },
{
    match token {
        Some(t) => {
            if t.as_str().is_empty() {
                Err(ReleaseError::MissingToken)
            } else {
                Ok(t.clone())
            }
        },
        None => Err(ReleaseError::MissingToken),
    }
}

/// Looking a commit up in a concatenated association first searches the
/// front part, then the back.
proof fn lemma_first_match_concat(a: Seq<(Seq<char>, u64)>, b: Seq<(Seq<char>, u64)>, id: Seq<char>)
    ensures
        first_match(a + b, id) == (if first_match(a, id) is Some {
            first_match(a, id)
        } else {
            first_match(b, id)
        }),
    decreases a.len(),
{
    if a.len() == 0 {
        assert(a + b =~= b);
    } else {
        assert((a + b).drop_first() =~= a.drop_first() + b);
        lemma_first_match_concat(a.drop_first(), b, id);
    }
}

/// One commit's own pairs yield its first reported number.
proof fn lemma_first_match_own(id: Seq<char>, prs: Seq<u64>)
    ensures
        first_match(pairs_for(id, prs), id) == (if prs.len() > 0 {
            Some(prs[0])
        } else {
            None
        }),
{
    if prs.len() > 0 {
        assert(pairs_for(id, prs)[0] == (id, prs[0]));
    }
}

/// Another commit's pairs never match.
proof fn lemma_first_match_other(other: Seq<char>, prs: Seq<u64>, id: Seq<char>)
    requires
        other != id,
    ensures
        first_match(pairs_for(other, prs), id) is None,
    decreases prs.len(),
{
    if prs.len() > 0 {
        assert(pairs_for(other, prs)[0] == (other, prs[0]));
        assert(pairs_for(other, prs).drop_first() =~= pairs_for(other, prs.drop_first()));
        lemma_first_match_other(other, prs.drop_first(), id);
    }
}

/// No pair of the first `m` commits matches an id none of them has.
proof fn lemma_first_match_absent(
    ids: Seq<Seq<char>>,
    responses: Seq<Seq<u64>>,
    m: int,
    id: Seq<char>,
)
    requires
        0 <= m <= ids.len(),
        ids.len() <= responses.len(),
        forall|a: int| 0 <= a < m ==> ids[a] != id,
    ensures
        first_match(assoc_prefix(ids, responses, m), id) is None,
    decreases m,
{
    if m > 0 {
        lemma_first_match_absent(ids, responses, m - 1, id);
        lemma_first_match_other(ids[m - 1], responses[m - 1], id);
        lemma_first_match_concat(
            assoc_prefix(ids, responses, m - 1),
            pairs_for(ids[m - 1], responses[m - 1]),
            id,
        );
    }
}

/// For distinct commit ids, the pull request associated with a commit is
/// the first number the API reported for that commit alone: what the API
/// reported for any other commit — including a failed lookup, which
/// reports nothing — never affects it.
pub proof fn lemma_enrichment_independent(ids: Seq<Seq<char>>, responses: Seq<Seq<u64>>, j: int)
    requires
        ids.len() == responses.len(),
        0 <= j < ids.len(),
        forall|a: int, b: int| #![trigger ids[a], ids[b]] 0 <= a < b < ids.len() ==> ids[a] != ids[b],
    ensures
        first_match(assoc_spec(ids, responses), ids[j]) == (if responses[j].len() > 0 {
            Some(responses[j][0])
        } else {
            None
        }),
{
    lemma_enrichment_independent_prefix(ids, responses, j, ids.len() as int);
}

/// As `lemma_enrichment_independent`, over a prefix that contains commit `j`.
proof fn lemma_enrichment_independent_prefix(
    ids: Seq<Seq<char>>,
    responses: Seq<Seq<u64>>,
    j: int,
    m: int,
)
    requires
        ids.len() == responses.len(),
        0 <= j < m <= ids.len(),
        forall|a: int, b: int| #![trigger ids[a], ids[b]] 0 <= a < b < ids.len() ==> ids[a] != ids[b],
    ensures
        first_match(assoc_prefix(ids, responses, m), ids[j]) == (if responses[j].len() > 0 {
            Some(responses[j][0])
        } else {
            None
        }),
    decreases m,
{
    lemma_first_match_concat(
        assoc_prefix(ids, responses, m - 1),
        pairs_for(ids[m - 1], responses[m - 1]),
        ids[j],
    );
    if j == m - 1 {
        lemma_first_match_absent(ids, responses, m - 1, ids[j]);
        lemma_first_match_own(ids[j], responses[j]);
    } else {
        lemma_enrichment_independent_prefix(ids, responses, j, m - 1);
        lemma_first_match_other(ids[m - 1], responses[m - 1], ids[j]);
    }
}

} // verus!
