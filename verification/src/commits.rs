//! The commit walk: which commits are ahead of the release tag.
//!
//! The repository's history, as far as it is reachable from the branch
//! head, is modelled as a list of commits in newest-first order, each
//! naming its parents by index further down the list. The walk yields
//! every commit that is not the base tag's commit and not one of its
//! ancestors, newest first, each at most once.

use vstd::prelude::*;

verus! {

/// One commit of the history handed to the walker: its id, the first line
/// of its message, and its parents as indices into the same list.
#[derive(Debug)]
pub struct CommitNode {
    pub id: String,
    pub summary: String,
    pub parents: Vec<usize>,
}

/// One commit of the computed range.
#[derive(Debug)]
pub struct CommitRecord {
    pub id: String,
    pub summary: String,
}

/// A well-formed history: every parent stands further down the list than
/// its child (the list is newest-first and acyclic), and ids are unique.
pub open spec fn graph_wf(g: Seq<CommitNode>) -> bool {
    &&& forall|i: int, k: int|
        0 <= i < g.len() && 0 <= k < g[i].parents@.len() ==> i < #[trigger] g[i].parents@[k]
            < g.len()
    &&& forall|i: int, j: int|
        #![trigger g[i].id, g[j].id]
        0 <= i < j < g.len() ==> g[i].id@ != g[j].id@
}

/// Commit `i` is the base commit (the one whose id is `base`) or one of
/// its ancestors.
pub open spec fn ancestor_of_base(g: Seq<CommitNode>, base: Seq<char>, i: int) -> bool
    decreases i,
{
    ||| (0 <= i < g.len() && g[i].id@ == base)
    ||| (exists|j: int|
        0 <= j < i && #[trigger] g[j].parents@.contains(i as usize) && ancestor_of_base(
            g,
            base,
            j,
        ))
}

/// The id and summary of a record, as character sequences.
pub open spec fn record_views(rs: Seq<CommitRecord>) -> Seq<(Seq<char>, Seq<char>)> {
    rs.map_values(|c: CommitRecord| (c.id@, c.summary@))
}

/// The commit range over the first `m` commits: each one that is neither
/// the base commit nor an ancestor of it, in list (newest-first) order.
pub open spec fn range_prefix(g: Seq<CommitNode>, base: Seq<char>, m: int) -> Seq<
    (Seq<char>, Seq<char>),
>
    decreases m,
{
    if m <= 0 {
        Seq::empty()
    } else if ancestor_of_base(g, base, m - 1) {
        range_prefix(g, base, m - 1)
    } else {
        range_prefix(g, base, m - 1).push((g[m - 1].id@, g[m - 1].summary@))
    }
}

/// The commit range of the whole history.
pub open spec fn range_spec(g: Seq<CommitNode>, base: Seq<char>) -> Seq<(Seq<char>, Seq<char>)> {
    range_prefix(g, base, g.len() as int)
}

/// Computes the commit range: every commit of the history that is neither
/// the base tag's commit nor one of its ancestors, newest first. A base id
/// that does not occur in the history excludes nothing.
pub fn commit_range(graph: &Vec<CommitNode>, base_id: &String) -> (r: Vec<CommitRecord>)
    requires
        graph_wf(graph@),
    ensures
        record_views(r@) == range_spec(graph@, base_id@),
{
    let ghost g = graph@;
    let n = graph.len();

    // Mark the base commit, then propagate the mark to parents; the list
    // is newest-first, so one forward pass reaches every ancestor.
    let mut excl: Vec<bool> = Vec::new();
    for k in 0..n
        invariant
            excl@.len() == k,
            forall|i: int| 0 <= i < k ==> !excl@[i],
    {
        excl.push(false);
    }
    for k in 0..n
        invariant
            n == g.len(),
            g == graph@,
            excl@.len() == n,
            forall|i: int| 0 <= i < n ==> (excl@[i] <==> (i < k && g[i].id@ == base_id@)),
    {
        if graph[k].id == *base_id {
            excl[k] = true;
        }
    }
    proof {
        assert forall|i: int| 0 <= i < n implies (excl@[i] <==> g[i].id@ == base_id@) by {}
    }

    for j in 0..n
        invariant
            n == g.len(),
            g == graph@,
            graph_wf(g),
            excl@.len() == n,
            forall|i: int| 0 <= i < j ==> (excl@[i] <==> ancestor_of_base(g, base_id@, i)),
            forall|i: int|
                j <= i < n ==> (excl@[i] <==> (g[i].id@ == base_id@ || exists|j2: int|
                    0 <= j2 < j && #[trigger] g[j2].parents@.contains(i as usize)
                        && ancestor_of_base(g, base_id@, j2))),
    {
        assert(excl@[j as int] <==> ancestor_of_base(g, base_id@, j as int));
        if excl[j] {
            let np = graph[j].parents.len();
            for k in 0..np
                invariant
                    n == g.len(),
                    g == graph@,
                    graph_wf(g),
                    excl@.len() == n,
                    np == g[j as int].parents@.len(),
                    0 <= j < n,
                    ancestor_of_base(g, base_id@, j as int),
                    forall|i: int| 0 <= i <= j ==> (excl@[i] <==> ancestor_of_base(g, base_id@, i)),
                    forall|i: int|
                        j < i < n ==> (excl@[i] <==> (g[i].id@ == base_id@ || (exists|j2: int|
                            0 <= j2 < j && #[trigger] g[j2].parents@.contains(i as usize)
                                && ancestor_of_base(g, base_id@, j2)) || g[j as int].parents@.take(
                            k as int,
                        ).contains(i as usize))),
            {
                let p = graph[j].parents[k];
                assert(j < p < n);
                excl[p] = true;
                proof {
                    assert(g[j as int].parents@.take(k as int + 1) =~= g[j as int].parents@.take(
                        k as int,
                    ).push(g[j as int].parents@[k as int]));
                    let ghost pj = g[j as int].parents@;
                    assert forall|x: usize|
                        pj.take(k as int + 1).contains(x) <==> (pj.take(k as int).contains(x) || x
                            == p) by {
                        let pre = pj.take(k as int);
                        if pre.push(p).contains(x) {
                            let w = choose|w: int| 0 <= w < pre.push(p).len() && pre.push(p)[w] == x;
                            if w < pre.len() {
                                assert(pre[w] == x);
                            }
                        }
                        if pre.contains(x) {
                            let w = choose|w: int| 0 <= w < pre.len() && pre[w] == x;
                            assert(pre.push(p)[w] == x);
                        }
                        if x == p {
                            assert(pre.push(p)[pre.len() as int] == x);
                        }
                    }
                }
            }
            proof {
                assert(g[j as int].parents@.take(np as int) =~= g[j as int].parents@);
                assert forall|i: int| j + 1 <= i < n implies (excl@[i] <==> (g[i].id@ == base_id@
                    || exists|j2: int|
                    0 <= j2 < j + 1 && #[trigger] g[j2].parents@.contains(i as usize)
                        && ancestor_of_base(g, base_id@, j2))) by {
                    if excl@[i] {
                        if !(g[i].id@ == base_id@) {
                            if g[j as int].parents@.contains(i as usize) {
                                assert(0 <= j < j + 1 && g[j as int].parents@.contains(i as usize)
                                    && ancestor_of_base(g, base_id@, j as int));
                            }
                        }
                    } else {
                        assert forall|j2: int|
                            0 <= j2 < j + 1 && #[trigger] g[j2].parents@.contains(i as usize)
                                && ancestor_of_base(g, base_id@, j2) implies false by {
                            if j2 == j {
                                assert(g[j as int].parents@.take(np as int).contains(i as usize));
                            }
                        }
                    }
                }
            }
        } else {
            proof {
                assert forall|i: int| j + 1 <= i < n implies (excl@[i] <==> (g[i].id@ == base_id@
                    || exists|j2: int|
                    0 <= j2 < j + 1 && #[trigger] g[j2].parents@.contains(i as usize)
                        && ancestor_of_base(g, base_id@, j2))) by {
                    if !excl@[i] {
                        assert forall|j2: int|
                            0 <= j2 < j + 1 && #[trigger] g[j2].parents@.contains(i as usize)
                                && ancestor_of_base(g, base_id@, j2) implies false by {
                            if j2 == j {
                                assert(!ancestor_of_base(g, base_id@, j as int));
                            }
                        }
                    }
                }
            }
        }
    }

    let mut out: Vec<CommitRecord> = Vec::new();
    for i in 0..n
        invariant
            n == g.len(),
            g == graph@,
            excl@.len() == n,
            forall|x: int| 0 <= x < n ==> (excl@[x] <==> ancestor_of_base(g, base_id@, x)),
            record_views(out@) == range_prefix(g, base_id@, i as int),
    {
        if !excl[i] {
            let rec = CommitRecord { id: graph[i].id.clone(), summary: graph[i].summary.clone() };
            let ghost old_out = out@;
            out.push(rec);
            proof {
                assert(record_views(out@) =~= record_views(old_out).push(
                    (g[i as int].id@, g[i as int].summary@),
                ));
            }
        }
    }
    out
}

/// Every record of a range prefix is one of the first `m` commits, one
/// that is neither the base nor an ancestor of it; and no two records
/// share an id.
proof fn lemma_range_prefix_props(g: Seq<CommitNode>, base: Seq<char>, m: int)
    requires
        graph_wf(g),
        0 <= m <= g.len(),
    ensures
        forall|k: int|
            0 <= k < range_prefix(g, base, m).len() ==> exists|i: int|
                0 <= i < m && !ancestor_of_base(g, base, i) && #[trigger] range_prefix(
                    g,
                    base,
                    m,
                )[k] == (g[i].id@, g[i].summary@),
        forall|k1: int, k2: int|
            0 <= k1 < k2 < range_prefix(g, base, m).len() ==> range_prefix(g, base, m)[k1].0
                != range_prefix(g, base, m)[k2].0,
    decreases m,
{
    if m > 0 {
        lemma_range_prefix_props(g, base, m - 1);
        assert forall|k: int| 0 <= k < range_prefix(g, base, m).len() implies exists|i: int|
            0 <= i < m && !ancestor_of_base(g, base, i) && #[trigger] range_prefix(g, base, m)[k]
                == (g[i].id@, g[i].summary@) by {
            if !ancestor_of_base(g, base, m - 1) && k == range_prefix(g, base, m).len() - 1 {
                assert(range_prefix(g, base, m)[k] == (g[m - 1].id@, g[m - 1].summary@));
                assert(0 <= m - 1 < m && !ancestor_of_base(g, base, m - 1) && range_prefix(
                    g,
                    base,
                    m,
                )[k] == (g[m - 1].id@, g[m - 1].summary@));
            } else {
                assert(range_prefix(g, base, m)[k] == range_prefix(g, base, m - 1)[k]);
                let i = choose|i: int|
                    0 <= i < m - 1 && !ancestor_of_base(g, base, i) && #[trigger] range_prefix(
                        g,
                        base,
                        m - 1,
                    )[k] == (g[i].id@, g[i].summary@);
                assert(0 <= i < m && !ancestor_of_base(g, base, i) && range_prefix(g, base, m)[k]
                    == (g[i].id@, g[i].summary@));
            }
        }
        assert forall|k1: int, k2: int|
            0 <= k1 < k2 < range_prefix(g, base, m).len() implies range_prefix(g, base, m)[k1].0
            != range_prefix(g, base, m)[k2].0 by {
            if !ancestor_of_base(g, base, m - 1) && k2 == range_prefix(g, base, m).len() - 1 {
                assert(range_prefix(g, base, m)[k1] == range_prefix(g, base, m - 1)[k1]);
                let i = choose|i: int|
                    0 <= i < m - 1 && !ancestor_of_base(g, base, i) && #[trigger] range_prefix(
                        g,
                        base,
                        m - 1,
                    )[k1] == (g[i].id@, g[i].summary@);
                assert(g[i].id@ != g[m - 1].id@);
                assert(range_prefix(g, base, m)[k2] == (g[m - 1].id@, g[m - 1].summary@));
            } else {
                assert(range_prefix(g, base, m)[k1] == range_prefix(g, base, m - 1)[k1]);
                assert(range_prefix(g, base, m)[k2] == range_prefix(g, base, m - 1)[k2]);
            }
        }
    }
}

/// The commit range never contains the base tag's commit or any of its
/// ancestors: no record of it carries such a commit's id.
pub proof fn lemma_range_excludes_base_and_ancestors(
    g: Seq<CommitNode>,
    base: Seq<char>,
    i: int,
    k: int,
)
    requires
        graph_wf(g),
        0 <= i < g.len(),
        ancestor_of_base(g, base, i),
        0 <= k < range_spec(g, base).len(),
    ensures
        range_spec(g, base)[k].0 != g[i].id@,
{
    lemma_range_prefix_props(g, base, g.len() as int);
    let i2 = choose|i2: int|
        0 <= i2 < g.len() && !ancestor_of_base(g, base, i2) && #[trigger] range_prefix(
            g,
            base,
            g.len() as int,
        )[k] == (g[i2].id@, g[i2].summary@);
    if i2 != i {
        assert(g[i2].id@ != g[i].id@);
    }
}

/// A commit that is neither the base nor one of its ancestors appears in
/// every range prefix that reaches past it.
proof fn lemma_range_prefix_complete(g: Seq<CommitNode>, base: Seq<char>, i: int, m: int)
    requires
        graph_wf(g),
        0 <= i < m <= g.len(),
        !ancestor_of_base(g, base, i),
    ensures
        exists|k: int|
            0 <= k < range_prefix(g, base, m).len() && #[trigger] range_prefix(g, base, m)[k] == (
            g[i].id@,
            g[i].summary@,
            ),
    decreases m,
{
    if m == i + 1 {
        let cur = range_prefix(g, base, m);
        assert(cur[cur.len() - 1] == (g[i].id@, g[i].summary@));
    } else {
        lemma_range_prefix_complete(g, base, i, m - 1);
        let k = choose|k: int|
            0 <= k < range_prefix(g, base, m - 1).len() && #[trigger] range_prefix(g, base, m - 1)[k]
                == (g[i].id@, g[i].summary@);
        assert(range_prefix(g, base, m)[k] == (g[i].id@, g[i].summary@));
    }
}

/// Every commit of the history that is neither the base tag's commit nor
/// one of its ancestors appears in the commit range.
pub proof fn lemma_range_complete(g: Seq<CommitNode>, base: Seq<char>, i: int)
    requires
        graph_wf(g),
        0 <= i < g.len(),
        !ancestor_of_base(g, base, i),
    ensures
        exists|k: int|
            0 <= k < range_spec(g, base).len() && #[trigger] range_spec(g, base)[k] == (
            g[i].id@,
            g[i].summary@,
            ),
{
    lemma_range_prefix_complete(g, base, i, g.len() as int);
    let k = choose|k: int|
        0 <= k < range_prefix(g, base, g.len() as int).len() && #[trigger] range_prefix(
            g,
            base,
            g.len() as int,
        )[k] == (g[i].id@, g[i].summary@);
    assert(range_spec(g, base)[k] == (g[i].id@, g[i].summary@));
}

/// No commit appears twice in the commit range, whatever the merge
/// topology of the history.
pub proof fn lemma_range_no_duplicates(g: Seq<CommitNode>, base: Seq<char>, k1: int, k2: int)
    requires
        graph_wf(g),
        0 <= k1 < k2 < range_spec(g, base).len(),
    ensures
        range_spec(g, base)[k1].0 != range_spec(g, base)[k2].0,
{
    lemma_range_prefix_props(g, base, g.len() as int);
}

} // verus!
