//! The order in which a proposal's comments are shown as threads: the
//! comments that answer nothing, oldest first, each followed by its replies,
//! oldest first, each followed in turn by its own replies, one level deeper.

use vstd::prelude::*;
use crate::governance::comments::ProposalComment;
use crate::text::str_eq;

verus! {

/// Comment `a` is shown before its sibling `b`: it is older, or as old and
/// earlier in the list.
pub open spec fn shown_before(cs: Seq<ProposalComment>, a: int, b: int) -> bool {
    cs[a].timestamp < cs[b].timestamp || (cs[a].timestamp == cs[b].timestamp && a < b)
}

/// Comment `i` answers `parent`: the comment with that id, or nothing when
/// `parent` is none.
pub open spec fn answers(cs: Seq<ProposalComment>, i: int, parent: Option<Seq<char>>) -> bool {
    match parent {
        None => cs[i].reply_to is None,
        Some(p) => cs[i].reply_to matches Some(r) && r@ == p,
    }
}

/// `r` is in the order siblings are shown in.
pub open spec fn in_shown_order(cs: Seq<ProposalComment>, r: Seq<int>) -> bool {
    forall|a: int, b: int| 0 <= a < b < r.len() ==> shown_before(cs, #[trigger] r[a], #[trigger] r[b])
}

/// `r` lists the comments that answer `parent`, each once, in the order
/// they are shown.
pub open spec fn is_reply_order(cs: Seq<ProposalComment>, parent: Option<Seq<char>>, r: Seq<int>) -> bool {
    &&& forall|k: int| 0 <= k < r.len() ==> 0 <= #[trigger] r[k] < cs.len() && answers(cs, r[k], parent)
    &&& forall|i: int| 0 <= i < cs.len() && answers(cs, i, parent) ==> #[trigger] r.contains(i)
    &&& in_shown_order(cs, r)
}

/// The comments that answer `parent`, in the order they are shown.
pub open spec fn replies(cs: Seq<ProposalComment>, parent: Option<Seq<char>>) -> Seq<int> {
    choose|r: Seq<int>| is_reply_order(cs, parent, r)
}

/// Two lists in shown order that hold the same comments are the same list.
proof fn lemma_shown_order_unique(cs: Seq<ProposalComment>, r1: Seq<int>, r2: Seq<int>)
    requires
        in_shown_order(cs, r1),
        in_shown_order(cs, r2),
        forall|x: int| r1.contains(x) <==> r2.contains(x),
    ensures
        r1 == r2,
    decreases r1.len(),
{
    if r1.len() == 0 {
        if r2.len() > 0 {
            assert(r2.contains(r2[0]));
        }
        assert(r1 =~= r2);
    } else {
        assert(r1.contains(r1[0]));
        let a = r1[0];
        let b = r2[0];
        if a != b {
            assert(r2.contains(a));
            let k = choose|k: int| 0 <= k < r2.len() && r2[k] == a;
            assert(r1.contains(b)) by {
                assert(r2.contains(r2[0]));
            }
            let m = choose|m: int| 0 <= m < r1.len() && r1[m] == b;
            if k > 0 {
                assert(shown_before(cs, r2[0], r2[k]));
            }
            if m > 0 {
                assert(shown_before(cs, r1[0], r1[m]));
            }
            assert(false);
        }
        let t1 = r1.skip(1);
        let t2 = r2.skip(1);
        assert forall|x: int| t1.contains(x) <==> t2.contains(x) by {
            if t1.contains(x) {
                let i = choose|i: int| 0 <= i < t1.len() && t1[i] == x;
                assert(r1[i + 1] == x);
                assert(shown_before(cs, r1[0], r1[i + 1]));
                assert(r2.contains(x));
                let j = choose|j: int| 0 <= j < r2.len() && r2[j] == x;
                assert(j != 0);
                assert(t2[j - 1] == x);
            }
            if t2.contains(x) {
                let i = choose|i: int| 0 <= i < t2.len() && t2[i] == x;
                assert(r2[i + 1] == x);
                assert(shown_before(cs, r2[0], r2[i + 1]));
                assert(r1.contains(x));
                let j = choose|j: int| 0 <= j < r1.len() && r1[j] == x;
                assert(j != 0);
                assert(t1[j - 1] == x);
            }
        }
        assert forall|p: int, q: int| 0 <= p < q < t1.len() implies shown_before(cs, #[trigger] t1[p], #[trigger] t1[q]) by {
            assert(t1[p] == r1[p + 1] && t1[q] == r1[q + 1]);
        }
        assert forall|p: int, q: int| 0 <= p < q < t2.len() implies shown_before(cs, #[trigger] t2[p], #[trigger] t2[q]) by {
            assert(t2[p] == r2[p + 1] && t2[q] == r2[q + 1]);
        }
        lemma_shown_order_unique(cs, t1, t2);
        assert(r1 =~= seq![a] + t1);
        assert(r2 =~= seq![b] + t2);
    }
}

/// Whether comment `i` answers `parent`.
fn answers_exec(cs: &Vec<ProposalComment>, i: usize, parent: Option<&str>) -> (b: bool)
    requires
        i < cs@.len(),
    ensures
        b == answers(cs@, i as int, match parent {
            Some(p) => Some(p@),
            None => None,
        }),
{
    match (&cs[i].reply_to, parent) {
        (None, None) => true,
        (Some(r), Some(p)) => str_eq(r.as_str(), p),
        _ => false,
    }
}

/// The indices of `v` as integers.
pub open spec fn ints(v: Seq<usize>) -> Seq<int> {
    v.map_values(|x: usize| x as int)
}

/// The comments that answer `parent`, in the order they are shown: a
/// stable sort by time of the answering comments.
fn sorted_replies(cs: &Vec<ProposalComment>, parent: Option<&str>) -> (r: Vec<usize>)
    ensures
        ints(r@) == replies(cs@, match parent {
            Some(p) => Some(p@),
            None => None,
        }),
        forall|k: int| 0 <= k < r@.len() ==> #[trigger] r@[k] < cs@.len(),
{
    let ghost par = match parent {
        Some(p) => Some(p@),
        None => None,
    };
    let mut r: Vec<usize> = Vec::new();
    let mut i: usize = 0;
    assert(ints(r@) =~= Seq::<int>::empty());
    while i < cs.len()
        invariant
            i <= cs@.len(),
            par == match parent {
                Some(p) => Some(p@),
                None => None,
            },
            forall|k: int| 0 <= k < r@.len() ==> #[trigger] r@[k] < i && answers(cs@, r@[k] as int, par),
            forall|j: int| 0 <= j < i && answers(cs@, j, par) ==> #[trigger] ints(r@).contains(j),
            in_shown_order(cs@, ints(r@)),
        decreases cs@.len() - i,
    {
        if answers_exec(cs, i, parent) {
            let ghost v = ints(r@);
            let mut p = r.len();
            while p > 0 && cs[r[p - 1]].timestamp > cs[i].timestamp
                invariant
                    p <= r@.len(),
                    i < cs@.len(),
                    v == ints(r@),
                    forall|k: int| 0 <= k < r@.len() ==> #[trigger] r@[k] < i,
                    forall|q: int| p <= q < r@.len() ==> cs@[#[trigger] r@[q] as int].timestamp > cs@[i as int].timestamp,
                decreases p,
            {
                p = p - 1;
            }
            proof {
                assert forall|q: int| 0 <= q < p implies shown_before(cs@, #[trigger] v[q], i as int) by {
                    if q < p - 1 {
                        assert(shown_before(cs@, v[q], v[p - 1]));
                    }
                    assert(v[q] == r@[q] as int);
                }
                assert forall|q: int| p <= q < v.len() implies shown_before(cs@, i as int, #[trigger] v[q]) by {
                    assert(v[q] == r@[q] as int);
                }
            }
            r.insert(p, i);
            let ghost w = ints(r@);
            assert(w =~= v.insert(p as int, i as int));
            proof {
                assert forall|a: int, b: int| 0 <= a < b < w.len() implies shown_before(cs@, #[trigger] w[a], #[trigger] w[b]) by {
                    if b < p {
                        assert(w[a] == v[a] && w[b] == v[b]);
                    } else if b == p {
                        assert(w[a] == v[a]);
                    } else if a < p {
                        assert(w[a] == v[a] && w[b] == v[b - 1]);
                    } else if a == p {
                        assert(w[b] == v[b - 1]);
                    } else {
                        assert(w[a] == v[a - 1] && w[b] == v[b - 1]);
                    }
                }
                assert forall|k: int| 0 <= k < r@.len() implies #[trigger] r@[k] < i + 1 && answers(cs@, r@[k] as int, par) by {
                    if k < p {
                        assert(r@[k] as int == v[k]);
                    } else if k > p {
                        assert(r@[k] as int == v[k - 1]);
                    }
                }
                assert forall|j: int| 0 <= j < i + 1 && answers(cs@, j, par) implies #[trigger] w.contains(j) by {
                    if j == i {
                        assert(w[p as int] == j);
                    } else {
                        assert(v.contains(j));
                        let k = choose|k: int| 0 <= k < v.len() && v[k] == j;
                        if k < p {
                            assert(w[k] == j);
                        } else {
                            assert(w[k + 1] == j);
                        }
                    }
                }
            }
        } else {
            proof {
                assert forall|k: int| 0 <= k < r@.len() implies #[trigger] r@[k] < i + 1 && answers(cs@, r@[k] as int, par) by {}
            }
        }
        i = i + 1;
    }
    proof {
        let ri = ints(r@);
        assert forall|k: int| 0 <= k < ri.len() implies 0 <= #[trigger] ri[k] < cs@.len() && answers(cs@, ri[k], par) by {
            assert(ri[k] == r@[k] as int);
        }
        assert(is_reply_order(cs@, par, ri));
        let c = replies(cs@, par);
        assert(is_reply_order(cs@, par, c));
        assert forall|x: int| ri.contains(x) <==> c.contains(x) by {
            if ri.contains(x) {
                let k = choose|k: int| 0 <= k < ri.len() && ri[k] == x;
                assert(0 <= ri[k] < cs@.len() && answers(cs@, ri[k], par));
            }
            if c.contains(x) {
                let k = choose|k: int| 0 <= k < c.len() && c[k] == x;
                assert(0 <= c[k] < cs@.len() && answers(cs@, c[k], par));
            }
        }
        lemma_shown_order_unique(cs@, ri, c);
        assert forall|k: int| 0 <= k < r@.len() implies #[trigger] r@[k] < cs@.len() by {
            assert(ri[k] == r@[k] as int);
        }
    }
    r
}

/// The comments of the thread under comment `i`, shown at depth `depth`
/// and followed at most `fuel` levels further down: `i` itself, then the
/// threads of its replies one level deeper. Each entry is a comment's index
/// and its depth.
pub open spec fn subtree(cs: Seq<ProposalComment>, i: int, depth: int, fuel: nat) -> Seq<(int, int)>
    decreases fuel, 0int,
{
    seq![(i, depth)] + if fuel == 0 {
        Seq::<(int, int)>::empty()
    } else {
        forest(cs, replies(cs, Some(cs[i].id@)), depth + 1, (fuel - 1) as nat)
    }
}

/// The threads under the comments `kids`, one after the other.
pub open spec fn forest(cs: Seq<ProposalComment>, kids: Seq<int>, depth: int, fuel: nat) -> Seq<(int, int)>
    decreases fuel, kids.len(),
{
    if kids.len() == 0 {
        Seq::<(int, int)>::empty()
    } else {
        subtree(cs, kids[0], depth, fuel) + forest(cs, kids.skip(1), depth, fuel)
    }
}

/// The entries of `v` as integers.
pub open spec fn entries(v: Seq<(usize, usize)>) -> Seq<(int, int)> {
    v.map_values(|e: (usize, usize)| (e.0 as int, e.1 as int))
}

proof fn lemma_entries_append(v: Seq<(usize, usize)>, e: (usize, usize))
    ensures
        entries(v.push(e)) == entries(v).push((e.0 as int, e.1 as int)),
{
    assert(entries(v.push(e)) =~= entries(v).push((e.0 as int, e.1 as int)));
}

/// Appends the thread under comment `i` to `out`.
fn push_subtree(cs: &Vec<ProposalComment>, i: usize, depth: usize, fuel: usize, out: &mut Vec<(usize, usize)>)
    requires
        i < cs@.len(),
        depth + fuel <= cs@.len(),
    ensures
        entries(final(out)@) == entries(old(out)@) + subtree(cs@, i as int, depth as int, fuel as nat),
    decreases fuel, 0int,
{
    let ghost before = out@;
    out.push((i, depth));
    proof {
        lemma_entries_append(before, (i, depth));
    }
    if fuel == 0 {
        assert(entries(out@) =~= entries(before) + subtree(cs@, i as int, depth as int, fuel as nat));
        return;
    }
    let n = cs.len();
    assert(depth + 1 <= n);
    let kids = sorted_replies(cs, Some(cs[i].id.as_str()));
    let ghost mid = out@;
    push_forest(cs, &kids, 0, depth + 1, fuel - 1, out);
    assert(ints(kids@).skip(0) =~= ints(kids@));
    assert(entries(out@) =~= entries(before) + subtree(cs@, i as int, depth as int, fuel as nat));
}

/// Appends the threads under `kids[from..]` to `out`.
fn push_forest(
    cs: &Vec<ProposalComment>,
    kids: &Vec<usize>,
    from: usize,
    depth: usize,
    fuel: usize,
    out: &mut Vec<(usize, usize)>,
)
    requires
        from <= kids@.len(),
        forall|k: int| 0 <= k < kids@.len() ==> #[trigger] kids@[k] < cs@.len(),
        depth + fuel <= cs@.len(),
    ensures
        entries(final(out)@) == entries(old(out)@) + forest(cs@, ints(kids@).skip(from as int), depth as int, fuel as nat),
    decreases fuel, kids@.len() - from,
{
    let ghost rest = ints(kids@).skip(from as int);
    if from == kids.len() {
        assert(rest.len() == 0);
        assert(entries(out@) =~= entries(old(out)@) + forest(cs@, rest, depth as int, fuel as nat));
        return;
    }
    let ghost before = out@;
    push_subtree(cs, kids[from], depth, fuel, out);
    let ghost mid = out@;
    push_forest(cs, kids, from + 1, depth, fuel, out);
    assert(rest[0] == kids@[from as int] as int);
    assert(rest.skip(1) =~= ints(kids@).skip(from + 1));
    assert(entries(out@) =~= entries(before) + forest(cs@, rest, depth as int, fuel as nat));
}

/// The order of a thread view, where no reply chain is followed deeper than
/// the list is long: the threads under the comments that answer nothing.
pub open spec fn thread_view(cs: Seq<ProposalComment>) -> Seq<(int, int)> {
    forest(cs, replies(cs, None), 0, cs.len())
}

/// Which comment is shown where in a thread view, and how deep: the
/// comments that answer nothing, oldest first, each followed by its
/// replies, oldest first and one level deeper, each followed by its own
/// replies in turn. Each entry is a comment's index in `comments` and its
/// depth.
pub fn thread_order(comments: &Vec<ProposalComment>) -> (r: Vec<(usize, usize)>)
    ensures
        entries(r@) == thread_view(comments@),
{
    let roots = sorted_replies(comments, None);
    let mut out: Vec<(usize, usize)> = Vec::new();
    assert(entries(out@) =~= Seq::<(int, int)>::empty());
    push_forest(comments, &roots, 0, 0, comments.len(), &mut out);
    assert(ints(roots@).skip(0) =~= ints(roots@));
    assert(entries(out@) =~= thread_view(comments@));
    out
}

} // verus!
