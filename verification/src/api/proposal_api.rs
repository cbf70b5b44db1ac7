use vstd::prelude::*;
use std::collections::HashMap;
use crate::governance::comments::ProposalComment;
use crate::text::{str_eq, strs_view};

verus! {

/// How many votes a proposal has, with their breakdown.
#[derive(Debug)]
pub struct VoteCounts {
    pub vote_count: u32,
    pub breakdown: VoteBreakdown,
}

/// Votes by kind.
#[derive(Debug)]
pub struct VoteBreakdown {
    pub yes: u32,
    pub no: u32,
    pub abstain: u32,
    pub total: u32,
}

/// A comment as the proposal endpoints answer with it.
#[derive(Debug)]
pub struct CommentResponse {
    pub id: String,
    pub author: String,
    pub timestamp: String,
    pub content: String,
    pub reply_to: Option<String>,
    pub tags: Vec<String>,
    pub reactions: HashMap<String, u32>,
    pub hidden: bool,
    pub edit_count: usize,
}

/// One version of a comment's text.
#[derive(Debug)]
pub struct CommentVersionResponse {
    content: String,
    timestamp: String,
}

/// The summary of a proposal's activity.
#[derive(Debug)]
pub struct ProposalSummary {
    id: String,
    title: String,
    status: String,
    comment_count: usize,
    vote_count: u32,
    vote_details: VoteCounts,
    top_participants: Vec<Participant>,
    last_activity: String,
}

/// A participant of a proposal's discussion.
#[derive(Debug)]
pub struct Participant {
    id: String,
    comment_count: u32,
}

/// The body of an error reply of the proposal endpoints.
#[derive(Debug)]
pub struct ErrorResponse {
    pub message: String,
}

/// Whether a listing shows hidden comments.
#[derive(Debug)]
pub struct ShowHiddenQuery {
    show_hidden: Option<bool>,
}

/// The kind of a vote.
#[derive(Debug, Clone)]
pub enum VoteType {
    Yes,
    No,
    Abstain,
}

/// Filters of a proposal listing.
#[derive(Debug, Clone)]
pub struct ProposalQuery {
    pub status: Option<String>,
    pub creator: Option<String>,
    pub limit: Option<usize>,
    pub offset: Option<usize>,
}

/// A new proposal as a client submits it.
#[derive(Debug, Clone)]
pub struct NewProposal {
    pub title: String,
    pub description: String,
    pub proposed_code: Option<String>,
}

/// How many of `votes` are of kind `t`.
pub open spec fn count_of(votes: Seq<VoteType>, t: VoteType) -> nat
    decreases votes.len(),
{
    if votes.len() == 0 {
        0
    } else {
        count_of(votes.drop_last(), t) + if votes.last() == t {
            1nat
        } else {
            0nat
        }
    }
}

/// The yes, no and abstain counts of a proposal's votes.
pub fn count_vote_types(votes: &[VoteType]) -> (r: (usize, usize, usize))
    ensures
        r.0 == count_of(votes@, VoteType::Yes),
        r.1 == count_of(votes@, VoteType::No),
        r.2 == count_of(votes@, VoteType::Abstain),
{
    let mut yes: usize = 0;
    let mut no: usize = 0;
    let mut abstain: usize = 0;
    let mut i: usize = 0;
    while i < votes.len()
        invariant
            i <= votes@.len(),
            yes == count_of(votes@.take(i as int), VoteType::Yes),
            no == count_of(votes@.take(i as int), VoteType::No),
            abstain == count_of(votes@.take(i as int), VoteType::Abstain),
            yes + no + abstain == i,
        decreases votes@.len() - i,
    {
        assert(votes@.take(i + 1).drop_last() =~= votes@.take(i as int));
        match votes[i] {
            VoteType::Yes => yes += 1,
            VoteType::No => no += 1,
            VoteType::Abstain => abstain += 1,
        }
        i += 1;
    }
    assert(votes@.take(i as int) =~= votes@);
    (yes, no, abstain)
}

/// The authors of `cs`, each once, in the order they first comment.
pub open spec fn authors_in_order(cs: Seq<ProposalComment>) -> Seq<Seq<char>>
    decreases cs.len(),
{
    if cs.len() == 0 {
        seq![]
    } else {
        let a = authors_in_order(cs.drop_last());
        if a.contains(cs.last().author@) {
            a
        } else {
            a.push(cs.last().author@)
        }
    }
}

/// How many of the comments `cs` `author` wrote.
pub open spec fn comments_by(cs: Seq<ProposalComment>, author: Seq<char>) -> nat
    decreases cs.len(),
{
    if cs.len() == 0 {
        0
    } else {
        comments_by(cs.drop_last(), author) + if cs.last().author@ == author {
            1nat
        } else {
            0nat
        }
    }
}

/// Among the authors `au`, the one at position `p` ranks before the one at
/// `q`: more comments, or as many and an earlier first comment.
pub open spec fn ranks_before(cs: Seq<ProposalComment>, au: Seq<Seq<char>>, p: int, q: int) -> bool {
    comments_by(cs, au[p]) > comments_by(cs, au[q]) || (comments_by(cs, au[p]) == comments_by(cs, au[q])
        && p < q)
}

/// `r` lists the positions of `au` ranked: most comments first, ties in
/// the order of first comments.
pub open spec fn is_ranking(cs: Seq<ProposalComment>, au: Seq<Seq<char>>, r: Seq<int>) -> bool {
    &&& forall|k: int| 0 <= k < r.len() ==> 0 <= #[trigger] r[k] < au.len()
    &&& forall|p: int| 0 <= p < au.len() ==> #[trigger] r.contains(p)
    &&& forall|a: int, b: int| 0 <= a < b < r.len() ==> ranks_before(cs, au, #[trigger] r[a], #[trigger] r[b])
}

/// The authors of `cs` ranked by how many comments they wrote.
pub open spec fn ranking(cs: Seq<ProposalComment>) -> Seq<int> {
    choose|r: Seq<int>| is_ranking(cs, authors_in_order(cs), r)
}

/// The most active participants: at most five authors with their comment
/// counts, most comments first, ties in the order of first comments.
pub open spec fn top_participants_of(cs: Seq<ProposalComment>) -> Seq<(Seq<char>, nat)> {
    let au = authors_in_order(cs);
    let r = ranking(cs);
    let n = if r.len() < 5 {
        r.len()
    } else {
        5
    };
    r.take(n as int).map_values(|p: int| (au[p], comments_by(cs, au[p])))
}

proof fn lemma_ranking_unique(cs: Seq<ProposalComment>, au: Seq<Seq<char>>, r1: Seq<int>, r2: Seq<int>)
    requires
        forall|a: int, b: int| 0 <= a < b < r1.len() ==> ranks_before(cs, au, #[trigger] r1[a], #[trigger] r1[b]),
        forall|a: int, b: int| 0 <= a < b < r2.len() ==> ranks_before(cs, au, #[trigger] r2[a], #[trigger] r2[b]),
        forall|x: int| r1.contains(x) <==> r2.contains(x),
    ensures
        r1 == r2,
    decreases r1.len(),
{
    if r1.len() == 0 {
        if r2.len() > 0 {
            assert(r2.contains(r2[0]));
        }
        assert(r1 =~= r2);
    } else {
        assert(r1.contains(r1[0]));
        let a = r1[0];
        let b = r2[0];
        if a != b {
            assert(r2.contains(a));
            let k = choose|k: int| 0 <= k < r2.len() && r2[k] == a;
            assert(r1.contains(b)) by {
                assert(r2.contains(r2[0]));
            }
            let m = choose|m: int| 0 <= m < r1.len() && r1[m] == b;
            if k > 0 {
                assert(ranks_before(cs, au, r2[0], r2[k]));
            }
            if m > 0 {
                assert(ranks_before(cs, au, r1[0], r1[m]));
            }
            assert(false);
        }
        let t1 = r1.skip(1);
        let t2 = r2.skip(1);
        assert forall|x: int| t1.contains(x) <==> t2.contains(x) by {
            if t1.contains(x) {
                let i = choose|i: int| 0 <= i < t1.len() && t1[i] == x;
                assert(r1[i + 1] == x);
                assert(ranks_before(cs, au, r1[0], r1[i + 1]));
                assert(r2.contains(x));
                let j = choose|j: int| 0 <= j < r2.len() && r2[j] == x;
                assert(j != 0);
                assert(t2[j - 1] == x);
            }
            if t2.contains(x) {
                let i = choose|i: int| 0 <= i < t2.len() && t2[i] == x;
                assert(r2[i + 1] == x);
                assert(ranks_before(cs, au, r2[0], r2[i + 1]));
                assert(r1.contains(x));
                let j = choose|j: int| 0 <= j < r1.len() && r1[j] == x;
                assert(j != 0);
                assert(t1[j - 1] == x);
            }
        }
        assert forall|p: int, q: int| 0 <= p < q < t1.len() implies ranks_before(cs, au, #[trigger] t1[p], #[trigger] t1[q]) by {
            assert(t1[p] == r1[p + 1] && t1[q] == r1[q + 1]);
        }
        assert forall|p: int, q: int| 0 <= p < q < t2.len() implies ranks_before(cs, au, #[trigger] t2[p], #[trigger] t2[q]) by {
            assert(t2[p] == r2[p + 1] && t2[q] == r2[q + 1]);
        }
        lemma_ranking_unique(cs, au, t1, t2);
        assert(r1 =~= seq![a] + t1);
        assert(r2 =~= seq![b] + t2);
    }
}

proof fn lemma_author_counted(cs: Seq<ProposalComment>, x: Seq<char>)
    ensures
        comments_by(cs, x) > 0 ==> authors_in_order(cs).contains(x),
        !authors_in_order(cs).contains(x) ==> comments_by(cs, x) == 0,
    decreases cs.len(),
{
    if cs.len() > 0 {
        lemma_author_counted(cs.drop_last(), x);
        let a = authors_in_order(cs.drop_last());
        if !a.contains(cs.last().author@) && a.contains(x) {
            let k = choose|k: int| 0 <= k < a.len() && a[k] == x;
            assert(a.push(cs.last().author@)[k] == x);
        }
        if cs.last().author@ == x && !a.contains(x) {
            assert(a.push(x)[a.len() as int] == x);
        }
    }
}

/// The position of `name` in `v`.
fn position_of(v: &Vec<String>, name: &str) -> (r: Option<usize>)
    ensures
        match r {
            Some(k) => k < v@.len() && v@[k as int]@ == name@,
            None => !strs_view(v@).contains(name@),
        },
{
    let mut k: usize = 0;
    while k < v.len()
        invariant
            k <= v@.len(),
            forall|q: int| 0 <= q < k ==> v@[q]@ != name@,
        decreases v@.len() - k,
    {
        if str_eq(v[k].as_str(), name) {
            return Some(k);
        }
        k += 1;
    }
    proof {
        if strs_view(v@).contains(name@) {
            let q = choose|q: int| 0 <= q < strs_view(v@).len() && strs_view(v@)[q] == name@;
            assert(strs_view(v@)[q] == v@[q]@);
        }
    }
    None
}

/// The authors of `comments`, in the order they first comment, and how many
/// comments each wrote.
fn count_authors(comments: &Vec<ProposalComment>) -> (r: (Vec<String>, Vec<u32>))
    requires
        comments@.len() <= u32::MAX,
    ensures
        strs_view(r.0@) == authors_in_order(comments@),
        r.1@.len() == r.0@.len(),
        forall|k: int| 0 <= k < r.1@.len() ==> #[trigger] r.1@[k] == comments_by(comments@, r.0@[k]@),
{
    let mut authors: Vec<String> = Vec::new();
    let mut counts: Vec<u32> = Vec::new();
    let mut i: usize = 0;
    assert(strs_view(authors@) =~= authors_in_order(comments@.take(0)));
    while i < comments.len()
        invariant
            i <= comments@.len() <= u32::MAX,
            strs_view(authors@) == authors_in_order(comments@.take(i as int)),
            counts@.len() == authors@.len(),
            forall|k: int| 0 <= k < counts@.len() ==> #[trigger] counts@[k] == comments_by(comments@.take(i as int), authors@[k]@)
                && counts@[k] <= i,
            forall|k1: int, k2: int| 0 <= k1 < k2 < authors@.len() ==> authors@[k1]@ != authors@[k2]@,
        decreases comments@.len() - i,
    {
        let ghost t = comments@.take(i as int);
        let ghost t1 = comments@.take(i + 1);
        assert(t1.drop_last() =~= t);
        assert(t1.last() == comments@[i as int]);
        let a = comments[i].author.as_str();
        proof {
            crate::text::lemma_strs_view(authors@);
        }
        match position_of(&authors, a) {
            Some(p) => {
                proof {
                    assert(strs_view(authors@)[p as int] == a@);
                    assert(authors_in_order(t).contains(a@));
                }
                let c = counts[p];
                counts.set(p, c + 1);
                proof {
                    assert forall|k: int| 0 <= k < counts@.len() implies #[trigger] counts@[k] == comments_by(t1, authors@[k]@)
                        && counts@[k] <= i + 1 by {
                        if k != p {
                            if authors@[k]@ == a@ {
                                if k < p {
                                    assert(authors@[k]@ != authors@[p as int]@);
                                } else {
                                    assert(authors@[p as int]@ != authors@[k]@);
                                }
                            }
                        }
                    }
                }
            },
            None => {
                proof {
                    lemma_author_counted(t, a@);
                }
                let ghost before = authors@;
                authors.push(String::from_str(a));
                counts.push(1);
                proof {
                    assert(strs_view(authors@) =~= strs_view(before).push(a@));
                    assert forall|k: int| 0 <= k < counts@.len() implies #[trigger] counts@[k] == comments_by(t1, authors@[k]@)
                        && counts@[k] <= i + 1 by {
                        if k < before.len() {
                            assert(authors@[k] == before[k]);
                            if before[k]@ == a@ {
                                assert(strs_view(before)[k] == a@);
                            }
                        }
                    }
                    assert forall|k1: int, k2: int| 0 <= k1 < k2 < authors@.len() implies authors@[k1]@ != authors@[k2]@ by {
                        if k2 == before.len() {
                            assert(strs_view(before)[k1] == before[k1]@);
                        }
                    }
                }
            },
        }
        i = i + 1;
    }
    assert(comments@.take(i as int) =~= comments@);
    (authors, counts)
}

/// The most active participants of a discussion: at most five authors
/// with how many comments each wrote, most comments first; authors with as
/// many comments keep the order of their first comments.
pub fn top_participants(comments: &Vec<ProposalComment>) -> (r: Vec<(String, u32)>)
    requires
        comments@.len() <= u32::MAX,
    ensures
        r@.map_values(|e: (String, u32)| (e.0@, e.1 as nat)) == top_participants_of(comments@),
{
    let ghost cs = comments@;
    let (authors, counts) = count_authors(comments);
    let ghost au = authors_in_order(cs);
    proof {
        crate::text::lemma_strs_view(authors@);
    }
    let mut r: Vec<usize> = Vec::new();
    let mut j: usize = 0;
    while j < authors.len()
        invariant
            j <= authors@.len(),
            au == strs_view(authors@),
            au.len() == authors@.len(),
            counts@.len() == authors@.len(),
            forall|k: int| 0 <= k < counts@.len() ==> #[trigger] counts@[k] == comments_by(cs, au[k]),
            forall|k: int| 0 <= k < r@.len() ==> #[trigger] r@[k] < j,
            forall|x: int| 0 <= x < j ==> #[trigger] crate::cli::thread::ints(r@).contains(x),
            forall|a: int, b: int| 0 <= a < b < r@.len() ==> ranks_before(cs, au, #[trigger] r@[a] as int, #[trigger] r@[b] as int),
        decreases authors@.len() - j,
    {
        let ghost v = r@;
        let mut q = r.len();
        while q > 0 && counts[r[q - 1]] < counts[j]
            invariant
                q <= r@.len(),
                j < counts@.len(),
                v == r@,
                counts@.len() == authors@.len(),
                forall|k: int| 0 <= k < r@.len() ==> #[trigger] r@[k] < j,
                forall|x: int| q <= x < r@.len() ==> counts@[#[trigger] r@[x] as int] < counts@[j as int],
            decreases q,
        {
            q = q - 1;
        }
        proof {
            assert forall|x: int| 0 <= x < q implies ranks_before(cs, au, #[trigger] v[x] as int, j as int) by {
                if x < q - 1 {
                    assert(ranks_before(cs, au, v[x] as int, v[q - 1] as int));
                }
            }
            assert forall|x: int| q <= x < v.len() implies ranks_before(cs, au, j as int, #[trigger] v[x] as int) by {}
        }
        r.insert(q, j);
        proof {
            let w = r@;
            assert(w =~= v.insert(q as int, j));
            assert forall|a: int, b: int| 0 <= a < b < w.len() implies ranks_before(cs, au, #[trigger] w[a] as int, #[trigger] w[b] as int) by {
                if b < q {
                    assert(w[a] == v[a] && w[b] == v[b]);
                } else if b == q {
                    assert(w[a] == v[a]);
                } else if a < q {
                    assert(w[a] == v[a] && w[b] == v[b - 1]);
                } else if a == q {
                    assert(w[b] == v[b - 1]);
                } else {
                    assert(w[a] == v[a - 1] && w[b] == v[b - 1]);
                }
            }
            assert forall|k: int| 0 <= k < w.len() implies #[trigger] w[k] < j + 1 by {
                if k < q {
                    assert(w[k] == v[k]);
                } else if k > q {
                    assert(w[k] == v[k - 1]);
                }
            }
            assert forall|x: int| 0 <= x < j + 1 implies #[trigger] crate::cli::thread::ints(w).contains(x) by {
                let wi = crate::cli::thread::ints(w);
                if x == j {
                    assert(wi[q as int] == x);
                } else {
                    let vi = crate::cli::thread::ints(v);
                    assert(vi.contains(x));
                    let k = choose|k: int| 0 <= k < vi.len() && vi[k] == x;
                    if k < q {
                        assert(wi[k] == x);
                    } else {
                        assert(wi[k + 1] == x);
                    }
                }
            }
        }
        j = j + 1;
    }
    let ghost ri = crate::cli::thread::ints(r@);
    proof {
        assert forall|k: int| 0 <= k < ri.len() implies 0 <= #[trigger] ri[k] < au.len() by {
            assert(ri[k] == r@[k] as int);
        }
        assert forall|a: int, b: int| 0 <= a < b < ri.len() implies ranks_before(cs, au, #[trigger] ri[a], #[trigger] ri[b]) by {
            assert(ri[a] == r@[a] as int && ri[b] == r@[b] as int);
        }
        assert(is_ranking(cs, au, ri));
        let c = ranking(cs);
        assert(is_ranking(cs, au, c));
        assert forall|x: int| ri.contains(x) <==> c.contains(x) by {
            if ri.contains(x) {
                let k = choose|k: int| 0 <= k < ri.len() && ri[k] == x;
                assert(0 <= ri[k] < au.len());
            }
            if c.contains(x) {
                let k = choose|k: int| 0 <= k < c.len() && c[k] == x;
                assert(0 <= c[k] < au.len());
            }
        }
        lemma_ranking_unique(cs, au, ri, c);
    }
    let n: usize = if r.len() < 5 { r.len() } else { 5 };
    let mut out: Vec<(String, u32)> = Vec::new();
    let mut k: usize = 0;
    while k < n
        invariant
            k <= n <= r@.len(),
            n == (if r@.len() < 5 { r@.len() } else { 5 }),
            ri == crate::cli::thread::ints(r@),
            ri == ranking(cs),
            au == strs_view(authors@),
            au.len() == authors@.len(),
            counts@.len() == authors@.len(),
            forall|x: int| 0 <= x < counts@.len() ==> #[trigger] counts@[x] == comments_by(cs, au[x]),
            forall|x: int| 0 <= x < r@.len() ==> #[trigger] r@[x] < authors@.len(),
            out@.map_values(|e: (String, u32)| (e.0@, e.1 as nat)) == ri.take(k as int).map_values(
                |p: int| (au[p], comments_by(cs, au[p])),
            ),
        decreases n - k,
    {
        let p = r[k];
        let ghost before = out@;
        proof {
            assert(ri.take(k as int).len() == k);
            assert(before.map_values(|e: (String, u32)| (e.0@, e.1 as nat)).len() == before.len());
            assert(before.len() == k);
        }
        out.push((authors[p].clone(), counts[p]));
        proof {
            assert(ri[k as int] == p as int);
            assert(au[p as int] == authors@[p as int]@);
            assert(counts@[p as int] == comments_by(cs, au[p as int]));
            assert(out@[k as int].0@ == au[p as int]);
            assert(out@[k as int].1 as nat == comments_by(cs, au[p as int]));
            let m = |e: (String, u32)| (e.0@, e.1 as nat);
            let g = |p: int| (au[p], comments_by(cs, au[p]));
            assert(out@.map_values(m).drop_last() =~= before.map_values(m));
            assert(ri.take(k + 1).map_values(g).drop_last() =~= ri.take(k as int).map_values(g));
            assert(out@.map_values(m).last() == ri.take(k + 1).map_values(g).last());
            assert(out@.map_values(m).len() == ri.take(k + 1).map_values(g).len());
            assert(out@.map_values(m) =~= ri.take(k + 1).map_values(g)) by {
                assert forall|x: int| 0 <= x < out@.len() implies out@.map_values(m)[x] == ri.take(k + 1).map_values(g)[x] by {
                    if x < k {
                        assert(out@.map_values(m)[x] == out@.map_values(m).drop_last()[x]);
                        assert(ri.take(k + 1).map_values(g)[x] == ri.take(k + 1).map_values(g).drop_last()[x]);
                    }
                }
            }
            assert(out@.map_values(|e: (String, u32)| (e.0@, e.1 as nat)) =~= ri.take(k + 1).map_values(
                |p: int| (au[p], comments_by(cs, au[p])),
            ));
        }
        k = k + 1;
    }
    out
}

/// When a discussion last moved: the time of its latest comment, or
/// `created_at` when it has none.
pub fn last_activity(comments: &Vec<ProposalComment>, created_at: i64) -> (t: i64)
    ensures
        comments@.len() == 0 ==> t == created_at,
        comments@.len() > 0 ==> (exists|k: int| 0 <= k < comments@.len() && t == #[trigger] comments@[k].timestamp),
        forall|k: int| 0 <= k < comments@.len() ==> #[trigger] comments@[k].timestamp <= t,
{
    if comments.len() == 0 {
        return created_at;
    }
    let mut best = comments[0].timestamp;
    let mut i: usize = 1;
    while i < comments.len()
        invariant
            1 <= i <= comments@.len(),
            exists|k: int| 0 <= k < i && best == #[trigger] comments@[k].timestamp,
            forall|k: int| 0 <= k < i ==> #[trigger] comments@[k].timestamp <= best,
        decreases comments@.len() - i,
    {
        if comments[i].timestamp > best {
            best = comments[i].timestamp;
        }
        i = i + 1;
    }
    best
}

} // verus!
