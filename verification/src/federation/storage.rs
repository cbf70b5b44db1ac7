use vstd::prelude::*;
use crate::federation::messages::{FederatedProposal, FederatedVote, VotingModel};
use crate::identity::identity::Identity;
use crate::text::str_eq;

verus! {

/// What a proposal holds, as values.
pub open spec fn proposal_view(p: FederatedProposal) -> (Seq<char>, Seq<char>, Seq<Seq<char>>, Seq<char>, i64) {
    (p.proposal_id@, p.namespace@, p.options@.map_values(|s: String| s@), p.creator@, p.created_at)
}

/// What a vote holds, as values.
pub open spec fn vote_view(v: FederatedVote) -> (Seq<char>, Seq<char>, Seq<u64>, Seq<char>) {
    (v.proposal_id@, v.voter@, v.ranked_choices@, v.signature@)
}

fn copy_strings(v: &Vec<String>) -> (r: Vec<String>)
    ensures
        r@.map_values(|s: String| s@) == v@.map_values(|s: String| s@),
{
    let r = v.clone();
    assert(r@.map_values(|s: String| s@) =~= v@.map_values(|s: String| s@)) by {
        assert forall|k: int| 0 <= k < v@.len() implies r@[k] == v@[k] by {
            assert(vstd::pervasive::cloned::<String>(v@[k], r@[k]));
        }
    }
    r
}

fn copy_proposal(p: &FederatedProposal) -> (r: FederatedProposal)
    ensures
        proposal_view(r) == proposal_view(*p),
{
    FederatedProposal {
        proposal_id: p.proposal_id.clone(),
        namespace: p.namespace.clone(),
        options: copy_strings(&p.options),
        creator: p.creator.clone(),
        created_at: p.created_at,
    }
}

fn copy_vote(v: &FederatedVote) -> (r: FederatedVote)
    ensures
        vote_view(r) == vote_view(*v),
{
    let rc = v.ranked_choices.clone();
    assert(rc@ =~= v.ranked_choices@);
    FederatedVote {
        proposal_id: v.proposal_id.clone(),
        voter: v.voter.clone(),
        ranked_choices: rc,
        signature: v.signature.clone(),
    }
}

fn copy_votes(v: &Vec<FederatedVote>) -> (r: Vec<FederatedVote>)
    ensures
        r@.map_values(|x: FederatedVote| vote_view(x)) == v@.map_values(|x: FederatedVote| vote_view(x)),
{
    let mut r: Vec<FederatedVote> = Vec::new();
    let mut i: usize = 0;
    while i < v.len()
        invariant
            i <= v@.len(),
            r@.map_values(|x: FederatedVote| vote_view(x)) =~= v@.take(i as int).map_values(|x: FederatedVote| vote_view(x)),
        decreases v@.len() - i,
    {
        let c = copy_vote(&v[i]);
        let ghost before = r@;
        r.push(c);
        assert(r@.map_values(|x: FederatedVote| vote_view(x)) =~= before.map_values(|x: FederatedVote| vote_view(x)).push(vote_view(v@[i as int])));
        assert(v@.take(i + 1).map_values(|x: FederatedVote| vote_view(x)) =~= v@.take(i as int).map_values(|x: FederatedVote| vote_view(x)).push(vote_view(v@[i as int])));
        i += 1;
    }
    assert(v@.take(i as int) =~= v@);
    r
}

/// The proposals and votes held in memory, by proposal id; no proposal id
/// occurs twice in either list.
pub struct FederationCache {
    pub proposals: Vec<FederatedProposal>,
    pub votes: Vec<(String, Vec<FederatedVote>)>,
}

/// The outcome of a federation vote: the proposal, the winning option (its
/// index and text), and how many votes were cast.
#[derive(Debug, Clone)]
pub struct VoteTallyResult {
    pub proposal: FederatedProposal,
    pub winner_index: usize,
    pub winner_option: String,
    pub total_votes: usize,
}

/// Whether a vote signature is accepted by the stand-in check of
/// [`FederationStorage::verify_signature`].
pub open spec fn signature_accepted(message: Seq<char>, signature: Seq<char>, scheme: Seq<char>, public_key: Seq<u8>) -> bool {
    if signature == "valid"@ || signature == "mock_signature"@ {
        true
    } else if scheme == "ed25519"@ || scheme == "secp256k1"@ {
        signature.len() > 0 && message.len() > 0 && public_key.len() > 0
    } else {
        false
    }
}

/// Whether one of `votes` was cast by `voter`.
pub open spec fn has_voted(votes: Seq<(Seq<char>, Seq<char>, Seq<u64>, Seq<char>)>, voter: Seq<char>) -> bool {
    exists|k: int| 0 <= k < votes.len() && #[trigger] votes[k].1 == voter
}

/// Whether one of `votes` was cast by `voter`.
fn voted_in(votes: &Vec<FederatedVote>, voter: &str) -> (r: bool)
    ensures
        r == exists|k: int| 0 <= k < votes@.len() && #[trigger] votes@[k].voter@ == voter@,
{
    let mut i: usize = 0;
    while i < votes.len()
        invariant
            i <= votes@.len(),
            forall|k: int| 0 <= k < i ==> #[trigger] votes@[k].voter@ != voter@,
        decreases votes@.len() - i,
    {
        if str_eq(votes[i].voter.as_str(), voter) {
            return true;
        }
        i += 1;
    }
    false
}

/// The identity listed for `voter` in `ids` from position `k` on (the first
/// such entry).
pub open spec fn identity_from(ids: Seq<(String, Identity)>, k: int, voter: Seq<char>) -> Option<Identity>
    decreases ids.len() - k,
{
    if k < 0 || k >= ids.len() {
        None
    } else if ids[k].0@ == voter {
        Some(ids[k].1)
    } else {
        identity_from(ids, k + 1, voter)
    }
}

/// The group a voter's vote counts in under one vote per cooperative: the
/// cooperative named under "coop_id" in the voter's identity, else the
/// voter.
pub open spec fn ballot_group(ids: Seq<(String, Identity)>, voter: Seq<char>) -> Seq<char> {
    match identity_from(ids, 0, voter) {
        Some(id) => if id.metadata@.dom().contains("coop_id"@) {
            id.metadata@["coop_id"@]
        } else {
            voter
        },
        None => voter,
    }
}

/// The groups of `gs` in the order in which each first occurs.
pub open spec fn first_seen(gs: Seq<Seq<char>>) -> Seq<Seq<char>>
    decreases gs.len(),
{
    if gs.len() == 0 {
        seq![]
    } else {
        let p = first_seen(gs.drop_last());
        if p.contains(gs[gs.len() - 1]) {
            p
        } else {
            p.push(gs[gs.len() - 1])
        }
    }
}

/// The ranking of the last vote in group `g`, the votes having the groups
/// `gs` and the rankings `cs`.
pub open spec fn last_with(gs: Seq<Seq<char>>, cs: Seq<Seq<u64>>, g: Seq<char>) -> Seq<u64>
    decreases gs.len(),
{
    if gs.len() == 0 || cs.len() == 0 {
        seq![]
    } else if gs[gs.len() - 1] == g {
        cs[cs.len() - 1]
    } else {
        last_with(gs.drop_last(), cs.drop_last(), g)
    }
}

/// The ballots counted under a voting model: every vote's ranking, in the
/// order of the votes; or, one vote per cooperative, the ranking of the
/// latest vote of each group, the groups in the order they first vote.
pub open spec fn model_ballots(model: VotingModel, votes: Seq<FederatedVote>, ids: Seq<(String, Identity)>) -> Seq<
    Seq<u64>,
> {
    let cs = votes.map_values(|v: FederatedVote| v.ranked_choices@);
    let gs = votes.map_values(|v: FederatedVote| ballot_group(ids, v.voter@));
    match model {
        VotingModel::OneMemberOneVote => cs,
        VotingModel::OneCoopOneVote => first_seen(gs).map_values(|g: Seq<char>| last_with(gs, cs, g)),
    }
}

/// The group a voter's vote counts in ([`ballot_group`]).
fn ballot_group_of(ids: &[(String, Identity)], voter: &str) -> (r: String)
    requires
        forall|k: int| 0 <= k < ids@.len() ==> (#[trigger] ids@[k]).1.metadata.wf(),
    ensures
        r@ == ballot_group(ids@, voter@),
{
    let mut k: usize = 0;
    while k < ids.len()
        invariant
            k <= ids@.len(),
            identity_from(ids@, 0, voter@) == identity_from(ids@, k as int, voter@),
            forall|q: int| 0 <= q < ids@.len() ==> (#[trigger] ids@[q]).1.metadata.wf(),
        decreases ids@.len() - k,
    {
        if str_eq(ids[k].0.as_str(), voter) {
            let id = &ids[k].1;
            proof {
                reveal_strlit("coop_id");
            }
            assert(ids@[k as int].1.metadata.wf());
            return match id.get_metadata("coop_id") {
                Some(c) => c.clone(),
                None => String::from_str(voter),
            };
        }
        k += 1;
    }
    String::from_str(voter)
}

/// The storage key of a federated proposal: `federation/proposals/<id>`.
pub open spec fn proposal_key(id: Seq<char>) -> Seq<char> {
    "federation/proposals/"@ + id
}

/// The storage key of the votes on a federated proposal: `federation/votes/<id>`.
pub open spec fn votes_key(id: Seq<char>) -> Seq<char> {
    "federation/votes/"@ + id
}

/// Keeps federated proposals and their votes in memory, in front of the
/// storage backend that the caller writes to and reads from.
pub struct FederationStorage {
    cache: FederationCache,
}

impl FederationStorage {
    /// No proposal id occurs twice among the cached proposals, nor among the
    /// cached vote lists.
    pub closed spec fn wf(&self) -> bool {
        &&& forall|i: int, j: int|
            0 <= i < j < self.cache.proposals@.len() ==> #[trigger] self.cache.proposals@[i].proposal_id@
                != #[trigger] self.cache.proposals@[j].proposal_id@
        &&& forall|i: int, j: int|
            0 <= i < j < self.cache.votes@.len() ==> #[trigger] self.cache.votes@[i].0@
                != #[trigger] self.cache.votes@[j].0@
    }

    /// The cached proposals, by id.
    pub closed spec fn proposals(&self) -> Map<Seq<char>, (Seq<char>, Seq<char>, Seq<Seq<char>>, Seq<char>, i64)> {
        Map::new(
            |k: Seq<char>| exists|i: int| 0 <= i < self.cache.proposals@.len() && self.cache.proposals@[i].proposal_id@ == k,
            |k: Seq<char>| {
                let i = choose|i: int| 0 <= i < self.cache.proposals@.len() && self.cache.proposals@[i].proposal_id@ == k;
                proposal_view(self.cache.proposals@[i])
            },
        )
    }

    /// The cached vote lists, by proposal id.
    pub closed spec fn votes(&self) -> Map<Seq<char>, Seq<(Seq<char>, Seq<char>, Seq<u64>, Seq<char>)>> {
        Map::new(
            |k: Seq<char>| exists|i: int| 0 <= i < self.cache.votes@.len() && self.cache.votes@[i].0@ == k,
            |k: Seq<char>| {
                let i = choose|i: int| 0 <= i < self.cache.votes@.len() && self.cache.votes@[i].0@ == k;
                self.cache.votes@[i].1@.map_values(|x: FederatedVote| vote_view(x))
            },
        )
    }

    proof fn lemma_proposal_at(&self, i: int)
        requires
            self.wf(),
            0 <= i < self.cache.proposals@.len(),
        ensures
            self.proposals().dom().contains(self.cache.proposals@[i].proposal_id@),
            self.proposals()[self.cache.proposals@[i].proposal_id@] == proposal_view(self.cache.proposals@[i]),
    {
        let k = self.cache.proposals@[i].proposal_id@;
        assert(self.proposals().dom().contains(k));
        let j = choose|j: int| 0 <= j < self.cache.proposals@.len() && self.cache.proposals@[j].proposal_id@ == k;
        if j < i {
            assert(self.cache.proposals@[j].proposal_id@ != self.cache.proposals@[i].proposal_id@);
        } else if j > i {
            assert(self.cache.proposals@[i].proposal_id@ != self.cache.proposals@[j].proposal_id@);
        }
    }

    proof fn lemma_votes_at(&self, i: int)
        requires
            self.wf(),
            0 <= i < self.cache.votes@.len(),
        ensures
            self.votes().dom().contains(self.cache.votes@[i].0@),
            self.votes()[self.cache.votes@[i].0@] == self.cache.votes@[i].1@.map_values(|x: FederatedVote| vote_view(x)),
    {
        let k = self.cache.votes@[i].0@;
        assert(self.votes().dom().contains(k));
        let j = choose|j: int| 0 <= j < self.cache.votes@.len() && self.cache.votes@[j].0@ == k;
        if j < i {
            assert(self.cache.votes@[j].0@ != self.cache.votes@[i].0@);
        } else if j > i {
            assert(self.cache.votes@[i].0@ != self.cache.votes@[j].0@);
        }
    }

    /// An empty store.
    pub fn new() -> (s: Self)
        ensures
            s.wf(),
            s.proposals() == Map::<Seq<char>, (Seq<char>, Seq<char>, Seq<Seq<char>>, Seq<char>, i64)>::empty(),
            s.votes() == Map::<Seq<char>, Seq<(Seq<char>, Seq<char>, Seq<u64>, Seq<char>)>>::empty(),
    {
        let s = FederationStorage { cache: FederationCache { proposals: Vec::new(), votes: Vec::new() } };
        assert(s.proposals() =~= Map::<Seq<char>, (Seq<char>, Seq<char>, Seq<Seq<char>>, Seq<char>, i64)>::empty());
        assert(s.votes() =~= Map::<Seq<char>, Seq<(Seq<char>, Seq<char>, Seq<u64>, Seq<char>)>>::empty());
        s
    }

    fn find_proposal(&self, id: &str) -> (r: Option<usize>)
        ensures
            match r {
                Some(i) => i < self.cache.proposals@.len() && self.cache.proposals@[i as int].proposal_id@ == id@,
                None => !self.proposals().dom().contains(id@),
            },
    {
        let mut i: usize = 0;
        while i < self.cache.proposals.len()
            invariant
                i <= self.cache.proposals@.len(),
                forall|k: int| 0 <= k < i ==> self.cache.proposals@[k].proposal_id@ != id@,
            decreases self.cache.proposals@.len() - i,
        {
            if str_eq(self.cache.proposals[i].proposal_id.as_str(), id) {
                return Some(i);
            }
            i += 1;
        }
        None
    }

    fn find_votes(&self, id: &str) -> (r: Option<usize>)
        ensures
            match r {
                Some(i) => i < self.cache.votes@.len() && self.cache.votes@[i as int].0@ == id@,
                None => !self.votes().dom().contains(id@),
            },
    {
        let mut i: usize = 0;
        while i < self.cache.votes.len()
            invariant
                i <= self.cache.votes@.len(),
                forall|k: int| 0 <= k < i ==> self.cache.votes@[k].0@ != id@,
            decreases self.cache.votes@.len() - i,
        {
            if str_eq(self.cache.votes[i].0.as_str(), id) {
                return Some(i);
            }
            i += 1;
        }
        None
    }

    /// The storage key under which the caller stores a proposal.
    pub fn proposal_storage_key(proposal_id: &str) -> (k: String)
        ensures
            k@ == proposal_key(proposal_id@),
    {
        let mut k = String::from_str("federation/proposals/");
        k.append(proposal_id);
        k
    }

    /// The storage key under which the caller stores a proposal's votes.
    pub fn votes_storage_key(proposal_id: &str) -> (k: String)
        ensures
            k@ == votes_key(proposal_id@),
    {
        let mut k = String::from_str("federation/votes/");
        k.append(proposal_id);
        k
    }

    /// Caches a proposal that the caller has stored (in its namespace, under
    /// [`Self::proposal_storage_key`]); it replaces a cached proposal with
    /// the same id.
    pub fn save_proposal(&mut self, proposal: FederatedProposal)
        requires
            old(self).wf(),
        ensures
            final(self).wf(),
            final(self).proposals() == old(self).proposals().insert(proposal.proposal_id@, proposal_view(proposal)),
            final(self).votes() == old(self).votes(),
    {
        let ghost key = proposal.proposal_id@;
        let ghost pv = proposal_view(proposal);
        let ghost old_p = self.cache.proposals@;
        match self.find_proposal(proposal.proposal_id.as_str()) {
            Some(i) => {
                self.cache.proposals.set(i, proposal);
                proof {
                    assert forall|a: int, b: int|
                        0 <= a < b < self.cache.proposals@.len() implies #[trigger] self.cache.proposals@[a].proposal_id@
                        != #[trigger] self.cache.proposals@[b].proposal_id@ by {
                        assert(old_p[a].proposal_id@ != old_p[b].proposal_id@);
                    }
                    assert forall|q: Seq<char>| #[trigger] self.proposals().dom().contains(q) <==> (q == key || old(self).proposals().dom().contains(q)) by {
                        if old(self).proposals().dom().contains(q) {
                            let j = choose|j: int| 0 <= j < old_p.len() && old_p[j].proposal_id@ == q;
                            if j == i {
                                assert(self.cache.proposals@[j].proposal_id@ == key);
                            } else {
                                assert(self.cache.proposals@[j].proposal_id@ == q);
                            }
                        }
                        if self.proposals().dom().contains(q) {
                            let j = choose|j: int| 0 <= j < self.cache.proposals@.len() && self.cache.proposals@[j].proposal_id@ == q;
                            if j != i {
                                assert(old_p[j].proposal_id@ == q);
                            }
                        }
                        if q == key {
                            assert(self.cache.proposals@[i as int].proposal_id@ == q);
                        }
                    }
                    assert forall|q: Seq<char>| #[trigger] self.proposals().dom().contains(q) implies self.proposals()[q]
                        == old(self).proposals().insert(key, pv)[q] by {
                        let j = choose|j: int| 0 <= j < self.cache.proposals@.len() && self.cache.proposals@[j].proposal_id@ == q;
                        self.lemma_proposal_at(j);
                        if j != i {
                            old(self).lemma_proposal_at(j);
                        }
                    }
                    assert(self.proposals() =~= old(self).proposals().insert(key, pv));
                    assert(self.votes() =~= old(self).votes());
                }
            },
            None => {
                self.cache.proposals.push(proposal);
                proof {
                    let n = old_p.len() as int;
                    assert forall|a: int, b: int|
                        0 <= a < b < self.cache.proposals@.len() implies #[trigger] self.cache.proposals@[a].proposal_id@
                        != #[trigger] self.cache.proposals@[b].proposal_id@ by {
                        if b == n {
                            assert(old(self).proposals().dom().contains(old_p[a].proposal_id@));
                        } else {
                            assert(old_p[a].proposal_id@ != old_p[b].proposal_id@);
                        }
                    }
                    assert forall|q: Seq<char>| #[trigger] self.proposals().dom().contains(q) <==> (q == key || old(self).proposals().dom().contains(q)) by {
                        if old(self).proposals().dom().contains(q) {
                            let j = choose|j: int| 0 <= j < old_p.len() && old_p[j].proposal_id@ == q;
                            assert(self.cache.proposals@[j].proposal_id@ == q);
                        }
                        if self.proposals().dom().contains(q) {
                            let j = choose|j: int| 0 <= j < self.cache.proposals@.len() && self.cache.proposals@[j].proposal_id@ == q;
                            if j < n {
                                assert(old_p[j].proposal_id@ == q);
                            }
                        }
                        if q == key {
                            assert(self.cache.proposals@[n].proposal_id@ == q);
                        }
                    }
                    assert forall|q: Seq<char>| #[trigger] self.proposals().dom().contains(q) implies self.proposals()[q]
                        == old(self).proposals().insert(key, pv)[q] by {
                        let j = choose|j: int| 0 <= j < self.cache.proposals@.len() && self.cache.proposals@[j].proposal_id@ == q;
                        self.lemma_proposal_at(j);
                        if j < n {
                            old(self).lemma_proposal_at(j);
                        }
                    }
                    assert(self.proposals() =~= old(self).proposals().insert(key, pv));
                    assert(self.votes() =~= old(self).votes());
                }
            },
        }
    }

    /// The votes cached for a proposal id, none when there are none.
    pub open spec fn votes_on(&self, id: Seq<char>) -> Seq<(Seq<char>, Seq<char>, Seq<u64>, Seq<char>)> {
        if self.votes().dom().contains(id) {
            self.votes()[id]
        } else {
            seq![]
        }
    }

    /// Records a vote: it goes after the votes already cached for its
    /// proposal. A voter votes once on a proposal: a second vote is refused
    /// with "Voter <voter> has already voted", and nothing changes.
    pub fn save_vote(&mut self, vote: FederatedVote) -> (r: Result<(), String>)
        requires
            old(self).wf(),
        ensures
            final(self).wf(),
            r is Err <==> has_voted(old(self).votes_on(vote.proposal_id@), vote.voter@),
            r matches Err(m) ==> m@ == "Voter "@ + vote.voter@ + " has already voted"@,
            r is Err ==> *final(self) == *old(self),
            r is Ok ==> final(self).proposals() == old(self).proposals(),
            r is Ok ==> final(self).votes() == old(self).votes().insert(
                vote.proposal_id@,
                old(self).votes_on(vote.proposal_id@).push(vote_view(vote)),
            ),
    {
        let ghost key = vote.proposal_id@;
        let ghost vv = vote_view(vote);
        let ghost old_v = self.cache.votes@;
        let ghost expected = old(self).votes_on(key).push(vv);
        match self.find_votes(vote.proposal_id.as_str()) {
            Some(i) => {
                proof {
                    old(self).lemma_votes_at(i as int);
                }
                if voted_in(&self.cache.votes[i].1, vote.voter.as_str()) {
                    proof {
                        let list = self.cache.votes@[i as int].1@;
                        let k = choose|k: int| 0 <= k < list.len() && #[trigger] list[k].voter@ == vote.voter@;
                        assert(old(self).votes_on(key)[k] == vote_view(list[k]));
                        assert(old(self).votes_on(key)[k].1 == vote.voter@);
                        assert(has_voted(old(self).votes_on(key), vote.voter@));
                    }
                    let mut m = String::from_str("Voter ");
                    m.append(vote.voter.as_str());
                    m.append(" has already voted");
                    return Err(m);
                }
                proof {
                    let list = self.cache.votes@[i as int].1@;
                    assert forall|k: int| 0 <= k < old(self).votes_on(key).len() implies #[trigger] old(self).votes_on(
                        key,
                    )[k].1 != vote.voter@ by {
                        assert(old(self).votes_on(key)[k] == vote_view(list[k]));
                    }
                }
                let name = self.cache.votes[i].0.clone();
                let mut list = copy_votes(&self.cache.votes[i].1);
                let ghost before = list@;
                list.push(vote);
                assert(list@.map_values(|x: FederatedVote| vote_view(x)) =~= before.map_values(
                    |x: FederatedVote| vote_view(x),
                ).push(vv));
                self.cache.votes.set(i, (name, list));
                proof {
                    assert forall|a: int, b: int|
                        0 <= a < b < self.cache.votes@.len() implies #[trigger] self.cache.votes@[a].0@
                        != #[trigger] self.cache.votes@[b].0@ by {
                        assert(old_v[a].0@ != old_v[b].0@);
                    }
                    assert forall|q: Seq<char>| #[trigger] self.votes().dom().contains(q) <==> (q == key
                        || old(self).votes().dom().contains(q)) by {
                        if old(self).votes().dom().contains(q) {
                            let j = choose|j: int| 0 <= j < old_v.len() && old_v[j].0@ == q;
                            assert(self.cache.votes@[j].0@ == q);
                        }
                        if self.votes().dom().contains(q) {
                            let j = choose|j: int| 0 <= j < self.cache.votes@.len() && self.cache.votes@[j].0@ == q;
                            assert(old_v[j].0@ == q);
                        }
                        if q == key {
                            assert(self.cache.votes@[i as int].0@ == q);
                        }
                    }
                    assert forall|q: Seq<char>| #[trigger] self.votes().dom().contains(q) implies self.votes()[q]
                        == old(self).votes().insert(key, expected)[q] by {
                        let j = choose|j: int| 0 <= j < self.cache.votes@.len() && self.cache.votes@[j].0@ == q;
                        self.lemma_votes_at(j);
                        if j != i {
                            old(self).lemma_votes_at(j);
                        }
                    }
                    assert(self.votes() =~= old(self).votes().insert(key, expected));
                    assert(self.proposals() =~= old(self).proposals());
                }
            },
            None => {
                assert(old(self).votes_on(key) =~= seq![]);
                let name = vote.proposal_id.clone();
                let mut list: Vec<FederatedVote> = Vec::new();
                list.push(vote);
                assert(list@.map_values(|x: FederatedVote| vote_view(x)) =~= seq![vv]);
                assert(expected =~= seq![vv]);
                self.cache.votes.push((name, list));
                proof {
                    let n = old_v.len() as int;
                    assert forall|a: int, b: int|
                        0 <= a < b < self.cache.votes@.len() implies #[trigger] self.cache.votes@[a].0@
                        != #[trigger] self.cache.votes@[b].0@ by {
                        if b == n {
                            assert(old(self).votes().dom().contains(old_v[a].0@));
                        } else {
                            assert(old_v[a].0@ != old_v[b].0@);
                        }
                    }
                    assert forall|q: Seq<char>| #[trigger] self.votes().dom().contains(q) <==> (q == key
                        || old(self).votes().dom().contains(q)) by {
                        if old(self).votes().dom().contains(q) {
                            let j = choose|j: int| 0 <= j < old_v.len() && old_v[j].0@ == q;
                            assert(self.cache.votes@[j].0@ == q);
                        }
                        if self.votes().dom().contains(q) {
                            let j = choose|j: int| 0 <= j < self.cache.votes@.len() && self.cache.votes@[j].0@ == q;
                            if j < n {
                                assert(old_v[j].0@ == q);
                            }
                        }
                        if q == key {
                            assert(self.cache.votes@[n].0@ == q);
                        }
                    }
                    assert forall|q: Seq<char>| #[trigger] self.votes().dom().contains(q) implies self.votes()[q]
                        == old(self).votes().insert(key, expected)[q] by {
                        let j = choose|j: int| 0 <= j < self.cache.votes@.len() && self.cache.votes@[j].0@ == q;
                        self.lemma_votes_at(j);
                        if j < n {
                            old(self).lemma_votes_at(j);
                        }
                    }
                    assert(self.votes() =~= old(self).votes().insert(key, expected));
                    assert(self.proposals() =~= old(self).proposals());
                }
            },
        }
        Ok(())
    }

    /// Whether a vote's signature is accepted. The check is a stand-in for
    /// real cryptography: `valid` and `mock_signature` always pass; for the
    /// `ed25519` and `secp256k1` schemes a signature passes when the
    /// signature, the message and the public key are all non-empty; any
    /// other scheme fails.
    pub fn verify_signature(
        &self,
        voter_id: &str,
        message: &str,
        signature: &str,
        scheme: &str,
        public_key: &[u8],
    ) -> (ok: bool)
        ensures
            ok == signature_accepted(message@, signature@, scheme@, public_key@),
    {
        if str_eq(signature, "valid") || str_eq(signature, "mock_signature") {
            return true;
        }
        if str_eq(scheme, "ed25519") || str_eq(scheme, "secp256k1") {
            return !signature.is_empty() && !message.is_empty() && public_key.len() > 0;
        }
        false
    }

    /// The ballots of a ranked-choice count: each vote's ranking, in the
    /// order of the votes.
    pub fn prepare_ranked_ballots(&self, votes: &[FederatedVote], num_options: usize) -> (r: Vec<Vec<u64>>)
        ensures
            r@.len() == votes@.len(),
            forall|k: int| 0 <= k < votes@.len() ==> (#[trigger] r@[k])@ == votes@[k].ranked_choices@,
    {
        let mut r: Vec<Vec<u64>> = Vec::new();
        let mut i: usize = 0;
        while i < votes.len()
            invariant
                i <= votes@.len(),
                r@.len() == i,
                forall|k: int| 0 <= k < i ==> (#[trigger] r@[k])@ == votes@[k].ranked_choices@,
            decreases votes@.len() - i,
        {
            let b = votes[i].ranked_choices.clone();
            assert(b@ =~= votes@[i as int].ranked_choices@);
            r.push(b);
            i += 1;
        }
        r
    }

    /// The ballots of a ranked-choice count under a voting model
    /// ([`model_ballots`]): one member, one vote keeps every ranking; one
    /// cooperative, one vote keeps only the latest vote of each cooperative,
    /// a voter with no known cooperative counting as one of their own.
    pub fn prepare_ballots_for(
        &self,
        votes: &[FederatedVote],
        model: VotingModel,
        voter_identities: &[(String, Identity)],
    ) -> (r: Vec<Vec<u64>>)
        requires
            forall|k: int| 0 <= k < voter_identities@.len() ==> (#[trigger] voter_identities@[k]).1.metadata.wf(),
        ensures
            r@.map_values(|b: Vec<u64>| b@) == model_ballots(model, votes@, voter_identities@),
    {
        let ghost cs = votes@.map_values(|v: FederatedVote| v.ranked_choices@);
        let ghost gs = votes@.map_values(|v: FederatedVote| ballot_group(voter_identities@, v.voter@));
        match model {
            VotingModel::OneMemberOneVote => {
                let r = self.prepare_ranked_ballots(votes, 0);
                assert(r@.map_values(|b: Vec<u64>| b@) =~= cs);
                r
            },
            VotingModel::OneCoopOneVote => {
                let mut keys: Vec<String> = Vec::new();
                let mut vals: Vec<Vec<u64>> = Vec::new();
                let mut i: usize = 0;
                assert(gs.take(0) =~= Seq::<Seq<char>>::empty());
                while i < votes.len()
                    invariant
                        i <= votes@.len(),
                        cs == votes@.map_values(|v: FederatedVote| v.ranked_choices@),
                        gs == votes@.map_values(|v: FederatedVote| ballot_group(voter_identities@, v.voter@)),
                        forall|k: int| 0 <= k < voter_identities@.len() ==> (#[trigger] voter_identities@[k]).1.metadata.wf(),
                        keys@.map_values(|s: String| s@) == first_seen(gs.take(i as int)),
                        vals@.len() == keys@.len(),
                        forall|a: int, b: int| 0 <= a < b < keys@.len() ==> #[trigger] keys@[a]@ != #[trigger] keys@[b]@,
                        forall|j: int| 0 <= j < vals@.len() ==> (#[trigger] vals@[j])@ == last_with(
                            gs.take(i as int),
                            cs.take(i as int),
                            keys@[j]@,
                        ),
                    decreases votes@.len() - i,
                {
                    let g = ballot_group_of(voter_identities, votes[i].voter.as_str());
                    let c = votes[i].ranked_choices.clone();
                    assert(c@ =~= cs[i as int]);
                    let ghost gi = gs.take(i + 1);
                    let ghost ci = cs.take(i + 1);
                    assert(gi.drop_last() =~= gs.take(i as int));
                    assert(ci.drop_last() =~= cs.take(i as int));
                    assert(gi[gi.len() - 1] == g@);
                    let ghost fs = first_seen(gs.take(i as int));
                    let mut p: usize = 0;
                    while p < keys.len() && !str_eq(keys[p].as_str(), g.as_str())
                        invariant
                            p <= keys@.len(),
                            forall|q: int| 0 <= q < p ==> #[trigger] keys@[q]@ != g@,
                        decreases keys@.len() - p,
                    {
                        p += 1;
                    }
                    let ghost old_keys = keys@;
                    let ghost old_vals = vals@;
                    if p < keys.len() {
                        assert(keys@[p as int]@ == g@);
                        assert(fs[p as int] == g@);
                        assert(fs.contains(g@));
                        assert(first_seen(gi) == fs);
                        vals.set(p, c);
                        assert forall|j: int| 0 <= j < vals@.len() implies (#[trigger] vals@[j])@ == last_with(gi, ci, keys@[j]@) by {
                            if j != p {
                                assert(keys@[j]@ != g@) by {
                                    if j < p {
                                        assert(keys@[j]@ != keys@[p as int]@);
                                    } else {
                                        assert(keys@[p as int]@ != keys@[j]@);
                                    }
                                }
                                assert(vals@[j] == old_vals[j]);
                            }
                        }
                    } else {
                        assert(!fs.contains(g@)) by {
                            if fs.contains(g@) {
                                let q = choose|q: int| 0 <= q < fs.len() && fs[q] == g@;
                                assert(keys@[q]@ == fs[q]);
                            }
                        }
                        assert(first_seen(gi) == fs.push(g@));
                        let gk = g.clone();
                        keys.push(gk);
                        vals.push(c);
                        assert(keys@.map_values(|s: String| s@) =~= fs.push(g@));
                        assert forall|j: int| 0 <= j < vals@.len() implies (#[trigger] vals@[j])@ == last_with(gi, ci, keys@[j]@) by {
                            if j < old_vals.len() {
                                assert(keys@[j] == old_keys[j]);
                                assert(old_keys[j]@ != g@);
                                assert(vals@[j] == old_vals[j]);
                            }
                        }
                        assert forall|a: int, b: int| 0 <= a < b < keys@.len() implies #[trigger] keys@[a]@ != #[trigger] keys@[b]@ by {
                            if b == old_keys.len() {
                                assert(keys@[a] == old_keys[a]);
                            } else {
                                assert(keys@[a] == old_keys[a] && keys@[b] == old_keys[b]);
                            }
                        }
                    }
                    i += 1;
                }
                assert(gs.take(i as int) =~= gs);
                assert(cs.take(i as int) =~= cs);
                assert(vals@.map_values(|b: Vec<u64>| b@) =~= first_seen(gs).map_values(|g: Seq<char>| last_with(gs, cs, g))) by {
                    assert forall|j: int| 0 <= j < vals@.len() implies vals@[j]@ == last_with(gs, cs, first_seen(gs)[j]) by {
                        assert(keys@.map_values(|s: String| s@)[j] == keys@[j]@);
                    }
                }
                vals
            },
        }
    }

    /// Caches a proposal once the storage backend has taken it: `stored` is
    /// the backend's answer to the write (made with the caller's
    /// credentials, under [`proposal_key`] in the proposal's namespace). A
    /// failed write is returned as it came and nothing is cached; a proposal
    /// that was stored is cached.
    pub fn save_proposal_with_auth(&mut self, proposal: FederatedProposal, stored: Result<(), String>) -> (r: Result<
        (),
        String,
    >)
        requires
            old(self).wf(),
        ensures
            final(self).wf(),
            r == stored,
            r is Err ==> *final(self) == *old(self),
            r is Ok ==> final(self).proposals() == old(self).proposals().insert(
                proposal.proposal_id@,
                proposal_view(proposal),
            ),
            final(self).votes() == old(self).votes(),
    {
        if stored.is_err() {
            return stored;
        }
        self.save_proposal(proposal);
        stored
    }

    /// The proposal with id `proposal_id`: the cached one, else `stored`,
    /// what the storage backend holds under [`proposal_key`] for it.
    pub fn get_proposal_or_stored(&self, proposal_id: &str, stored: Option<FederatedProposal>) -> (r: Option<
        FederatedProposal,
    >)
        requires
            self.wf(),
        ensures
            self.proposals().dom().contains(proposal_id@) ==> (r matches Some(p) && proposal_view(p)
                == self.proposals()[proposal_id@]),
            !self.proposals().dom().contains(proposal_id@) ==> r == stored,
    {
        match self.get_proposal(proposal_id) {
            Some(p) => Some(p),
            None => stored,
        }
    }

    /// The cached proposal with id `proposal_id`; none when it is not
    /// cached, and the caller reads it from storage.
    pub fn get_proposal(&self, proposal_id: &str) -> (r: Option<FederatedProposal>)
        requires
            self.wf(),
        ensures
            match r {
                Some(p) => self.proposals().dom().contains(proposal_id@) && proposal_view(p) == self.proposals()[proposal_id@],
                None => !self.proposals().dom().contains(proposal_id@),
            },
    {
        match self.find_proposal(proposal_id) {
            Some(i) => {
                proof {
                    self.lemma_proposal_at(i as int);
                }
                Some(copy_proposal(&self.cache.proposals[i]))
            },
            None => None,
        }
    }

    /// The cached votes on the proposal with id `proposal_id`; none when
    /// they are not cached, and the caller reads them from storage.
    pub fn get_votes(&self, proposal_id: &str) -> (r: Option<Vec<FederatedVote>>)
        requires
            self.wf(),
        ensures
            match r {
                Some(v) => self.votes().dom().contains(proposal_id@)
                    && v@.map_values(|x: FederatedVote| vote_view(x)) == self.votes()[proposal_id@],
                None => !self.votes().dom().contains(proposal_id@),
            },
    {
        match self.find_votes(proposal_id) {
            Some(i) => {
                proof {
                    self.lemma_votes_at(i as int);
                }
                Some(copy_votes(&self.cache.votes[i].1))
            },
            None => None,
        }
    }
}

/// A proposal read back after it was saved is the one saved.
pub proof fn lemma_read_after_save(
    before: Map<Seq<char>, (Seq<char>, Seq<char>, Seq<Seq<char>>, Seq<char>, i64)>,
    p: FederatedProposal,
)
    ensures
        before.insert(p.proposal_id@, proposal_view(p)).dom().contains(p.proposal_id@),
        before.insert(p.proposal_id@, proposal_view(p))[p.proposal_id@] == proposal_view(p),
{
}

/// The votes read back after a vote was saved are the earlier votes on its
/// proposal followed by that vote.
pub proof fn lemma_votes_after_save(before: FederationStorage, after: FederationStorage, v: FederatedVote)
    requires
        after.votes() == before.votes().insert(v.proposal_id@, before.votes_on(v.proposal_id@).push(vote_view(v))),
    ensures
        after.votes().dom().contains(v.proposal_id@),
        after.votes()[v.proposal_id@].last() == vote_view(v),
        after.votes()[v.proposal_id@].drop_last() == before.votes_on(v.proposal_id@),
{
    assert(before.votes_on(v.proposal_id@).push(vote_view(v)).drop_last() =~= before.votes_on(v.proposal_id@));
}

/// No voter occurs twice among `votes`.
pub open spec fn one_vote_each(votes: Seq<(Seq<char>, Seq<char>, Seq<u64>, Seq<char>)>) -> bool {
    forall|a: int, b: int| 0 <= a < b < votes.len() ==> #[trigger] votes[a].1 != #[trigger] votes[b].1
}

/// Saving a vote keeps every voter to one vote on each proposal: a vote by
/// someone who has not voted is added, and a second vote is refused.
pub proof fn lemma_one_vote_per_voter(before: FederationStorage, after: FederationStorage, v: FederatedVote, ok: bool)
    requires
        one_vote_each(before.votes_on(v.proposal_id@)),
        ok <==> !has_voted(before.votes_on(v.proposal_id@), v.voter@),
        ok ==> after.votes() == before.votes().insert(
            v.proposal_id@,
            before.votes_on(v.proposal_id@).push(vote_view(v)),
        ),
        !ok ==> after == before,
    ensures
        one_vote_each(after.votes_on(v.proposal_id@)),
{
    if ok {
        let s = before.votes_on(v.proposal_id@);
        let s2 = s.push(vote_view(v));
        assert(after.votes_on(v.proposal_id@) == s2);
        assert forall|a: int, b: int| 0 <= a < b < s2.len() implies #[trigger] s2[a].1 != #[trigger] s2[b].1 by {
            if b == s.len() {
                assert(s2[a] == s[a]);
                assert(!(s[a].1 == v.voter@));
            } else {
                assert(s2[a] == s[a] && s2[b] == s[b]);
            }
        }
    }
}

} // verus!
