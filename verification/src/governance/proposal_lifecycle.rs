use vstd::prelude::*;
use crate::identity::Identity;
use crate::text::{lowercase, split_count, split_on, starts_with, str_eq, str_starts_with, to_lowercase};
use crate::time::{now_millis, CLOCK_SPAN};

verus! {

/// The outcome of running a proposal's logic.
pub enum ProposalExecutionResult {
    Success { log: Vec<String> },
    Failure { reason: String },
}

/// The stages of a proposal's life.
#[derive(Debug, Clone, Copy, PartialEq, Eq, Structural)]
pub enum ProposalState {
    Draft,
    OpenForFeedback,
    Voting,
    Executed,
    Rejected,
    Expired,
}

/// How the execution of a proposal's logic ended.
#[derive(Debug, Clone, PartialEq, Eq)]
pub enum ExecutionStatus {
    Success,
    Failure(String),
}

/// A voter's choice.
#[derive(Debug, Clone, Copy, PartialEq, Eq, Structural)]
pub enum VoteChoice {
    Yes,
    No,
    Abstain,
}

/// The error of reading a vote choice from text.
#[derive(Debug, Clone, Copy, PartialEq, Eq, Structural)]
pub struct ParseVoteChoiceError;

impl ParseVoteChoiceError {
    /// The text of the error, as its `Display` writes it.
    pub fn to_string(&self) -> (s: String)
        ensures
            s@ == "Invalid vote choice. Must be 'yes', 'no', or 'abstain'."@,
    {
        String::from_str("Invalid vote choice. Must be 'yes', 'no', or 'abstain'.")
    }
}

/// The choice a lowercase word names: "yes", "no" or "abstain".
pub open spec fn vote_choice_named(lower: Seq<char>) -> Option<VoteChoice> {
    if lower == "yes"@ {
        Some(VoteChoice::Yes)
    } else if lower == "no"@ {
        Some(VoteChoice::No)
    } else if lower == "abstain"@ {
        Some(VoteChoice::Abstain)
    } else {
        None
    }
}

/// The choice a word names, whatever its case.
pub open spec fn vote_choice_of(s: Seq<char>) -> Option<VoteChoice> {
    vote_choice_named(lowercase(s))
}

impl VoteChoice {
    /// Reads a choice from a word, whatever its case.
    pub fn from_str(s: &str) -> (r: Result<VoteChoice, ParseVoteChoiceError>)
        ensures
            match vote_choice_of(s@) {
                Some(c) => r == Ok::<VoteChoice, ParseVoteChoiceError>(c),
                None => r == Err::<VoteChoice, ParseVoteChoiceError>(ParseVoteChoiceError),
            },
    {
        let lower = to_lowercase(s);
        Self::from_lowercase(lower.as_str())
    }

    /// Reads a choice from a word already in lowercase.
    pub fn from_lowercase(lower: &str) -> (r: Result<VoteChoice, ParseVoteChoiceError>)
        ensures
            match vote_choice_named(lower@) {
                Some(c) => r == Ok::<VoteChoice, ParseVoteChoiceError>(c),
                None => r == Err::<VoteChoice, ParseVoteChoiceError>(ParseVoteChoiceError),
            },
    {
        if str_eq(lower, "yes") {
            Ok(VoteChoice::Yes)
        } else if str_eq(lower, "no") {
            Ok(VoteChoice::No)
        } else if str_eq(lower, "abstain") {
            Ok(VoteChoice::Abstain)
        } else {
            Err(ParseVoteChoiceError)
        }
    }
}

impl std::str::FromStr for VoteChoice {
    type Err = ParseVoteChoiceError;

    fn from_str(s: &str) -> (r: Result<Self, Self::Err>)
        ensures
            match vote_choice_of(s@) {
                Some(c) => r == Ok::<VoteChoice, ParseVoteChoiceError>(c),
                None => r == Err::<VoteChoice, ParseVoteChoiceError>(ParseVoteChoiceError),
            },
    {
        VoteChoice::from_str(s)
    }
}

/// What is known of the latest execution of a proposal; times are in
/// milliseconds since the Unix epoch.
#[derive(Debug, Clone)]
pub struct ExecutionMetadata {
    pub version: u64,
    pub executed_at: i64,
    pub success: bool,
    pub summary: String,
    pub retry_count: u64,
    pub last_retry_at: Option<i64>,
}

/// How many times a failed execution may be retried.
pub const MAX_RETRIES: u64 = 3;

/// How long to wait between retries: thirty minutes, in milliseconds.
pub const COOLDOWN_DURATION: i64 = 1800000;

/// The votes cast on a proposal, by choice.
#[derive(Debug, Clone, Copy, PartialEq, Eq, Structural)]
pub struct VoteTally {
    pub yes: u64,
    pub no: u64,
    pub abstain: u64,
}

/// A proposal and its life: its stage, voting rules, versions, every change
/// of stage with its time (milliseconds since the Unix epoch), and how its
/// execution went. Durations are in milliseconds.
#[derive(Debug, Clone)]
pub struct ProposalLifecycle {
    pub id: String,
    pub creator: Identity,
    pub created_at: i64,
    pub state: ProposalState,
    pub title: String,
    pub quorum: u64,
    pub threshold: u64,
    pub expires_at: Option<i64>,
    pub discussion_duration: Option<i64>,
    pub required_participants: Option<u64>,
    pub current_version: u64,
    pub history: Vec<(i64, ProposalState)>,
    pub execution_status: Option<ExecutionStatus>,
    pub execution_metadata: Option<ExecutionMetadata>,
}

/// A comment on a proposal; its time is in milliseconds since the Unix
/// epoch.
#[derive(Debug, Clone)]
pub struct Comment {
    pub id: String,
    pub proposal_id: String,
    pub author: Identity,
    pub timestamp: i64,
    pub content: String,
    pub reply_to: Option<String>,
}

/// The moves of the lifecycle: a draft opens for feedback, feedback gives
/// way to voting, and voting ends in execution, rejection or expiry.
pub open spec fn allowed_step(from: ProposalState, to: ProposalState) -> bool {
    ||| from == ProposalState::Draft && to == ProposalState::OpenForFeedback
    ||| from == ProposalState::OpenForFeedback && to == ProposalState::Voting
    ||| from == ProposalState::Voting && (to == ProposalState::Executed || to
        == ProposalState::Rejected || to == ProposalState::Expired)
}

/// The stages after which nothing moves.
pub open spec fn is_final(s: ProposalState) -> bool {
    s == ProposalState::Executed || s == ProposalState::Rejected || s == ProposalState::Expired
}

/// The key prefix under which a proposal's votes are stored:
/// `proposals/<id>/votes/`.
pub open spec fn votes_prefix(id: Seq<char>) -> Seq<char> {
    "proposals/"@ + id + "/votes/"@
}

/// The choice a stored vote counts for: none unless its key lies directly
/// under the prefix (it begins with it and has four `/`-separated pieces)
/// and its text names a choice.
pub open spec fn counted_choice(prefix: Seq<char>, key: Seq<char>, value: Seq<char>) -> Option<VoteChoice> {
    if starts_with(key, prefix) && split_on(key, '/').len() == 4 {
        vote_choice_of(value)
    } else {
        None
    }
}

/// The tally of stored votes: how many count for each choice.
pub open spec fn tally_of(prefix: Seq<char>, entries: Seq<(String, String)>) -> (nat, nat, nat)
    decreases entries.len(),
{
    if entries.len() == 0 {
        (0, 0, 0)
    } else {
        let (y, n, a) = tally_of(prefix, entries.drop_last());
        let e = entries.last();
        match counted_choice(prefix, e.0@, e.1@) {
            Some(VoteChoice::Yes) => (y + 1, n, a),
            Some(VoteChoice::No) => (y, n + 1, a),
            Some(VoteChoice::Abstain) => (y, n, a + 1),
            None => (y, n, a),
        }
    }
}

proof fn lemma_tally_bounds(prefix: Seq<char>, entries: Seq<(String, String)>)
    ensures
        tally_of(prefix, entries).0 + tally_of(prefix, entries).1 + tally_of(prefix, entries).2
            <= entries.len(),
    decreases entries.len(),
{
    if entries.len() > 0 {
        lemma_tally_bounds(prefix, entries.drop_last());
    }
}

impl ProposalLifecycle {
    /// The last entry of the history records the current stage.
    pub open spec fn wf(&self) -> bool {
        self.history@.len() > 0 && self.history@.last().1 == self.state
    }

    /// The fields that no change of stage touches are the same.
    pub open spec fn same_record(&self, other: &Self) -> bool {
        &&& other.id == self.id
        &&& other.creator == self.creator
        &&& other.created_at == self.created_at
        &&& other.title == self.title
        &&& other.quorum == self.quorum
        &&& other.threshold == self.threshold
        &&& other.discussion_duration == self.discussion_duration
        &&& other.required_participants == self.required_participants
    }

    /// `next` is this proposal moved to stage `to` at time `at`: the stage
    /// changes, the history gains `(at, to)`, and nothing else changes.
    pub open spec fn stepped(&self, next: &Self, to: ProposalState, at: i64) -> bool {
        &&& self.same_record(next)
        &&& next.state == to
        &&& next.history@ == self.history@.push((at, to))
        &&& next.expires_at == self.expires_at
        &&& next.current_version == self.current_version
        &&& next.execution_status == self.execution_status
        &&& next.execution_metadata == self.execution_metadata
    }

    /// `next` is this proposal moved to stage `to` at some time.
    pub open spec fn stepped_some_time(&self, next: &Self, to: ProposalState) -> bool {
        exists|at: i64| self.stepped(next, to, at)
    }

    /// Whether a tally passes: the yes and no votes together reach the
    /// quorum, and the yes votes reach the threshold.
    pub open spec fn passes(&self, votes: VoteTally) -> bool {
        votes.yes + votes.no >= self.quorum && votes.yes >= self.threshold
    }

    /// Whether voting has run past its expiry at time `now`.
    pub open spec fn expired_at(&self, now: i64) -> bool {
        self.expires_at matches Some(e) && now > e
    }

    /// `next` is what an expiry check at time `now` makes of this proposal:
    /// a proposal under vote whose voting has run past its expiry moves to
    /// the expired stage at `now`; any other proposal stays as it is.
    pub open spec fn expiry_check(&self, next: &Self, now: i64) -> bool {
        if self.state == ProposalState::Voting && self.expired_at(now) {
            self.stepped(next, ProposalState::Expired, now)
        } else {
            *next == *self
        }
    }

    /// `next` is what an expiry check makes of this proposal at some reading
    /// of the clock.
    pub open spec fn expiry_check_some_time(&self, next: &Self) -> bool {
        exists|now: i64| -CLOCK_SPAN < now < CLOCK_SPAN && #[trigger] self.expiry_check(next, now)
    }

    /// A new draft proposal, created at `now`, in version 1, whose history
    /// holds the draft stage.
    pub fn new_at(
        id: String,
        creator: Identity,
        title: String,
        quorum: u64,
        threshold: u64,
        discussion_duration: Option<i64>,
        required_participants: Option<u64>,
        now: i64,
    ) -> (p: Self)
        ensures
            p.wf(),
            p.id == id,
            p.creator == creator,
            p.created_at == now,
            p.state == ProposalState::Draft,
            p.title == title,
            p.quorum == quorum,
            p.threshold == threshold,
            p.expires_at is None,
            p.discussion_duration == discussion_duration,
            p.required_participants == required_participants,
            p.current_version == 1,
            p.history@ == seq![(now, ProposalState::Draft)],
            p.execution_status is None,
            p.execution_metadata is None,
    {
        let mut history: Vec<(i64, ProposalState)> = Vec::new();
        history.push((now, ProposalState::Draft));
        ProposalLifecycle {
            id,
            creator,
            created_at: now,
            state: ProposalState::Draft,
            title,
            quorum,
            threshold,
            expires_at: None,
            discussion_duration,
            required_participants,
            current_version: 1,
            history,
            execution_status: None,
            execution_metadata: None,
        }
    }

    /// A new draft proposal, created now.
    pub fn new(
        id: String,
        creator: Identity,
        title: String,
        quorum: u64,
        threshold: u64,
        discussion_duration: Option<i64>,
        required_participants: Option<u64>,
    ) -> (p: Self)
        ensures
            p.wf(),
            p.id == id,
            p.creator == creator,
            p.state == ProposalState::Draft,
            p.title == title,
            p.quorum == quorum,
            p.threshold == threshold,
            p.expires_at is None,
            p.discussion_duration == discussion_duration,
            p.required_participants == required_participants,
            p.current_version == 1,
            p.history@ == seq![(p.created_at, ProposalState::Draft)],
            p.execution_status is None,
            p.execution_metadata is None,
    {
        let now = now_millis();
        Self::new_at(id, creator, title, quorum, threshold, discussion_duration, required_participants, now)
    }

    /// A draft opens for feedback at `now`; any other stage stays as it is.
    pub fn open_for_feedback_at(&mut self, now: i64)
        ensures
            old(self).wf() ==> final(self).wf(),
            old(self).state == ProposalState::Draft ==> old(self).stepped(&*final(self), ProposalState::OpenForFeedback, now),
            old(self).state != ProposalState::Draft ==> *final(self) == *old(self),
    {
        if self.state == ProposalState::Draft {
            self.state = ProposalState::OpenForFeedback;
            self.history.push((now, ProposalState::OpenForFeedback));
        }
    }

    /// A draft opens for feedback now.
    pub fn open_for_feedback(&mut self)
        ensures
            old(self).wf() ==> final(self).wf(),
            old(self).state == ProposalState::Draft ==> old(self).stepped_some_time(&*final(self), ProposalState::OpenForFeedback),
            old(self).state != ProposalState::Draft ==> *final(self) == *old(self),
    {
        let now = now_millis();
        self.open_for_feedback_at(now);
    }

    /// Voting starts at `now` on a proposal open for feedback, and ends
    /// `voting_duration` later; any other stage stays as it is.
    pub fn start_voting_at(&mut self, now: i64, voting_duration: i64)
        requires
            old(self).state == ProposalState::OpenForFeedback ==> i64::MIN <= now + voting_duration <= i64::MAX,
        ensures
            old(self).wf() ==> final(self).wf(),
            old(self).state == ProposalState::OpenForFeedback ==> {
                &&& old(self).stepped(&ProposalLifecycle { expires_at: old(self).expires_at, ..*final(self) }, ProposalState::Voting, now)
                &&& final(self).expires_at == Some((now + voting_duration) as i64)
            },
            old(self).state != ProposalState::OpenForFeedback ==> *final(self) == *old(self),
    {
        if self.state == ProposalState::OpenForFeedback {
            self.state = ProposalState::Voting;
            self.expires_at = Some(now + voting_duration);
            self.history.push((now, ProposalState::Voting));
        }
    }

    /// Voting starts now and ends `voting_duration` later. The duration is
    /// bounded so that the end fits the clock's range.
    pub fn start_voting(&mut self, voting_duration: i64)
        requires
            CLOCK_SPAN - i64::MAX <= voting_duration <= i64::MAX - CLOCK_SPAN,
        ensures
            old(self).wf() ==> final(self).wf(),
            old(self).state == ProposalState::OpenForFeedback ==> {
                &&& old(self).stepped_some_time(&ProposalLifecycle { expires_at: old(self).expires_at, ..*final(self) }, ProposalState::Voting)
                &&& final(self).expires_at == Some((final(self).history@.last().0 + voting_duration) as i64)
            },
            old(self).state != ProposalState::OpenForFeedback ==> *final(self) == *old(self),
    {
        let now = now_millis();
        self.start_voting_at(now, voting_duration);
    }

    /// A proposal under vote is executed at `now`; any other stage stays.
    pub fn execute_at(&mut self, now: i64)
        ensures
            old(self).wf() ==> final(self).wf(),
            old(self).state == ProposalState::Voting ==> old(self).stepped(&*final(self), ProposalState::Executed, now),
            old(self).state != ProposalState::Voting ==> *final(self) == *old(self),
    {
        if self.state == ProposalState::Voting {
            self.state = ProposalState::Executed;
            self.history.push((now, ProposalState::Executed));
        }
    }

    /// A proposal under vote is executed now.
    pub fn execute(&mut self)
        ensures
            old(self).wf() ==> final(self).wf(),
            old(self).state == ProposalState::Voting ==> old(self).stepped_some_time(&*final(self), ProposalState::Executed),
            old(self).state != ProposalState::Voting ==> *final(self) == *old(self),
    {
        let now = now_millis();
        self.execute_at(now);
    }

    /// A proposal under vote is rejected at `now`; any other stage stays.
    pub fn reject_at(&mut self, now: i64)
        ensures
            old(self).wf() ==> final(self).wf(),
            old(self).state == ProposalState::Voting ==> old(self).stepped(&*final(self), ProposalState::Rejected, now),
            old(self).state != ProposalState::Voting ==> *final(self) == *old(self),
    {
        if self.state == ProposalState::Voting {
            self.state = ProposalState::Rejected;
            self.history.push((now, ProposalState::Rejected));
        }
    }

    /// A proposal under vote is rejected now.
    pub fn reject(&mut self)
        ensures
            old(self).wf() ==> final(self).wf(),
            old(self).state == ProposalState::Voting ==> old(self).stepped_some_time(&*final(self), ProposalState::Rejected),
            old(self).state != ProposalState::Voting ==> *final(self) == *old(self),
    {
        let now = now_millis();
        self.reject_at(now);
    }

    /// A proposal under vote whose voting ended before `now` expires at
    /// `now`; any other proposal stays as it is.
    pub fn expire_at(&mut self, now: i64)
        ensures
            old(self).wf() ==> final(self).wf(),
            old(self).state == ProposalState::Voting && old(self).expired_at(now) ==> old(self).stepped(
                &*final(self),
                ProposalState::Expired,
                now,
            ),
            !(old(self).state == ProposalState::Voting && old(self).expired_at(now)) ==> *final(self) == *old(self),
    {
        let expired = match self.expires_at {
            Some(exp) => now > exp,
            None => false,
        };
        if self.state == ProposalState::Voting && expired {
            self.state = ProposalState::Expired;
            self.history.push((now, ProposalState::Expired));
        }
    }

    /// A proposal under vote whose voting has ended expires now.
    pub fn expire(&mut self)
        ensures
            old(self).wf() ==> final(self).wf(),
            old(self).expiry_check_some_time(&*final(self)),
    {
        let now = now_millis();
        self.expire_at(now);
        assert(old(self).expiry_check(&*self, now));
    }

    /// A new version of the proposal at `now`: the version number grows by
    /// one and the history records the current stage again.
    pub fn update_version_at(&mut self, now: i64)
        requires
            old(self).current_version < u64::MAX,
        ensures
            old(self).wf() ==> final(self).wf(),
            old(self).same_record(&*final(self)),
            final(self).state == old(self).state,
            final(self).current_version == old(self).current_version + 1,
            final(self).history@ == old(self).history@.push((now, old(self).state)),
            final(self).expires_at == old(self).expires_at,
            final(self).execution_status == old(self).execution_status,
            final(self).execution_metadata == old(self).execution_metadata,
    {
        self.current_version = self.current_version + 1;
        self.history.push((now, self.state));
    }

    /// A new version of the proposal, now.
    pub fn update_version(&mut self)
        requires
            old(self).current_version < u64::MAX,
        ensures
            old(self).wf() ==> final(self).wf(),
            old(self).same_record(&*final(self)),
            final(self).state == old(self).state,
            final(self).current_version == old(self).current_version + 1,
            final(self).history@.drop_last() == old(self).history@,
            final(self).history@.last().1 == old(self).state,
            final(self).expires_at == old(self).expires_at,
            final(self).execution_status == old(self).execution_status,
            final(self).execution_metadata == old(self).execution_metadata,
    {
        let now = now_millis();
        self.update_version_at(now);
        assert(final(self).history@.drop_last() =~= old(self).history@);
    }

    /// Tallies the stored votes of a proposal under vote, given as the
    /// (key, text) pairs read from its votes' key prefix: a vote counts when
    /// its key lies directly under `proposals/<id>/votes/` and its text
    /// names a choice; others are skipped. A proposal not under vote gives
    /// "Proposal <id> is not in Voting state".
    pub fn tally_votes(&self, entries: &Vec<(String, String)>) -> (r: Result<VoteTally, String>)
        ensures
            self.state != ProposalState::Voting ==> (r matches Err(m)
                && m@ == "Proposal "@ + self.id@ + " is not in Voting state"@),
            self.state == ProposalState::Voting ==> (r matches Ok(t) && {
                let (y, n, a) = tally_of(votes_prefix(self.id@), entries@);
                t.yes == y && t.no == n && t.abstain == a
            }),
    {
        if self.state != ProposalState::Voting {
            let mut m = String::from_str("Proposal ");
            m.append(self.id.as_str());
            m.append(" is not in Voting state");
            return Err(m);
        }
        let mut prefix = String::from_str("proposals/");
        prefix.append(self.id.as_str());
        prefix.append("/votes/");
        let mut yes: u64 = 0;
        let mut no: u64 = 0;
        let mut abstain: u64 = 0;
        let mut i: usize = 0;
        while i < entries.len()
            invariant
                i <= entries@.len(),
                prefix@ == votes_prefix(self.id@),
                tally_of(prefix@, entries@.take(i as int)) == (yes as nat, no as nat, abstain as nat),
            decreases entries@.len() - i,
        {
            proof {
                assert(entries@.take(i + 1).drop_last() =~= entries@.take(i as int));
                lemma_tally_bounds(prefix@, entries@.take(i as int));
            }
            let key = entries[i].0.as_str();
            if str_starts_with(key, prefix.as_str()) && split_count(key, '/') == 4 {
                match VoteChoice::from_str(entries[i].1.as_str()) {
                    Ok(VoteChoice::Yes) => yes = yes + 1,
                    Ok(VoteChoice::No) => no = no + 1,
                    Ok(VoteChoice::Abstain) => abstain = abstain + 1,
                    Err(_) => {},
                }
            }
            i += 1;
        }
        assert(entries@.take(i as int) =~= entries@);
        Ok(VoteTally { yes, no, abstain })
    }

    /// Whether a tally passes: the yes and no votes together reach the
    /// quorum, and the yes votes reach the threshold.
    pub fn check_passed(&self, votes: &VoteTally) -> (b: bool)
        requires
            votes.yes + votes.no <= u64::MAX,
        ensures
            b == self.passes(*votes),
    {
        let total_votes = votes.yes + votes.no;
        if total_votes < self.quorum {
            return false;
        }
        if votes.yes < self.threshold {
            return false;
        }
        true
    }

    /// Records how an execution went, at `now`: the status is success or a
    /// failure with `summary`, and the metadata holds the version that the
    /// result was stored under, the summary, and the retry information (no
    /// retry count means none). Gives back the version.
    pub fn update_execution_status_at(
        &mut self,
        version: u64,
        success: bool,
        summary: &str,
        retry_count: Option<u64>,
        last_retry_at: Option<i64>,
        now: i64,
    ) -> (v: u64)
        ensures
            v == version,
            success ==> final(self).execution_status == Some(ExecutionStatus::Success),
            !success ==> (final(self).execution_status matches Some(ExecutionStatus::Failure(m)) && m@ == summary@),
            final(self).execution_metadata matches Some(md) && {
                &&& md.version == version
                &&& md.executed_at == now
                &&& md.success == success
                &&& md.summary@ == summary@
                &&& md.retry_count == match retry_count { Some(c) => c, None => 0 }
                &&& md.last_retry_at == last_retry_at
            },
            old(self).same_record(&*final(self)),
            final(self).state == old(self).state,
            final(self).history == old(self).history,
            final(self).expires_at == old(self).expires_at,
            final(self).current_version == old(self).current_version,
    {
        self.execution_status = if success {
            Some(ExecutionStatus::Success)
        } else {
            Some(ExecutionStatus::Failure(String::from_str(summary)))
        };
        let retries = match retry_count {
            Some(c) => c,
            None => 0,
        };
        self.execution_metadata = Some(ExecutionMetadata {
            version,
            executed_at: now,
            success,
            summary: String::from_str(summary),
            retry_count: retries,
            last_retry_at,
        });
        version
    }

    /// A proposal under vote whose tally passes is executed at `now`, and
    /// `true` comes back; otherwise nothing changes and `false` comes back.
    /// (Running the proposal's logic follows, with [`Self::settle_execution`].)
    pub fn transition_to_executed_at(&mut self, votes: &VoteTally, now: i64) -> (moved: bool)
        requires
            votes.yes + votes.no <= u64::MAX,
        ensures
            old(self).wf() ==> final(self).wf(),
            moved == (old(self).state == ProposalState::Voting && old(self).passes(*votes)),
            moved ==> old(self).stepped(&*final(self), ProposalState::Executed, now),
            !moved ==> *final(self) == *old(self),
    {
        if self.state == ProposalState::Voting {
            if self.check_passed(votes) {
                self.state = ProposalState::Executed;
                self.history.push((now, ProposalState::Executed));
                return true;
            }
        }
        false
    }

    /// [`Self::transition_to_executed_at`], now.
    pub fn transition_to_executed(&mut self, votes: &VoteTally) -> (moved: bool)
        requires
            votes.yes + votes.no <= u64::MAX,
        ensures
            old(self).wf() ==> final(self).wf(),
            moved == (old(self).state == ProposalState::Voting && old(self).passes(*votes)),
            moved ==> old(self).stepped_some_time(&*final(self), ProposalState::Executed),
            !moved ==> *final(self) == *old(self),
    {
        let now = now_millis();
        self.transition_to_executed_at(votes, now)
    }

    /// Records the outcome of running an executed proposal's logic: its
    /// status, or a failure with the error's text.
    pub fn settle_execution(&mut self, outcome: Result<ExecutionStatus, String>)
        ensures
            match outcome {
                Ok(s) => final(self).execution_status == Some(s),
                Err(e) => final(self).execution_status == Some(ExecutionStatus::Failure(e)),
            },
            old(self).same_record(&*final(self)),
            final(self).state == old(self).state,
            final(self).history == old(self).history,
            final(self).expires_at == old(self).expires_at,
            final(self).current_version == old(self).current_version,
            final(self).execution_metadata == old(self).execution_metadata,
    {
        self.execution_status = match outcome {
            Ok(s) => Some(s),
            Err(e) => Some(ExecutionStatus::Failure(e)),
        };
    }

    /// A proposal under vote whose tally does not pass is rejected at `now`,
    /// and `true` comes back; otherwise nothing changes and `false` comes
    /// back.
    pub fn transition_to_rejected_at(&mut self, votes: &VoteTally, now: i64) -> (moved: bool)
        requires
            votes.yes + votes.no <= u64::MAX,
        ensures
            old(self).wf() ==> final(self).wf(),
            moved == (old(self).state == ProposalState::Voting && !old(self).passes(*votes)),
            moved ==> old(self).stepped(&*final(self), ProposalState::Rejected, now),
            !moved ==> *final(self) == *old(self),
    {
        if self.state == ProposalState::Voting {
            if !self.check_passed(votes) {
                self.state = ProposalState::Rejected;
                self.history.push((now, ProposalState::Rejected));
                return true;
            }
        }
        false
    }

    /// [`Self::transition_to_rejected_at`], now.
    pub fn transition_to_rejected(&mut self, votes: &VoteTally) -> (moved: bool)
        requires
            votes.yes + votes.no <= u64::MAX,
        ensures
            old(self).wf() ==> final(self).wf(),
            moved == (old(self).state == ProposalState::Voting && !old(self).passes(*votes)),
            moved ==> old(self).stepped_some_time(&*final(self), ProposalState::Rejected),
            !moved ==> *final(self) == *old(self),
    {
        let now = now_millis();
        self.transition_to_rejected_at(votes, now)
    }

    /// A proposal under vote whose voting ended before `now` expires at
    /// `now`, whatever its tally, and `true` comes back; otherwise nothing
    /// changes and `false` comes back.
    pub fn transition_to_expired_at(&mut self, now: i64) -> (moved: bool)
        ensures
            old(self).wf() ==> final(self).wf(),
            moved == (old(self).state == ProposalState::Voting && old(self).expired_at(now)),
            moved ==> old(self).stepped(&*final(self), ProposalState::Expired, now),
            !moved ==> *final(self) == *old(self),
    {
        let expired = match self.expires_at {
            Some(exp) => now > exp,
            None => false,
        };
        if self.state == ProposalState::Voting && expired {
            self.state = ProposalState::Expired;
            self.history.push((now, ProposalState::Expired));
            true
        } else {
            false
        }
    }

    /// [`Self::transition_to_expired_at`], now.
    pub fn transition_to_expired(&mut self) -> (moved: bool)
        ensures
            old(self).wf() ==> final(self).wf(),
            exists|now: i64|
                -CLOCK_SPAN < now < CLOCK_SPAN && #[trigger] old(self).expiry_check(&*final(self), now) && moved
                    == (old(self).state == ProposalState::Voting && old(self).expired_at(now)),
    {
        let now = now_millis();
        let moved = self.transition_to_expired_at(now);
        assert(old(self).expiry_check(&*self, now));
        moved
    }

    /// Starts a retry of a failed execution at `now`: only an executed
    /// proposal whose execution failed may be retried. The retry is recorded
    /// in the history; the errors are "Cannot retry execution: Proposal <id>
    /// is not in Executed state", ".. already executed successfully" and
    /// ".. has no execution status".
    pub fn begin_retry_at(&mut self, now: i64) -> (r: Result<(), String>)
        ensures
            old(self).state != ProposalState::Executed ==> (r matches Err(m) && m@
                == "Cannot retry execution: Proposal "@ + old(self).id@ + " is not in Executed state"@),
            old(self).state == ProposalState::Executed && old(self).execution_status == Some(
                ExecutionStatus::Success,
            ) ==> (r matches Err(m) && m@ == "Cannot retry execution: Proposal "@ + old(self).id@
                + " already executed successfully"@),
            old(self).state == ProposalState::Executed && old(self).execution_status is None ==> (r matches Err(
                m,
            ) && m@ == "Cannot retry execution: Proposal "@ + old(self).id@ + " has no execution status"@),
            r is Err ==> *final(self) == *old(self),
            r is Ok <==> (old(self).state == ProposalState::Executed && old(self).execution_status matches Some(
                ExecutionStatus::Failure(_),
            )),
            r is Ok ==> {
                &&& old(self).same_record(&*final(self))
                &&& final(self).state == old(self).state
                &&& final(self).history@ == old(self).history@.push((now, old(self).state))
                &&& final(self).expires_at == old(self).expires_at
                &&& final(self).current_version == old(self).current_version
                &&& final(self).execution_status == old(self).execution_status
                &&& final(self).execution_metadata == old(self).execution_metadata
            },
            old(self).wf() ==> final(self).wf(),
    {
        if self.state != ProposalState::Executed {
            let mut m = String::from_str("Cannot retry execution: Proposal ");
            m.append(self.id.as_str());
            m.append(" is not in Executed state");
            return Err(m);
        }
        match &self.execution_status {
            Some(ExecutionStatus::Failure(_)) => {},
            Some(ExecutionStatus::Success) => {
                let mut m = String::from_str("Cannot retry execution: Proposal ");
                m.append(self.id.as_str());
                m.append(" already executed successfully");
                return Err(m);
            },
            None => {
                let mut m = String::from_str("Cannot retry execution: Proposal ");
                m.append(self.id.as_str());
                m.append(" has no execution status");
                return Err(m);
            },
        }
        self.history.push((now, self.state));
        Ok(())
    }

    /// [`Self::begin_retry_at`], now.
    pub fn begin_retry(&mut self) -> (r: Result<(), String>)
        ensures
            r is Ok <==> (old(self).state == ProposalState::Executed && old(self).execution_status matches Some(
                ExecutionStatus::Failure(_),
            )),
            r is Err ==> *final(self) == *old(self),
            r is Ok ==> final(self).history@.drop_last() == old(self).history@
                && final(self).history@.last().1 == old(self).state,
            old(self).wf() ==> final(self).wf(),
    {
        let now = now_millis();
        let r = self.begin_retry_at(now);
        assert(r is Ok ==> final(self).history@.drop_last() =~= old(self).history@);
        r
    }

    /// Records the status a successful retry ended with.
    pub fn finish_retry(&mut self, status: ExecutionStatus)
        ensures
            final(self).execution_status == Some(status),
            old(self).same_record(&*final(self)),
            final(self).state == old(self).state,
            final(self).history == old(self).history,
            final(self).expires_at == old(self).expires_at,
            final(self).current_version == old(self).current_version,
            final(self).execution_metadata == old(self).execution_metadata,
    {
        self.execution_status = Some(status);
    }
}

/// Nothing moves a proposal out of a final stage: no move of the lifecycle
/// starts there.
pub proof fn lemma_final_stages_stay(s: ProposalState, t: ProposalState)
    requires
        is_final(s),
    ensures
        !allowed_step(s, t),
{
}

/// Every change of stage that the transitions make is a move of the
/// lifecycle, and it keeps the history's last entry on the current stage.
pub proof fn lemma_step_keeps_record(p: ProposalLifecycle, q: ProposalLifecycle, to: ProposalState, at: i64)
    requires
        p.wf(),
        p.stepped(&q, to, at),
        allowed_step(p.state, to),
    ensures
        q.wf(),
        q.history@.len() == p.history@.len() + 1,
        q.history@.last() == (at, to),
{
}

/// Abstentions count toward neither the quorum nor the threshold: two
/// tallies with the same yes and no votes pass or fail together.
pub proof fn lemma_abstentions_do_not_count(p: ProposalLifecycle, a: VoteTally, b: VoteTally)
    requires
        a.yes == b.yes,
        a.no == b.no,
    ensures
        p.passes(a) == p.passes(b),
{
}

/// More votes never undo a pass: a tally with at least as many yes votes
/// and at least as many no votes as a passing one passes too.
pub proof fn lemma_more_votes_keep_a_pass(p: ProposalLifecycle, a: VoteTally, b: VoteTally)
    requires
        p.passes(a),
        b.yes >= a.yes,
        b.no >= a.no,
    ensures
        p.passes(b),
{
}

/// A tally passes exactly when its yes and no votes together reach the
/// quorum and its yes votes reach the threshold: fewer yes votes than the
/// threshold never pass, however many votes were cast, and too few votes
/// in all never pass, however many say yes.
pub proof fn lemma_passing_needs_quorum_and_threshold(p: ProposalLifecycle, votes: VoteTally)
    ensures
        p.passes(votes) ==> votes.yes >= p.threshold,
        p.passes(votes) ==> votes.yes + votes.no >= p.quorum,
        votes.yes < p.threshold ==> !p.passes(votes),
        votes.yes + votes.no < p.quorum ==> !p.passes(votes),
        votes.yes + votes.no >= p.quorum && votes.yes >= p.threshold ==> p.passes(votes),
{
}

/// One more stored vote adds one to the count its text names, when its key
/// lies directly under the prefix, and changes no other count; a vote whose
/// text names no choice, or whose key lies elsewhere, changes nothing.
pub proof fn lemma_tally_counts_each_vote_once(prefix: Seq<char>, entries: Seq<(String, String)>, e: (String, String))
    ensures
        ({
            let (y, n, a) = tally_of(prefix, entries);
            let (y2, n2, a2) = tally_of(prefix, entries.push(e));
            let direct = starts_with(e.0@, prefix) && split_on(e.0@, '/').len() == 4;
            &&& direct && lowercase(e.1@) == "yes"@ ==> y2 == y + 1 && n2 == n && a2 == a
            &&& direct && lowercase(e.1@) == "no"@ ==> y2 == y && n2 == n + 1 && a2 == a
            &&& direct && lowercase(e.1@) == "abstain"@ ==> y2 == y && n2 == n && a2 == a + 1
            &&& !direct ==> y2 == y && n2 == n && a2 == a
            &&& !(lowercase(e.1@) == "yes"@ || lowercase(e.1@) == "no"@ || lowercase(e.1@) == "abstain"@) ==> y2
                == y && n2 == n && a2 == a
        }),
{
    reveal_strlit("yes");
    reveal_strlit("no");
    reveal_strlit("abstain");
    assert(entries.push(e).drop_last() =~= entries);
    assert(entries.push(e).last() == e);
    assert("yes"@.len() != "no"@.len());
    assert("no"@.len() != "abstain"@.len());
    assert("yes"@.len() != "abstain"@.len());
}

/// A word names a vote choice only as `yes`, `no` or `abstain` in some
/// case, and names the choice of that word: `no` never counts as abstain.
pub proof fn lemma_choice_words(s: Seq<char>)
    ensures
        lowercase(s) == "yes"@ ==> vote_choice_of(s) == Some(VoteChoice::Yes),
        lowercase(s) == "no"@ ==> vote_choice_of(s) == Some(VoteChoice::No),
        lowercase(s) == "abstain"@ ==> vote_choice_of(s) == Some(VoteChoice::Abstain),
        !(lowercase(s) == "yes"@ || lowercase(s) == "no"@ || lowercase(s) == "abstain"@) ==> vote_choice_of(s) is None,
{
    reveal_strlit("yes");
    reveal_strlit("no");
    reveal_strlit("abstain");
    assert("yes"@.len() != "no"@.len());
    assert("no"@.len() != "abstain"@.len());
    assert("yes"@.len() != "abstain"@.len());
}

} // verus!
