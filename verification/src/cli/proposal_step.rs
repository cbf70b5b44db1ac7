//! The decisions of the proposal commands: who may move a proposal to which
//! status and when, who may edit it, and what a vote records. The commands
//! load and store proposals; each decision here takes what was loaded and
//! gives back what to store, or the refusal to show.

use vstd::prelude::*;
use crate::cli::proposal::LocalProposalStatus;
use crate::governance::proposal_lifecycle::{vote_choice_of, ProposalLifecycle, ProposalState, VoteChoice};
use crate::numeric::{signed_decimal, signed_text};
use crate::text::{lowercase, str_eq, to_lowercase};

verus! {

/// The shortest deliberation, in hours, when a proposal names none.
pub const MIN_DELIBERATION_HOURS: i64 = 24;

/// A governance proposal as the proposal commands keep it; times are in
/// milliseconds since the Unix epoch.
#[derive(Debug, Clone)]
pub struct ProposalRecord {
    pub id: String,
    pub creator: String,
    pub status: LocalProposalStatus,
    pub created_at: i64,
    pub expires_at: Option<i64>,
    pub logic_path: Option<String>,
    pub discussion_path: Option<String>,
    pub votes_path: Option<String>,
    pub attachments: Vec<String>,
    pub execution_result: Option<String>,
    pub deliberation_started_at: Option<i64>,
    pub min_deliberation_hours: Option<i64>,
}

/// What a transition asks of the command: store the moved proposal, or run
/// the proposal's logic (at the given storage path) and then record its
/// outcome with [`ProposalRecord::mark_executed`].
pub enum Transition {
    Save(ProposalRecord),
    RunLogic(ProposalRecord, String),
}

/// The name a status is shown by (its `Debug` form).
pub open spec fn status_text(s: LocalProposalStatus) -> Seq<char> {
    match s {
        LocalProposalStatus::Draft => "Draft"@,
        LocalProposalStatus::Deliberation => "Deliberation"@,
        LocalProposalStatus::Active => "Active"@,
        LocalProposalStatus::Voting => "Voting"@,
        LocalProposalStatus::Executed => "Executed"@,
        LocalProposalStatus::Rejected => "Rejected"@,
        LocalProposalStatus::Expired => "Expired"@,
    }
}

fn status_string(s: LocalProposalStatus) -> (r: String)
    ensures
        r@ == status_text(s),
{
    match s {
        LocalProposalStatus::Draft => String::from_str("Draft"),
        LocalProposalStatus::Deliberation => String::from_str("Deliberation"),
        LocalProposalStatus::Active => String::from_str("Active"),
        LocalProposalStatus::Voting => String::from_str("Voting"),
        LocalProposalStatus::Executed => String::from_str("Executed"),
        LocalProposalStatus::Rejected => String::from_str("Rejected"),
        LocalProposalStatus::Expired => String::from_str("Expired"),
    }
}

/// Whole hours in a span of milliseconds, rounded toward zero (chrono's
/// `num_hours`).
pub open spec fn whole_hours(d: int) -> int {
    if d >= 0 {
        d / 3600000
    } else {
        -((-d) / 3600000)
    }
}

fn hours_between(from: i64, to: i64) -> (r: i64)
    ensures
        r == whole_hours(to - from),
{
    let d: i128 = to as i128 - from as i128;
    if d >= 0 {
        (d / 3600000) as i64
    } else {
        let h: i128 = (-d) / 3600000;
        (-h) as i64
    }
}

/// `next` is `p` moved to status `s` at `now`: deliberation records when it
/// started, execution records its result `result`; nothing else changes.
pub open spec fn marked(p: ProposalRecord, next: ProposalRecord, s: LocalProposalStatus, result: Seq<char>, now: i64) -> bool {
    &&& next.id == p.id
    &&& next.creator == p.creator
    &&& next.status == s
    &&& next.created_at == p.created_at
    &&& next.expires_at == p.expires_at
    &&& next.logic_path == p.logic_path
    &&& next.discussion_path == p.discussion_path
    &&& next.votes_path == p.votes_path
    &&& next.attachments == p.attachments
    &&& next.min_deliberation_hours == p.min_deliberation_hours
    &&& next.deliberation_started_at == if s == LocalProposalStatus::Deliberation {
        Some(now)
    } else {
        p.deliberation_started_at
    }
    &&& if s == LocalProposalStatus::Executed {
        next.execution_result matches Some(t) && t@ == result
    } else {
        next.execution_result == p.execution_result
    }
}

/// What a transition request comes to.
pub enum TransitionModel {
    Refused(Seq<char>),
    Mark(LocalProposalStatus, Seq<char>),
    RunLogic(Seq<char>),
}

/// The transition of proposal `p` to the status named `status` (`name` is
/// that name in lowercase), asked by `user` at `now`. Only the creator or a
/// governance admin may transition. Without `force`, deliberation starts
/// from a draft, voting from an active proposal, execution and rejection
/// from voting; a proposal becomes active from a draft, or from
/// deliberation once its minimum deliberation (24 hours unless it names
/// one) has passed; any proposal may expire. Execution records the given
/// result, else runs the proposal's logic, else records that there is none.
pub open spec fn transition_spec(
    p: ProposalRecord,
    proposal_id: Seq<char>,
    user: Seq<char>,
    is_admin: bool,
    status: Seq<char>,
    name: Seq<char>,
    result: Option<Seq<char>>,
    force: bool,
    now: i64,
) -> TransitionModel {
    let cur = status_text(p.status);
    if p.creator@ != user && !is_admin {
        TransitionModel::Refused(
            "User "@ + user + " does not have permission to transition proposal "@ + proposal_id,
        )
    } else if name == "deliberation"@ {
        if p.status != LocalProposalStatus::Draft && !force {
            TransitionModel::Refused(
                "Cannot transition proposal from "@ + cur + " to Deliberation without --force flag"@,
            )
        } else {
            TransitionModel::Mark(LocalProposalStatus::Deliberation, seq![])
        }
    } else if name == "active"@ {
        if p.status == LocalProposalStatus::Deliberation {
            match p.deliberation_started_at {
                None => TransitionModel::Refused("Missing deliberation start timestamp"@),
                Some(started) => {
                    let elapsed = whole_hours(now - started);
                    let min = match p.min_deliberation_hours {
                        Some(h) => h as int,
                        None => MIN_DELIBERATION_HOURS as int,
                    };
                    if elapsed < min && !force {
                        TransitionModel::Refused(
                            "Deliberation phase must last at least "@ + signed_text(min) + " hours (elapsed: "@
                                + signed_text(elapsed) + "). Use --force to override."@,
                        )
                    } else {
                        TransitionModel::Mark(LocalProposalStatus::Active, seq![])
                    }
                },
            }
        } else if p.status != LocalProposalStatus::Draft && !force {
            TransitionModel::Refused(
                "Cannot transition proposal from "@ + cur + " to Active without --force flag"@,
            )
        } else {
            TransitionModel::Mark(LocalProposalStatus::Active, seq![])
        }
    } else if name == "voting"@ {
        if p.status != LocalProposalStatus::Active && !force {
            TransitionModel::Refused("Cannot transition proposal from "@ + cur + " to Voting without --force flag"@)
        } else {
            TransitionModel::Mark(LocalProposalStatus::Voting, seq![])
        }
    } else if name == "executed"@ {
        if p.status != LocalProposalStatus::Voting && !force {
            TransitionModel::Refused(
                "Cannot execute proposal from "@ + cur
                    + " state. Must be in Voting state or use --force flag."@,
            )
        } else {
            match result {
                Some(r) => TransitionModel::Mark(LocalProposalStatus::Executed, r),
                None => match p.logic_path {
                    Some(path) => TransitionModel::RunLogic(path@),
                    None => TransitionModel::Mark(
                        LocalProposalStatus::Executed,
                        "No logic path defined for proposal."@,
                    ),
                },
            }
        }
    } else if name == "rejected"@ {
        if p.status != LocalProposalStatus::Voting && !force {
            TransitionModel::Refused(
                "Cannot reject proposal from "@ + cur + " state. Must be in Voting state or use --force flag."@,
            )
        } else {
            TransitionModel::Mark(LocalProposalStatus::Rejected, seq![])
        }
    } else if name == "expired"@ {
        TransitionModel::Mark(LocalProposalStatus::Expired, seq![])
    } else {
        TransitionModel::Refused("Invalid status: "@ + status)
    }
}

/// How a transition's outcome stands to what [`transition_spec`] says.
pub open spec fn transition_result(
    p: ProposalRecord,
    r: Result<Transition, String>,
    m: TransitionModel,
    now: i64,
) -> bool {
    match m {
        TransitionModel::Refused(t) => r matches Err(e) && e@ == t,
        TransitionModel::Mark(s, res) => r matches Ok(Transition::Save(q)) && marked(p, q, s, res, now),
        TransitionModel::RunLogic(path) => r matches Ok(Transition::RunLogic(q, lp)) && q == p && lp@ == path,
    }
}

fn concat3(a: &str, b: &str, c: &str) -> (r: String)
    ensures
        r@ == a@ + b@ + c@,
{
    let mut s = String::from_str(a);
    s.append(b);
    s.append(c);
    s
}

impl ProposalRecord {
    /// The proposal moved to status `s` at `now` ([`marked`], with no result).
    fn mark(self, s: LocalProposalStatus, now: i64) -> (q: ProposalRecord)
        requires
            s != LocalProposalStatus::Executed,
        ensures
            marked(self, q, s, seq![], now),
    {
        let mut q = self;
        q.status = s;
        if s == LocalProposalStatus::Deliberation {
            q.deliberation_started_at = Some(now);
        }
        q
    }

    /// The proposal executed, with `result` as the outcome of its execution.
    pub fn mark_executed(self, result: String) -> (q: ProposalRecord)
        ensures
            marked(self, q, LocalProposalStatus::Executed, result@, 0),
    {
        let mut q = self;
        q.status = LocalProposalStatus::Executed;
        q.execution_result = Some(result);
        q
    }
}

/// Decides a `proposal transition` request ([`transition_spec`]): the
/// refusal, the proposal to store, or the logic to run.
pub fn transition_step(
    p: ProposalRecord,
    proposal_id: &str,
    user: &str,
    is_admin: bool,
    status: &str,
    result: Option<String>,
    force: bool,
    now: i64,
) -> (r: Result<Transition, String>)
    ensures
        transition_result(
            p,
            r,
            transition_spec(
                p,
                proposal_id@,
                user@,
                is_admin,
                status@,
                lowercase(status@),
                match result {
                    Some(t) => Some(t@),
                    None => None,
                },
                force,
                now,
            ),
            now,
        ),
{
    proof {
        reveal_strlit("deliberation");
        reveal_strlit("active");
        reveal_strlit("voting");
        reveal_strlit("executed");
        reveal_strlit("rejected");
        reveal_strlit("expired");
    }
    let ghost p0 = p;
    if !str_eq(p.creator.as_str(), user) && !is_admin {
        let mut m = String::from_str("User ");
        m.append(user);
        m.append(" does not have permission to transition proposal ");
        m.append(proposal_id);
        return Err(m);
    }
    let lower = to_lowercase(status);
    let l = lower.as_str();
    let cur = status_string(p.status);
    if str_eq(l, "deliberation") {
        if p.status != LocalProposalStatus::Draft && !force {
            return Err(concat3("Cannot transition proposal from ", cur.as_str(), " to Deliberation without --force flag"));
        }
        return Ok(Transition::Save(p.mark(LocalProposalStatus::Deliberation, now)));
    }
    if str_eq(l, "active") {
        if p.status == LocalProposalStatus::Deliberation {
            match p.deliberation_started_at {
                None => {
                    return Err(String::from_str("Missing deliberation start timestamp"));
                },
                Some(started) => {
                    let elapsed = hours_between(started, now);
                    let min: i64 = match p.min_deliberation_hours {
                        Some(h) => h,
                        None => MIN_DELIBERATION_HOURS,
                    };
                    if elapsed < min && !force {
                        let mut m = String::from_str("Deliberation phase must last at least ");
                        let ms = signed_decimal(min);
                        m.append(ms.as_str());
                        m.append(" hours (elapsed: ");
                        let es = signed_decimal(elapsed);
                        m.append(es.as_str());
                        m.append("). Use --force to override.");
                        return Err(m);
                    }
                },
            }
        } else if p.status != LocalProposalStatus::Draft && !force {
            return Err(concat3("Cannot transition proposal from ", cur.as_str(), " to Active without --force flag"));
        }
        return Ok(Transition::Save(p.mark(LocalProposalStatus::Active, now)));
    }
    if str_eq(l, "voting") {
        if p.status != LocalProposalStatus::Active && !force {
            return Err(concat3("Cannot transition proposal from ", cur.as_str(), " to Voting without --force flag"));
        }
        return Ok(Transition::Save(p.mark(LocalProposalStatus::Voting, now)));
    }
    if str_eq(l, "executed") {
        if p.status != LocalProposalStatus::Voting && !force {
            return Err(
                concat3(
                    "Cannot execute proposal from ",
                    cur.as_str(),
                    " state. Must be in Voting state or use --force flag.",
                ),
            );
        }
        match result {
            Some(res) => {
                return Ok(Transition::Save(p.mark_executed(res)));
            },
            None => {
                let path = match &p.logic_path {
                    Some(lp) => Some(lp.clone()),
                    None => None,
                };
                match path {
                    Some(lp) => {
                        return Ok(Transition::RunLogic(p, lp));
                    },
                    None => {
                        return Ok(
                            Transition::Save(p.mark_executed(String::from_str("No logic path defined for proposal."))),
                        );
                    },
                }
            },
        }
    }
    if str_eq(l, "rejected") {
        if p.status != LocalProposalStatus::Voting && !force {
            return Err(
                concat3(
                    "Cannot reject proposal from ",
                    cur.as_str(),
                    " state. Must be in Voting state or use --force flag.",
                ),
            );
        }
        return Ok(Transition::Save(p.mark(LocalProposalStatus::Rejected, now)));
    }
    if str_eq(l, "expired") {
        return Ok(Transition::Save(p.mark(LocalProposalStatus::Expired, now)));
    }
    let mut m = String::from_str("Invalid status: ");
    m.append(status);
    Err(m)
}

/// The name a lifecycle stage is shown by (its `Debug` form).
pub open spec fn state_text(s: ProposalState) -> Seq<char> {
    match s {
        ProposalState::Draft => "Draft"@,
        ProposalState::OpenForFeedback => "OpenForFeedback"@,
        ProposalState::Voting => "Voting"@,
        ProposalState::Executed => "Executed"@,
        ProposalState::Rejected => "Rejected"@,
        ProposalState::Expired => "Expired"@,
    }
}

fn state_string(s: ProposalState) -> (r: String)
    ensures
        r@ == state_text(s),
{
    match s {
        ProposalState::Draft => String::from_str("Draft"),
        ProposalState::OpenForFeedback => String::from_str("OpenForFeedback"),
        ProposalState::Voting => String::from_str("Voting"),
        ProposalState::Executed => String::from_str("Executed"),
        ProposalState::Rejected => String::from_str("Rejected"),
        ProposalState::Expired => String::from_str("Expired"),
    }
}

/// Whether `user` may edit proposal `p` now: only a draft or a proposal
/// open for feedback can be edited, and only by its creator.
pub open spec fn edit_refusal(p: ProposalLifecycle, proposal_id: Seq<char>, user: Seq<char>) -> Option<Seq<char>> {
    if !(p.state == ProposalState::Draft || p.state == ProposalState::OpenForFeedback) {
        Some("Proposal "@ + proposal_id + " cannot be edited in its current state: "@ + state_text(p.state))
    } else if p.creator.did@ != user {
        Some("User "@ + user + " does not have permission to edit proposal "@ + proposal_id)
    } else {
        None
    }
}

/// Decides whether `user` may edit proposal `p` ([`edit_refusal`]).
pub fn check_edit(p: &ProposalLifecycle, proposal_id: &str, user: &str) -> (r: Result<(), String>)
    ensures
        match edit_refusal(*p, proposal_id@, user@) {
            Some(m) => r matches Err(e) && e@ == m,
            None => r is Ok,
        },
{
    if !(p.state == ProposalState::Draft || p.state == ProposalState::OpenForFeedback) {
        let st = state_string(p.state);
        let mut m = String::from_str("Proposal ");
        m.append(proposal_id);
        m.append(" cannot be edited in its current state: ");
        m.append(st.as_str());
        return Err(m);
    }
    if !str_eq(p.creator.did.as_str(), user) {
        let mut m = String::from_str("User ");
        m.append(user);
        m.append(" does not have permission to edit proposal ");
        m.append(proposal_id);
        return Err(m);
    }
    Ok(())
}

/// Records an edit of a proposal at `now`: a new version, with the current
/// stage entered in the history for the new version and again for the
/// edit.
pub fn record_edit(p: &mut ProposalLifecycle, now: i64)
    requires
        old(p).current_version < u64::MAX,
    ensures
        old(p).wf() ==> final(p).wf(),
        old(p).same_record(&*final(p)),
        final(p).state == old(p).state,
        final(p).current_version == old(p).current_version + 1,
        final(p).history@ == old(p).history@.push((now, old(p).state)).push((now, old(p).state)),
        final(p).expires_at == old(p).expires_at,
        final(p).execution_status == old(p).execution_status,
        final(p).execution_metadata == old(p).execution_metadata,
{
    p.update_version_at(now);
    p.history.push((now, p.state));
}

/// The storage key of a part of a proposal that an edit replaces:
/// `governance/proposals/<id>/attachments/<part>` (`body` or `logic`).
pub fn edited_part_key(proposal_id: &str, part: &str) -> (r: String)
    ensures
        r@ == "governance/proposals/"@ + proposal_id@ + "/attachments/"@ + part@,
{
    let mut r = String::from_str("governance/proposals/");
    r.append(proposal_id);
    r.append("/attachments/");
    r.append(part);
    r
}

/// A vote as the vote command stores it (with the time the command adds).
pub struct VoteRecord {
    /// Who the vote counts for: the delegate when one is named, else the voter.
    pub voter: String,
    /// `yes`, `no` or `abstain`.
    pub vote: String,
    pub delegated_by: Option<String>,
    /// `governance_proposals/<id>/votes/<voter>`.
    pub key: String,
}

/// The text a vote choice is stored as.
pub open spec fn choice_text(c: VoteChoice) -> Seq<char> {
    match c {
        VoteChoice::Yes => "yes"@,
        VoteChoice::No => "no"@,
        VoteChoice::Abstain => "abstain"@,
    }
}

/// Why a vote on proposal `l` at `now` is refused, if it is: its minimum
/// deliberation since creation has not passed, or the choice is not yes, no
/// or abstain (in any case).
pub open spec fn vote_refusal(l: ProposalLifecycle, proposal_id: Seq<char>, choice: Seq<char>, now: i64) -> Option<
    Seq<char>,
> {
    match l.discussion_duration {
        Some(d) if now - l.created_at < d => Some(
            "\u{23f3} Proposal '"@ + proposal_id + "' is still in deliberation.\n   Required: "@ + signed_text(
                whole_hours(d as int),
            ) + " hours\n   Elapsed: "@ + signed_text(whole_hours(now - l.created_at)) + " hours"@,
        ),
        _ => if vote_choice_of(choice) is None {
            Some("Invalid vote choice: '"@ + choice + "'. Must be yes, no, or abstain"@)
        } else {
            None
        },
    }
}

/// Decides a vote on proposal `l` by `voter` at `now`, cast for `delegate`
/// when one is named ([`vote_refusal`]); the record to store otherwise.
pub fn vote_decision(
    l: &ProposalLifecycle,
    proposal_id: &str,
    choice: &str,
    voter: &str,
    delegate: Option<&str>,
    now: i64,
) -> (r: Result<VoteRecord, String>)
    ensures
        match vote_refusal(*l, proposal_id@, choice@, now) {
            Some(m) => r matches Err(e) && e@ == m,
            None => r matches Ok(v) && {
                &&& vote_choice_of(choice@) matches Some(c) && v.vote@ == choice_text(c)
                &&& v.voter@ == match delegate {
                    Some(d) => d@,
                    None => voter@,
                }
                &&& v.delegated_by matches Some(d) ==> delegate matches Some(e) && d@ == e@
                &&& v.delegated_by is None <==> delegate is None
                &&& v.key@ == "governance_proposals/"@ + proposal_id@ + "/votes/"@ + voter@
            },
        },
{
    match l.discussion_duration {
        Some(d) => {
            let elapsed: i128 = now as i128 - l.created_at as i128;
            if elapsed < d as i128 {
                let req = hours_between(0, d);
                let el = hours_between(l.created_at, now);
                let mut m = String::from_str("\u{23f3} Proposal '");
                m.append(proposal_id);
                m.append("' is still in deliberation.\n   Required: ");
                let rs = signed_decimal(req);
                m.append(rs.as_str());
                m.append(" hours\n   Elapsed: ");
                let es = signed_decimal(el);
                m.append(es.as_str());
                m.append(" hours");
                return Err(m);
            }
        },
        None => {},
    }
    let c = match VoteChoice::from_str(choice) {
        Ok(c) => c,
        Err(_) => {
            let mut m = String::from_str("Invalid vote choice: '");
            m.append(choice);
            m.append("'. Must be yes, no, or abstain");
            return Err(m);
        },
    };
    let vote = match c {
        VoteChoice::Yes => String::from_str("yes"),
        VoteChoice::No => String::from_str("no"),
        VoteChoice::Abstain => String::from_str("abstain"),
    };
    let who = match delegate {
        Some(d) => String::from_str(d),
        None => String::from_str(voter),
    };
    let by = match delegate {
        Some(d) => Some(String::from_str(d)),
        None => None,
    };
    let mut key = String::from_str("governance_proposals/");
    key.append(proposal_id);
    key.append("/votes/");
    key.append(voter);
    Ok(VoteRecord { voter: who, vote, delegated_by: by, key })
}

/// The title of a new proposal: the one given, else `Proposal <id>`.
pub fn creation_title(proposal_id: &str, title: Option<String>) -> (r: String)
    ensures
        r@ == match title {
            Some(t) => t@,
            None => "Proposal "@ + proposal_id@,
        },
{
    match title {
        Some(t) => t,
        None => {
            let mut r = String::from_str("Proposal ");
            r.append(proposal_id);
            r
        },
    }
}

/// The keys, in the `governance` namespace, a new proposal writes, in
/// order: its lifecycle, then its logic, its description and its required
/// roles where it has them.
pub open spec fn creation_keys_spec(id: Seq<char>, logic: bool, description: bool, roles: bool) -> Seq<Seq<char>> {
    seq!["proposals/"@ + id + "/lifecycle"@] + (if logic {
        seq!["proposals/"@ + id + "/attachments/logic"@]
    } else {
        seq![]
    }) + (if description {
        seq!["proposals/"@ + id + "/attachments/description"@]
    } else {
        seq![]
    }) + (if roles {
        seq!["proposals/"@ + id + "/required_roles"@]
    } else {
        seq![]
    })
}

/// The keys a new proposal writes ([`creation_keys_spec`]).
pub fn creation_keys(proposal_id: &str, logic: bool, description: bool, roles: bool) -> (r: Vec<String>)
    ensures
        r@.map_values(|s: String| s@) == creation_keys_spec(proposal_id@, logic, description, roles),
{
    let mut r: Vec<String> = Vec::new();
    r.push(concat3("proposals/", proposal_id, "/lifecycle"));
    if logic {
        r.push(concat3("proposals/", proposal_id, "/attachments/logic"));
    }
    if description {
        r.push(concat3("proposals/", proposal_id, "/attachments/description"));
    }
    if roles {
        r.push(concat3("proposals/", proposal_id, "/required_roles"));
    }
    assert(r@.map_values(|s: String| s@) =~= creation_keys_spec(proposal_id@, logic, description, roles));
    r
}

/// A minimum deliberation of `hours` hours in milliseconds, as chrono's
/// `Duration::hours` holds it; none where that duration cannot be made.
pub fn deliberation_millis(hours: i64) -> (r: Option<i64>)
    ensures
        r == (if i64::MIN <= hours * 3600000 <= i64::MAX {
            Some((hours * 3600000) as i64)
        } else {
            None
        }),
{
    hours.checked_mul(3600000)
}

/// The rules of a transition, for every proposal and request: without the
/// creator's or an admin's asking, nothing moves; with it, a proposal moves
/// to deliberation from a draft, to voting from active, to rejection from
/// voting, and is executed from voting (recording the given result, or
/// running its logic, or recording that it has none); to active from a
/// draft; out of any other stage only with `force` (but for deliberation
/// toward active, which waits for its minimum hours); and it may always
/// expire. Any other status name is refused.
pub proof fn lemma_transition_rules(
    p: ProposalRecord,
    proposal_id: Seq<char>,
    user: Seq<char>,
    is_admin: bool,
    status: Seq<char>,
    name: Seq<char>,
    result: Option<Seq<char>>,
    force: bool,
    now: i64,
)
    ensures
        ({
            let m = transition_spec(p, proposal_id, user, is_admin, status, name, result, force, now);
            let allowed = p.creator@ == user || is_admin;
            &&& !allowed ==> m is Refused
            &&& allowed && name == "deliberation"@ ==> (p.status == LocalProposalStatus::Draft || force ==> m
                == TransitionModel::Mark(LocalProposalStatus::Deliberation, seq![]))
            &&& allowed && name == "deliberation"@ ==> (p.status != LocalProposalStatus::Draft && !force ==> m is Refused)
            &&& allowed && name == "voting"@ ==> (p.status == LocalProposalStatus::Active || force ==> m
                == TransitionModel::Mark(LocalProposalStatus::Voting, seq![]))
            &&& allowed && name == "voting"@ ==> (p.status != LocalProposalStatus::Active && !force ==> m is Refused)
            &&& allowed && name == "rejected"@ ==> (p.status == LocalProposalStatus::Voting || force ==> m
                == TransitionModel::Mark(LocalProposalStatus::Rejected, seq![]))
            &&& allowed && name == "rejected"@ ==> (p.status != LocalProposalStatus::Voting && !force ==> m is Refused)
            &&& allowed && name == "executed"@ ==> (p.status != LocalProposalStatus::Voting && !force ==> m is Refused)
            &&& allowed && name == "executed"@ && (p.status == LocalProposalStatus::Voting || force) ==> (result
                matches Some(r) ==> m == TransitionModel::Mark(LocalProposalStatus::Executed, r))
            &&& allowed && name == "executed"@ && (p.status == LocalProposalStatus::Voting || force) && result is None
                ==> (p.logic_path matches Some(lp) ==> m == TransitionModel::RunLogic(lp@))
            &&& allowed && name == "executed"@ && (p.status == LocalProposalStatus::Voting || force) && result is None
                && p.logic_path is None ==> (m matches TransitionModel::Mark(LocalProposalStatus::Executed, _))
            &&& allowed && name == "active"@ && p.status == LocalProposalStatus::Draft ==> m
                == TransitionModel::Mark(LocalProposalStatus::Active, seq![])
            &&& allowed && name == "active"@ && p.status != LocalProposalStatus::Draft && p.status
                != LocalProposalStatus::Deliberation ==> (force ==> m == TransitionModel::Mark(
                LocalProposalStatus::Active,
                seq![],
            )) && (!force ==> m is Refused)
            &&& allowed && name == "active"@ && p.status == LocalProposalStatus::Deliberation ==> (
            p.deliberation_started_at matches Some(s) && (force || whole_hours(now - s) >= match p.min_deliberation_hours {
                Some(h) => h as int,
                None => 24,
            }) <==> m == TransitionModel::Mark(LocalProposalStatus::Active, seq![]))
            &&& allowed && name == "expired"@ ==> m == TransitionModel::Mark(LocalProposalStatus::Expired, seq![])
            &&& allowed && name != "deliberation"@ && name != "active"@ && name != "voting"@ && name != "executed"@
                && name != "rejected"@ && name != "expired"@ ==> m is Refused
        }),
{
    reveal_strlit("deliberation");
    reveal_strlit("active");
    reveal_strlit("voting");
    reveal_strlit("executed");
    reveal_strlit("rejected");
    reveal_strlit("expired");
    assert("deliberation"@.len() != "active"@.len());
    assert("deliberation"@.len() != "voting"@.len());
    assert("deliberation"@.len() != "executed"@.len());
    assert("deliberation"@.len() != "rejected"@.len());
    assert("deliberation"@.len() != "expired"@.len());
    assert("active"@[0] != "voting"@[0]);
    assert("active"@.len() != "executed"@.len());
    assert("active"@.len() != "rejected"@.len());
    assert("active"@.len() != "expired"@.len());
    assert("voting"@.len() != "executed"@.len());
    assert("voting"@.len() != "rejected"@.len());
    assert("voting"@.len() != "expired"@.len());
    assert("executed"@[1] != "rejected"@[1]);
    assert("executed"@[1] != "expired"@[1] || "executed"@.len() != "expired"@.len());
    assert("rejected"@.len() != "expired"@.len());
}

} // verus!
