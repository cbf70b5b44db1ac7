use vstd::prelude::*;
use crate::time::now_millis;

verus! {

/// `uuid::Uuid`, carried through as it is.
#[verifier::external_type_specification]
#[verifier::external_body]
pub struct ExUuid(uuid::Uuid);

/// `Clone` for `Uuid`, which the uuid crate derives together with `Copy`:
/// the clone is the same identifier.
pub assume_specification[ <uuid::Uuid as Clone>::clone ](u: &uuid::Uuid) -> (r: uuid::Uuid)
    ensures
        r == *u,
;

/// `Uuid::new_v4()`: a random identifier, of which nothing is known.
#[verifier::external_body]
fn new_uuid() -> (u: uuid::Uuid)
{
    uuid::Uuid::new_v4()
}

/// A lowercase hexadecimal digit.
pub open spec fn is_lower_hex(c: char) -> bool {
    ('0' <= c && c <= '9') || ('a' <= c && c <= 'f')
}

/// The hyphenated text form of a version-4 UUID: 36 characters, hyphens at
/// positions 8, 13, 18 and 23, lowercase hexadecimal digits elsewhere, and
/// the version digit `4` at position 14.
pub open spec fn is_v4_uuid_text(s: Seq<char>) -> bool {
    &&& s.len() == 36
    &&& forall|i: int|
        0 <= i < 36 ==> if i == 8 || i == 13 || i == 18 || i == 23 {
            #[trigger] s[i] == '-'
        } else {
            is_lower_hex(s[i])
        }
    &&& s[14] == '4'
}

/// `Uuid::new_v4().to_string()`: a random identifier. Its `Display` is the
/// hyphenated lowercase form (`a1a2a3a4-b1b2-c1c2-d1d2-d3d4d5d6d7d8`), and
/// `new_v4` sets the version digit to 4; the other digits are random, and
/// nothing is claimed of them.
#[verifier::external_body]
pub(crate) fn new_uuid_string() -> (s: String)
    ensures
        is_v4_uuid_text(s@),
{
    uuid::Uuid::new_v4().to_string()
}

/// The status of a proposal.
#[derive(Debug, Clone, PartialEq, Eq, Structural)]
pub enum ProposalStatus {
    Draft,
    Open,
    Reviewing,
    Accepted,
    Rejected,
    Implemented,
}

impl Default for ProposalStatus {
    fn default() -> (s: Self)
        ensures
            s == ProposalStatus::Draft,
    {
        ProposalStatus::Draft
    }
}

/// The kind of a vote.
#[derive(Debug, Clone, Copy, PartialEq, Eq, Structural)]
pub enum VoteType {
    Up,
    Down,
    Neutral,
}

/// A vote; its time is in milliseconds since the Unix epoch.
#[derive(Debug, Clone)]
pub struct Vote {
    pub user_id: uuid::Uuid,
    pub vote_type: VoteType,
    pub created_at: i64,
}

/// A proposal; its times are in milliseconds since the Unix epoch.
#[derive(Debug, Clone)]
pub struct Proposal {
    pub id: uuid::Uuid,
    pub title: String,
    pub description: String,
    pub status: ProposalStatus,
    pub author_id: uuid::Uuid,
    pub created_at: i64,
    pub updated_at: i64,
    pub votes: Vec<Vote>,
    pub tags: Vec<String>,
}

/// What one vote adds to a proposal's count.
pub open spec fn vote_weight(v: VoteType) -> int {
    match v {
        VoteType::Up => 1,
        VoteType::Down => -1,
        VoteType::Neutral => 0,
    }
}

/// The net count of votes: up votes less down votes.
pub open spec fn vote_sum(votes: Seq<Vote>) -> int
    decreases votes.len(),
{
    if votes.len() == 0 {
        0
    } else {
        vote_sum(votes.drop_last()) + vote_weight(votes.last().vote_type)
    }
}

pub proof fn lemma_vote_sum_bounds(votes: Seq<Vote>)
    ensures
        -votes.len() <= vote_sum(votes) <= votes.len(),
    decreases votes.len(),
{
    if votes.len() > 0 {
        lemma_vote_sum_bounds(votes.drop_last());
    }
}

impl Proposal {
    /// A new draft proposal with a fresh id, created and updated now, with
    /// no votes.
    pub fn new(title: String, description: String, author_id: uuid::Uuid, tags: Vec<String>) -> (p: Self)
        ensures
            p.title == title,
            p.description == description,
            p.status == ProposalStatus::Draft,
            p.author_id == author_id,
            p.created_at == p.updated_at,
            p.votes@ == Seq::<Vote>::empty(),
            p.tags == tags,
    {
        let now = now_millis();
        Proposal {
            id: new_uuid(),
            title,
            description,
            status: ProposalStatus::default(),
            author_id,
            created_at: now,
            updated_at: now,
            votes: Vec::new(),
            tags,
        }
    }

    /// The net count of votes: up votes count one, down votes minus one.
    pub fn vote_count(&self) -> (n: i32)
        requires
            self.votes@.len() <= i32::MAX,
        ensures
            n == vote_sum(self.votes@),
    {
        let mut acc: i32 = 0;
        let mut i: usize = 0;
        while i < self.votes.len()
            invariant
                i <= self.votes@.len() <= i32::MAX,
                acc == vote_sum(self.votes@.take(i as int)),
            decreases self.votes@.len() - i,
        {
            proof {
                assert(self.votes@.take(i + 1).drop_last() =~= self.votes@.take(i as int));
                lemma_vote_sum_bounds(self.votes@.take(i as int));
            }
            acc = acc + match self.votes[i].vote_type {
                VoteType::Up => 1,
                VoteType::Down => -1,
                VoteType::Neutral => 0,
            };
            i += 1;
        }
        assert(self.votes@.take(i as int) =~= self.votes@);
        acc
    }
}

/// A comment on a proposal; its times are in milliseconds since the Unix
/// epoch.
#[derive(Debug, Clone)]
pub struct Comment {
    pub id: uuid::Uuid,
    pub proposal_id: uuid::Uuid,
    pub author_id: uuid::Uuid,
    pub content: String,
    pub created_at: i64,
    pub updated_at: i64,
}

impl Comment {
    /// A new comment with a fresh id, created and updated now.
    pub fn new(proposal_id: uuid::Uuid, author_id: uuid::Uuid, content: String) -> (c: Self)
        ensures
            c.proposal_id == proposal_id,
            c.author_id == author_id,
            c.content == content,
            c.created_at == c.updated_at,
    {
        let now = now_millis();
        Comment { id: new_uuid(), proposal_id, author_id, content, created_at: now, updated_at: now }
    }
}

/// A new proposal as a client submits it.
#[derive(Debug)]
pub struct CreateProposalRequest {
    pub title: String,
    pub description: String,
    pub tags: Vec<String>,
}

/// The fields of a proposal that an update changes.
#[derive(Debug)]
pub struct UpdateProposalRequest {
    pub title: Option<String>,
    pub description: Option<String>,
    pub status: Option<ProposalStatus>,
    pub tags: Option<Vec<String>>,
}

/// A vote as a client casts it.
#[derive(Debug)]
pub struct VoteRequest {
    pub vote_type: VoteType,
}

/// A new comment as a client submits it.
#[derive(Debug)]
pub struct CreateCommentRequest {
    pub content: String,
}

/// Page, page size and sorting of a listing.
#[derive(Debug)]
pub struct PaginationParams {
    pub page: Option<usize>,
    pub limit: Option<usize>,
    pub sort_by: Option<String>,
    pub sort_order: Option<String>,
}

/// A page of a listing, with the number of pages.
#[derive(Debug)]
pub struct PaginatedResponse<T> {
    pub data: Vec<T>,
    pub page: usize,
    pub limit: usize,
    pub total: usize,
    pub total_pages: usize,
}

impl<T> PaginatedResponse<T> {
    /// A page of `total` items in pages of `limit`: the number of pages is
    /// `total / limit` rounded up, and 0 when there are no items.
    pub fn new(data: Vec<T>, page: usize, limit: usize, total: usize) -> (r: Self)
        requires
            total > 0 ==> limit > 0,
            total > 0 ==> total + limit <= usize::MAX,
        ensures
            r.data == data,
            r.page == page,
            r.limit == limit,
            r.total == total,
            r.total_pages == if total == 0 { 0 } else { (total + limit - 1) / limit as int },
    {
        let total_pages = if total == 0 {
            0
        } else {
            (total + limit - 1) / limit
        };
        PaginatedResponse { data, page, limit, total, total_pages }
    }
}

/// The envelope of a successful reply.
#[derive(Debug)]
pub struct ApiResponse<T> {
    pub status: String,
    pub data: T,
}

impl<T> ApiResponse<T> {
    /// A reply with status "success".
    pub fn success(data: T) -> (r: Self)
        ensures
            r.status@ == "success"@,
            r.data == data,
    {
        ApiResponse { status: String::from_str("success"), data }
    }
}

} // verus!
