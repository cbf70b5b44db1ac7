use vstd::prelude::*;
use crate::kv::CountMap;
use crate::models::{is_v4_uuid_text, new_uuid_string};
use crate::numeric::{dec_str, decimal_string};
use crate::text::{contains_str, str_eq, strs_view};
use crate::time::now_millis;

verus! {

/// One version of a comment's text, with its time in milliseconds since the
/// Unix epoch.
#[derive(Debug, Clone)]
pub struct CommentVersion {
    pub content: String,
    pub timestamp: i64,
}

/// A comment on a proposal: its author's DID, its time (milliseconds since
/// the Unix epoch), its current text, the comment it answers, its tags (no
/// tag twice), the reactions to it by emoji, whether it is hidden, and every
/// version of its text.
#[derive(Debug, Clone)]
pub struct ProposalComment {
    pub id: String,
    pub author: String,
    pub timestamp: i64,
    pub content: String,
    pub reply_to: Option<String>,
    pub tags: Vec<String>,
    pub reactions: CountMap,
    pub hidden: bool,
    pub edit_history: Vec<CommentVersion>,
}

/// The tags after adding `new_tags` one by one, each unless already there.
pub open spec fn tags_added(tags: Seq<Seq<char>>, new_tags: Seq<Seq<char>>) -> Seq<Seq<char>>
    decreases new_tags.len(),
{
    if new_tags.len() == 0 {
        tags
    } else {
        let before = tags_added(tags, new_tags.drop_last());
        if before.contains(new_tags.last()) {
            before
        } else {
            before.push(new_tags.last())
        }
    }
}

/// The storage key of a comment: `governance/proposals/<proposal>/comments/<comment>`.
pub open spec fn comment_key(proposal_id: Seq<char>, comment_id: Seq<char>) -> Seq<char> {
    "governance/proposals/"@ + proposal_id + "/comments/"@ + comment_id
}

/// The storage key of a version of a comment:
/// `governance/proposals/<proposal>/comments/versions/<comment>/<version>`.
pub open spec fn comment_version_key(proposal_id: Seq<char>, comment_id: Seq<char>, version: nat) -> Seq<char> {
    "governance/proposals/"@ + proposal_id + "/comments/versions/"@ + comment_id + "/"@ + dec_str(version)
}

impl ProposalComment {
    /// The reactions are well formed.
    pub open spec fn wf(&self) -> bool {
        self.reactions.wf()
    }

    /// A new comment at `now` with a fresh id, no reactions, shown, whose
    /// history holds its first text.
    pub fn new_at(author: String, content: String, reply_to: Option<String>, tags: Vec<String>, now: i64) -> (c: Self)
        ensures
            c.wf(),
            is_v4_uuid_text(c.id@),
            c.author == author,
            c.timestamp == now,
            c.content@ == content@,
            c.reply_to == reply_to,
            c.tags == tags,
            c.reactions@ == Map::<Seq<char>, u32>::empty(),
            !c.hidden,
            c.edit_history@.len() == 1,
            c.edit_history@[0].content@ == content@,
            c.edit_history@[0].timestamp == now,
    {
        let id = new_uuid_string();
        let first = content.clone();
        let mut edit_history: Vec<CommentVersion> = Vec::new();
        edit_history.push(CommentVersion { content: first, timestamp: now });
        ProposalComment {
            id,
            author,
            timestamp: now,
            content,
            reply_to,
            tags,
            reactions: CountMap::new(),
            hidden: false,
            edit_history,
        }
    }

    /// A new comment, now.
    pub fn new(author: String, content: String, reply_to: Option<String>, tags: Vec<String>) -> (c: Self)
        ensures
            c.wf(),
            is_v4_uuid_text(c.id@),
            c.author == author,
            c.content@ == content@,
            c.reply_to == reply_to,
            c.tags == tags,
            c.reactions@ == Map::<Seq<char>, u32>::empty(),
            !c.hidden,
            c.edit_history@.len() == 1,
            c.edit_history@[0].content@ == content@,
            c.edit_history@[0].timestamp == c.timestamp,
    {
        let now = now_millis();
        Self::new_at(author, content, reply_to, tags, now)
    }

    /// A new text at `now`: it becomes the current text and the last
    /// version.
    pub fn add_version_at(&mut self, content: String, now: i64)
        ensures
            final(self).content@ == content@,
            final(self).edit_history@.len() == old(self).edit_history@.len() + 1,
            final(self).edit_history@.drop_last() == old(self).edit_history@,
            final(self).edit_history@.last().content@ == content@,
            final(self).edit_history@.last().timestamp == now,
            final(self).id == old(self).id,
            final(self).author == old(self).author,
            final(self).timestamp == old(self).timestamp,
            final(self).reply_to == old(self).reply_to,
            final(self).tags == old(self).tags,
            final(self).reactions == old(self).reactions,
            final(self).hidden == old(self).hidden,
    {
        self.content = content.clone();
        self.edit_history.push(CommentVersion { content, timestamp: now });
        assert(self.edit_history@.drop_last() =~= old(self).edit_history@);
    }

    /// A new text, now.
    pub fn add_version(&mut self, content: String)
        ensures
            final(self).content@ == content@,
            final(self).edit_history@.len() == old(self).edit_history@.len() + 1,
            final(self).edit_history@.drop_last() == old(self).edit_history@,
            final(self).edit_history@.last().content@ == content@,
            final(self).id == old(self).id,
            final(self).author == old(self).author,
            final(self).timestamp == old(self).timestamp,
            final(self).reply_to == old(self).reply_to,
            final(self).tags == old(self).tags,
            final(self).reactions == old(self).reactions,
            final(self).hidden == old(self).hidden,
    {
        let now = now_millis();
        self.add_version_at(content, now);
    }

    /// Hides the comment (soft deletion).
    pub fn mark_hidden(&mut self)
        ensures
            *final(self) == (ProposalComment { hidden: true, ..*old(self) }),
    {
        self.hidden = true;
    }

    /// Shows the comment again.
    pub fn unhide(&mut self)
        ensures
            *final(self) == (ProposalComment { hidden: false, ..*old(self) }),
    {
        self.hidden = false;
    }

    /// Every version of the text, oldest first.
    pub fn get_versions(&self) -> (v: &[CommentVersion])
        ensures
            v@ == self.edit_history@,
    {
        self.edit_history.as_slice()
    }

    /// Counts one more reaction `reaction`.
    pub fn add_reaction(&mut self, reaction: &str)
        requires
            old(self).wf(),
            old(self).reactions@.dom().contains(reaction@) ==> old(self).reactions@[reaction@] < u32::MAX,
        ensures
            final(self).wf(),
            final(self).reactions@ == old(self).reactions@.insert(
                reaction@,
                (if old(self).reactions@.dom().contains(reaction@) {
                    old(self).reactions@[reaction@] + 1
                } else {
                    1
                }) as u32,
            ),
            *final(self) == (ProposalComment { reactions: final(self).reactions, ..*old(self) }),
    {
        let n = match self.reactions.get(reaction) {
            Some(c) => c + 1,
            None => 1,
        };
        self.reactions.insert(reaction, n);
    }

    /// Adds the tags of `new_tags` that are not there yet, in order.
    pub fn add_tags(&mut self, new_tags: &[String])
        ensures
            strs_view(final(self).tags@) == tags_added(strs_view(old(self).tags@), strs_view(new_tags@)),
            *final(self) == (ProposalComment { tags: final(self).tags, ..*old(self) }),
    {
        let mut k: usize = 0;
        while k < new_tags.len()
            invariant
                k <= new_tags@.len(),
                strs_view(self.tags@) == tags_added(strs_view(old(self).tags@), strs_view(new_tags@.take(k as int))),
                *self == (ProposalComment { tags: self.tags, ..*old(self) }),
            decreases new_tags@.len() - k,
        {
            proof {
                assert(strs_view(new_tags@.take(k + 1)).drop_last() =~= strs_view(new_tags@.take(k as int)));
                assert(strs_view(new_tags@.take(k + 1)).last() == new_tags@[k as int]@);
            }
            let tag = &new_tags[k];
            if !contains_str(&self.tags, tag.as_str()) {
                let ghost before = self.tags@;
                self.tags.push(tag.clone());
                assert(strs_view(self.tags@) =~= strs_view(before).push(tag@));
            }
            k += 1;
        }
        assert(new_tags@.take(k as int) =~= new_tags@);
    }
}

/// The storage key of a comment.
pub fn comment_path(proposal_id: &str, comment_id: &str) -> (s: String)
    ensures
        s@ == comment_key(proposal_id@, comment_id@),
{
    let mut s = String::from_str("governance/proposals/");
    s.append(proposal_id);
    s.append("/comments/");
    s.append(comment_id);
    s
}

/// The storage key of a version of a comment.
pub fn comment_version_path(proposal_id: &str, comment_id: &str, version: usize) -> (s: String)
    ensures
        s@ == comment_version_key(proposal_id@, comment_id@, version as nat),
{
    let mut s = String::from_str("governance/proposals/");
    s.append(proposal_id);
    s.append("/comments/versions/");
    s.append(comment_id);
    s.append("/");
    let d = decimal_string(version);
    s.append(d.as_str());
    s
}

/// Edits a comment that was read from storage, as the identity
/// `current_identity_did`: only the comment's author may, else the error is
/// "Only the original author can edit a comment". The new text becomes a
/// new version; the number of that version comes back, for the key under
/// which it is stored ([`comment_version_path`]).
pub fn edit_comment(comment: &mut ProposalComment, current_identity_did: &str, new_content: &str) -> (r: Result<usize, String>)
    ensures
        old(comment).author@ != current_identity_did@ ==> (r matches Err(m)
            && m@ == "Only the original author can edit a comment"@ && *final(comment) == *old(comment)),
        old(comment).author@ == current_identity_did@ ==> (r matches Ok(v) && {
            &&& v == old(comment).edit_history@.len()
            &&& final(comment).content@ == new_content@
            &&& final(comment).edit_history@ == old(comment).edit_history@.push(final(comment).edit_history@.last())
            &&& final(comment).edit_history@.last().content@ == new_content@
            &&& final(comment).id == old(comment).id
            &&& final(comment).author == old(comment).author
            &&& final(comment).timestamp == old(comment).timestamp
            &&& final(comment).reply_to == old(comment).reply_to
            &&& final(comment).hidden == old(comment).hidden
            &&& final(comment).tags == old(comment).tags
            &&& final(comment).reactions == old(comment).reactions
        }),
{
    if !str_eq(comment.author.as_str(), current_identity_did) {
        return Err(String::from_str("Only the original author can edit a comment"));
    }
    comment.add_version(String::from_str(new_content));
    Ok(comment.edit_history.len() - 1)
}

/// Hides a comment that was read from storage, as the identity
/// `current_identity_did`: only the comment's author may, else the error is
/// "Only the original author can hide a comment".
pub fn hide_comment(comment: &mut ProposalComment, current_identity_did: &str) -> (r: Result<(), String>)
    ensures
        old(comment).author@ != current_identity_did@ ==> (r matches Err(m)
            && m@ == "Only the original author can hide a comment"@ && *final(comment) == *old(comment)),
        old(comment).author@ == current_identity_did@ ==> r is Ok && *final(comment) == (ProposalComment {
            hidden: true,
            ..*old(comment)
        }),
{
    if !str_eq(comment.author.as_str(), current_identity_did) {
        return Err(String::from_str("Only the original author can hide a comment"));
    }
    comment.mark_hidden();
    Ok(())
}

/// The comments of a proposal, as read from storage, that a listing shows:
/// all of them when `show_hidden`, else those not hidden, in order.
pub fn fetch_comments_threaded(comments: Vec<ProposalComment>, show_hidden: bool) -> (r: Vec<ProposalComment>)
    ensures
        r@ == comments@.filter(|c: ProposalComment| !c.hidden || show_hidden),
{
    let ghost orig = comments@;
    let n = comments.len();
    let mut rest = comments;
    let mut rev: Vec<ProposalComment> = Vec::new();
    while rest.len() > 0
        invariant
            n == orig.len(),
            rest@ == orig.take(n - rev@.len()),
            rev@.len() <= n,
            forall|j: int| 0 <= j < rev@.len() ==> #[trigger] rev@[j] == orig[n - 1 - j],
        decreases rest@.len(),
    {
        let c = rest.pop().unwrap();
        rev.push(c);
    }
    let mut r: Vec<ProposalComment> = Vec::new();
    while rev.len() > 0
        invariant
            n == orig.len(),
            rev@.len() <= n,
            forall|j: int| 0 <= j < rev@.len() ==> #[trigger] rev@[j] == orig[n - 1 - j],
            r@ == orig.take(n - rev@.len()).filter(|c: ProposalComment| !c.hidden || show_hidden),
        decreases rev@.len(),
    {
        let ghost k = n - rev@.len();
        proof {
            assert(orig.take(k + 1).drop_last() =~= orig.take(k));
            reveal(Seq::filter);
        }
        let c = rev.pop().unwrap();
        assert(c == orig[k]);
        if !c.hidden || show_hidden {
            r.push(c);
        }
    }
    assert(orig.take(n as int) =~= orig);
    r
}


} // verus!
