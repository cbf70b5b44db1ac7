//! Where the governance namespace keeps a proposal and what belongs to it:
//! `proposals/<id>` for the proposal, `proposals/<id>/<kind>/<item>` for its
//! votes, comments and attachments, and `proposals/<id>/<entry>` for its
//! execution result and logs.

use vstd::prelude::*;
use crate::text::{chars_of, find_sub, find_sub_from, strs_view};

verus! {

/// Whether `p` occurs in `s` (`str::contains`).
pub open spec fn has_sub(s: Seq<char>, p: Seq<char>) -> bool {
    find_sub_from(s, p, 0) >= 0
}

/// Whether a key under `proposals/` names a proposal's own record rather
/// than one of its votes, comments, attachments or execution entries.
pub open spec fn is_record_key(k: Seq<char>) -> bool {
    &&& !has_sub(k, "/votes/"@)
    &&& !has_sub(k, "/comments/"@)
    &&& !has_sub(k, "/attachments/"@)
    &&& !has_sub(k, "/execution_"@)
}

fn contains_text(s: &str, p: &str) -> (b: bool)
    ensures
        b == has_sub(s@, p@),
{
    let sc = chars_of(s);
    let pc = chars_of(p);
    match find_sub(sc.as_slice(), pc.as_slice()) {
        Some(_) => true,
        None => false,
    }
}

/// The keys of `keys` that name proposals' own records, in their order.
pub fn proposal_record_keys(keys: Vec<String>) -> (r: Vec<String>)
    ensures
        strs_view(r@) == strs_view(keys@).filter(|k: Seq<char>| is_record_key(k)),
{
    let ghost all = strs_view(keys@);
    proof {
        crate::text::lemma_strs_view(keys@);
    }
    let mut r: Vec<String> = Vec::new();
    let mut i: usize = 0;
    while i < keys.len()
        invariant
            i <= keys@.len(),
            all == strs_view(keys@),
            all.len() == keys@.len(),
            strs_view(r@) == all.take(i as int).filter(|k: Seq<char>| is_record_key(k)),
        decreases keys@.len() - i,
    {
        proof {
            assert(all.take(i + 1).drop_last() =~= all.take(i as int));
            reveal(Seq::filter);
            assert(all[i as int] == keys@[i as int]@);
        }
        let k = keys[i].as_str();
        let keep = !contains_text(k, "/votes/") && !contains_text(k, "/comments/") && !contains_text(
            k,
            "/attachments/",
        ) && !contains_text(k, "/execution_");
        let ghost before = r@;
        if keep {
            r.push(keys[i].clone());
            assert(strs_view(r@) =~= strs_view(before).push(all[i as int]));
        } else {
            assert(strs_view(r@) =~= strs_view(before));
        }
        i += 1;
    }
    assert(all.take(i as int) =~= all);
    r
}

/// `proposals/<id>`, the key of a proposal.
pub fn proposal_key(id: &str) -> (r: String)
    ensures
        r@ == "proposals/"@ + id@,
{
    let mut r = String::from_str("proposals/");
    r.append(id);
    r
}

/// `proposals/<proposal_id>/<kind>/`, the prefix of a proposal's votes,
/// comments or attachments (`kind` is `votes`, `comments` or
/// `attachments`).
pub fn proposal_items_prefix(proposal_id: &str, kind: &str) -> (r: String)
    ensures
        r@ == "proposals/"@ + proposal_id@ + "/"@ + kind@ + "/"@,
{
    let mut r = proposal_key(proposal_id);
    r.append("/");
    r.append(kind);
    r.append("/");
    r
}

/// `proposals/<proposal_id>/<kind>/<item_id>`, the key of one vote,
/// comment or attachment of a proposal.
pub fn proposal_item_key(proposal_id: &str, kind: &str, item_id: &str) -> (r: String)
    ensures
        r@ == "proposals/"@ + proposal_id@ + "/"@ + kind@ + "/"@ + item_id@,
{
    let mut r = proposal_items_prefix(proposal_id, kind);
    r.append(item_id);
    r
}

/// `proposals/<proposal_id>/<entry>`, the key of a proposal's
/// `execution_result` or `execution_logs`.
pub fn proposal_entry_key(proposal_id: &str, entry: &str) -> (r: String)
    ensures
        r@ == "proposals/"@ + proposal_id@ + "/"@ + entry@,
{
    let mut r = proposal_key(proposal_id);
    r.append("/");
    r.append(entry);
    r
}

} // verus!
