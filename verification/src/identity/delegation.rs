use vstd::prelude::*;
use crate::kv::StringMap;
use crate::text::{contains_str, strs_view};

verus! {

/// A delegation from one identity to another, with the permissions it
/// grants (no permission twice), its lifetime, signature and attributes.
#[derive(Debug, Clone)]
pub struct DelegationLink {
    pub id: String,
    pub delegator_id: String,
    pub delegate_id: String,
    pub delegation_type: String,
    pub permissions: Vec<String>,
    pub created_at: u64,
    pub expires_at: Option<u64>,
    pub signature: Option<Vec<u8>>,
    pub attributes: StringMap,
}

/// The storage namespace of a delegation: `delegations/<type>/<id>`.
pub open spec fn delegation_namespace(delegation_type: Seq<char>, id: Seq<char>) -> Seq<char> {
    "delegations/"@ + delegation_type + "/"@ + id
}

impl DelegationLink {
    /// A new delegation with no permissions, expiry, signature or
    /// attributes.
    pub fn new(id: &str, delegator_id: &str, delegate_id: &str, delegation_type: &str, created_at: u64) -> (d: Self)
        ensures
            d.id@ == id@,
            d.delegator_id@ == delegator_id@,
            d.delegate_id@ == delegate_id@,
            d.delegation_type@ == delegation_type@,
            d.permissions@ == Seq::<String>::empty(),
            d.created_at == created_at,
            d.expires_at is None,
            d.signature is None,
            d.attributes.wf(),
            d.attributes@ == Map::<Seq<char>, Seq<char>>::empty(),
    {
        DelegationLink {
            id: String::from_str(id),
            delegator_id: String::from_str(delegator_id),
            delegate_id: String::from_str(delegate_id),
            delegation_type: String::from_str(delegation_type),
            permissions: Vec::new(),
            created_at,
            expires_at: None,
            signature: None,
            attributes: StringMap::new(),
        }
    }

    /// Grants `permission`, unless it is already granted.
    pub fn add_permission(&mut self, permission: &str) -> (r: &mut Self)
        ensures
            strs_view(old(self).permissions@).contains(permission@) ==> *r == *old(self),
            !strs_view(old(self).permissions@).contains(permission@) ==> strs_view(r.permissions@)
                == strs_view(old(self).permissions@).push(permission@),
            *r == (DelegationLink { permissions: r.permissions, ..*old(self) }),
            *final(self) == *final(r),
    {
        if !contains_str(&self.permissions, permission) {
            let ghost before = self.permissions@;
            self.permissions.push(String::from_str(permission));
            assert(strs_view(self.permissions@) =~= strs_view(before).push(permission@));
        }
        self
    }

    /// Sets the expiry.
    pub fn with_expiration(&mut self, expires_at: u64) -> (r: &mut Self)
        ensures
            *r == (DelegationLink { expires_at: Some(expires_at), ..*old(self) }),
            *final(self) == *final(r),
    {
        self.expires_at = Some(expires_at);
        self
    }

    /// Sets the attribute `key` to `value`, replacing any value it had.
    pub fn add_attribute(&mut self, key: &str, value: &str) -> (r: &mut Self)
        requires
            old(self).attributes.wf(),
        ensures
            r.attributes.wf(),
            r.attributes@ == old(self).attributes@.insert(key@, value@),
            *r == (DelegationLink { attributes: r.attributes, ..*old(self) }),
            *final(self) == *final(r),
    {
        self.attributes.insert(key, value);
        self
    }

    /// Sets the signature.
    pub fn sign(&mut self, signature: Vec<u8>) -> (r: &mut Self)
        ensures
            *r == (DelegationLink { signature: Some(signature), ..*old(self) }),
            *final(self) == *final(r),
    {
        self.signature = Some(signature);
        self
    }

    /// Whether `current_time` is past the expiry; a delegation without one
    /// never expires.
    pub fn is_expired(&self, current_time: u64) -> (b: bool)
        ensures
            b == (self.expires_at matches Some(e) && current_time > e),
    {
        match self.expires_at {
            Some(expires) => current_time > expires,
            None => false,
        }
    }

    /// Whether `permission` is granted.
    pub fn has_permission(&self, permission: &str) -> (b: bool)
        ensures
            b == strs_view(self.permissions@).contains(permission@),
    {
        contains_str(&self.permissions, permission)
    }

    /// Whether the delegation carries a signature.
    pub fn is_signed(&self) -> (b: bool)
        ensures
            b == self.signature is Some,
    {
        self.signature.is_some()
    }

    /// The storage namespace of the delegation.
    pub fn get_namespace(&self) -> (s: String)
        ensures
            s@ == delegation_namespace(self.delegation_type@, self.id@),
    {
        let mut s = String::from_str("delegations/");
        s.append(self.delegation_type.as_str());
        s.append("/");
        s.append(self.id.as_str());
        s
    }
}

} // verus!
