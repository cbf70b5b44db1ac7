use vstd::prelude::*;
use crate::kv::StringMap;

verus! {

/// A credential issued to an identity: who issued it to whom, when, until
/// when, the issuer's signature, and its claims.
#[derive(Debug, Clone)]
pub struct Credential {
    pub id: String,
    pub credential_type: String,
    pub issuer_id: String,
    pub holder_id: String,
    pub issued_at: u64,
    pub expires_at: Option<u64>,
    pub signature: Option<Vec<u8>>,
    pub claims: StringMap,
}

/// The storage namespace of a credential: `credentials/<type>/<id>`.
pub open spec fn credential_namespace(credential_type: Seq<char>, id: Seq<char>) -> Seq<char> {
    "credentials/"@ + credential_type + "/"@ + id
}

impl Credential {
    /// A new credential with no expiry, no signature and no claims.
    pub fn new(id: &str, credential_type: &str, issuer_id: &str, holder_id: &str, issued_at: u64) -> (c: Self)
        ensures
            c.id@ == id@,
            c.credential_type@ == credential_type@,
            c.issuer_id@ == issuer_id@,
            c.holder_id@ == holder_id@,
            c.issued_at == issued_at,
            c.expires_at is None,
            c.signature is None,
            c.claims.wf(),
            c.claims@ == Map::<Seq<char>, Seq<char>>::empty(),
    {
        Credential {
            id: String::from_str(id),
            credential_type: String::from_str(credential_type),
            issuer_id: String::from_str(issuer_id),
            holder_id: String::from_str(holder_id),
            issued_at,
            expires_at: None,
            signature: None,
            claims: StringMap::new(),
        }
    }

    /// Sets the expiry.
    pub fn with_expiration(&mut self, expires_at: u64) -> (r: &mut Self)
        ensures
            *r == (Credential { expires_at: Some(expires_at), ..*old(self) }),
            *final(self) == *final(r),
    {
        self.expires_at = Some(expires_at);
        self
    }

    /// Sets the claim `key` to `value`, replacing any value it had.
    pub fn add_claim(&mut self, key: &str, value: &str) -> (r: &mut Self)
        requires
            old(self).claims.wf(),
        ensures
            r.claims.wf(),
            r.claims@ == old(self).claims@.insert(key@, value@),
            *r == (Credential { claims: r.claims, ..*old(self) }),
            *final(self) == *final(r),
    {
        self.claims.insert(key, value);
        self
    }

    /// Sets the signature.
    pub fn sign(&mut self, signature: Vec<u8>) -> (r: &mut Self)
        ensures
            *r == (Credential { signature: Some(signature), ..*old(self) }),
            *final(self) == *final(r),
    {
        self.signature = Some(signature);
        self
    }

    /// Whether `current_time` is past the expiry; a credential without one
    /// never expires.
    pub fn is_expired(&self, current_time: u64) -> (b: bool)
        ensures
            b == (self.expires_at matches Some(e) && current_time > e),
    {
        match self.expires_at {
            Some(expires) => current_time > expires,
            None => false,
        }
    }

    /// Whether the credential carries a signature.
    pub fn is_signed(&self) -> (b: bool)
        ensures
            b == self.signature is Some,
    {
        self.signature.is_some()
    }

    /// The storage namespace of the credential.
    pub fn get_namespace(&self) -> (s: String)
        ensures
            s@ == credential_namespace(self.credential_type@, self.id@),
    {
        let mut s = String::from_str("credentials/");
        s.append(self.credential_type.as_str());
        s.append("/");
        s.append(self.id.as_str());
        s
    }
}

} // verus!
