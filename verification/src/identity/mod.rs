use vstd::prelude::*;
use std::collections::HashMap;
use ed25519_dalek::{Signature, Signer, SigningKey, Verifier, VerifyingKey};
use rand::rngs::OsRng;

pub mod credential;
pub mod delegation;
pub mod identity;


verus! {

/// `serde_json::Value`, carried through profiles as it is.
#[verifier::external_type_specification]
#[verifier::external_body]
pub struct ExJsonValue(serde_json::Value);

/// The errors of identity operations.
#[derive(Debug)]
pub enum IdentityError {
    KeyGeneration(String),
    DidGeneration(String),
    SigningError(String),
    VerificationError(String),
    InvalidKeyMaterial,
    Serialization(String),
    MultibaseError(String),
    ProfileFieldMissing(String),
}

impl IdentityError {
    /// The text of the error, as its `Display` writes it.
    pub fn to_string(&self) -> (s: String)
        ensures
            s@ == match self {
                IdentityError::KeyGeneration(m) => "Key generation failed: "@ + m@,
                IdentityError::DidGeneration(m) => "DID generation failed: "@ + m@,
                IdentityError::SigningError(m) => "Signing error: "@ + m@,
                IdentityError::VerificationError(m) => "Verification error: "@ + m@,
                IdentityError::InvalidKeyMaterial => "Invalid key material"@,
                IdentityError::Serialization(m) => "Serialization error: "@ + m@,
                IdentityError::MultibaseError(m) => "Multibase error: "@ + m@,
                IdentityError::ProfileFieldMissing(m) => "Profile field missing: "@ + m@,
            },
    {
        let (title, msg): (&str, Option<&String>) = match self {
            IdentityError::KeyGeneration(m) => ("Key generation failed: ", Some(m)),
            IdentityError::DidGeneration(m) => ("DID generation failed: ", Some(m)),
            IdentityError::SigningError(m) => ("Signing error: ", Some(m)),
            IdentityError::VerificationError(m) => ("Verification error: ", Some(m)),
            IdentityError::InvalidKeyMaterial => ("Invalid key material", None),
            IdentityError::Serialization(m) => ("Serialization error: ", Some(m)),
            IdentityError::MultibaseError(m) => ("Multibase error: ", Some(m)),
            IdentityError::ProfileFieldMissing(m) => ("Profile field missing: ", Some(m)),
        };
        let mut s = String::from_str(title);
        if let Some(m) = msg {
            s.append(m.as_str());
        }
        s
    }
}

/// Profile information of an identity.
#[derive(Debug, Clone)]
pub struct Profile {
    pub public_username: String,
    pub full_name: Option<String>,
    pub other_fields: HashMap<String, serde_json::Value>,
}

/// A digital identity: its `did:key` identifier, its Ed25519 key pair, and
/// its profile.
#[derive(Debug, Clone)]
pub struct Identity {
    pub did: String,
    pub public_key_bytes: Vec<u8>,
    pub private_key_bytes: Option<Vec<u8>>,
    pub public_key_multibase: String,
    pub profile: Profile,
    pub identity_type: String,
}

/// What `multibase::encode(Base::Base58Btc, bytes)` returns: the code `z`
/// followed by the base58 (Bitcoin alphabet) text of the bytes.
pub uninterp spec fn multibase_base58btc(bytes: Seq<u8>) -> Seq<char>;

/// Whether `multibase::decode` gives `bytes` back from `text`.
pub open spec fn decodes_to(text: Seq<char>, bytes: Seq<u8>) -> bool {
    multibase_decoded(text) == Ok::<Seq<u8>, Seq<char>>(bytes)
}

/// `multibase::encode` with `Base::Base58Btc`. Its result is named by
/// [`multibase_base58btc`]; the source shows it begins with the base's
/// code, `z`, and `multibase::decode` gives the bytes back.
#[verifier::external_body]
fn encode_base58btc(bytes: &[u8]) -> (r: String)
    ensures
        r@ == multibase_base58btc(bytes@),
        r@.len() >= 1,
        r@[0] == 'z',
        decodes_to(r@, bytes@),
{
    multibase::encode(multibase::Base::Base58Btc, bytes)
}

/// What `multibase::decode` returns for a text: the decoded bytes, or the
/// text its error displays.
pub uninterp spec fn multibase_decoded(s: Seq<char>) -> Result<Seq<u8>, Seq<char>>;

/// `multibase::decode`, keeping the bytes; its outcome is named by
/// [`multibase_decoded`].
#[verifier::external_body]
fn decode_multibase(s: &str) -> (r: Result<Vec<u8>, String>)
    ensures
        match r {
            Ok(v) => multibase_decoded(s@) == Ok::<Seq<u8>, Seq<char>>(v@),
            Err(t) => multibase_decoded(s@) == Err::<Seq<u8>, Seq<char>>(t@),
        },
{
    match multibase::decode(s) {
        Ok((_, v)) => Ok(v),
        Err(e) => Err(e.to_string()),
    }
}

/// The verifying key of a secret key (`SigningKey::verifying_key`, RFC
/// 8032: a deterministic function of the secret).
pub uninterp spec fn ed25519_public_of(secret: Seq<u8>) -> Seq<u8>;

/// `SigningKey::generate` on the operating system's random source, as the
/// 32 bytes of the secret key and the 32 bytes of its verifying key. The
/// secret is random; the verifying key is named [`ed25519_public_of`] of it
/// and, being derived from a secret, is a key that `VerifyingKey::from_bytes`
/// accepts.
#[verifier::external_body]
fn generate_key_pair() -> (r: (Vec<u8>, Vec<u8>))
    ensures
        r.0@.len() == 32,
        r.1@.len() == 32,
        r.1@ == ed25519_public_of(r.0@),
        ed25519_key_problem(r.1@) is None,
{
    let mut csprng = OsRng {};
    let signing_key = SigningKey::generate(&mut csprng);
    let verifying_key = signing_key.verifying_key();
    (signing_key.to_bytes().to_vec(), verifying_key.to_bytes().to_vec())
}

/// What an Ed25519 signature of a message under a secret key is (RFC 8032:
/// a deterministic function of the two).
pub uninterp spec fn ed25519_signature(secret: Seq<u8>, message: Seq<u8>) -> Seq<u8>;

/// `SigningKey::sign` with the key of the given 32 secret bytes; the 64
/// bytes of the signature are named by [`ed25519_signature`]. As the
/// crate's documentation shows, the signature verifies under the secret's
/// verifying key.
#[verifier::external_body]
fn sign_with(secret: &[u8], message: &[u8]) -> (sig: Vec<u8>)
    requires
        secret@.len() == 32,
    ensures
        sig@ == ed25519_signature(secret@, message@),
        sig@.len() == 64,
        ed25519_verify_problem(ed25519_public_of(secret@), message@, sig@) is None,
{
    let bytes: [u8; 32] = secret.try_into().unwrap();
    let key = SigningKey::from_bytes(&bytes);
    key.sign(message).to_bytes().to_vec()
}

/// Whether 32 bytes are a valid Ed25519 verifying key (`VerifyingKey::from_bytes`):
/// none if they are, else the text of the error.
pub uninterp spec fn ed25519_key_problem(public: Seq<u8>) -> Option<Seq<char>>;

/// `VerifyingKey::from_bytes`, keeping only whether it failed and why; named
/// by [`ed25519_key_problem`].
#[verifier::external_body]
fn check_verifying_key(public: &[u8]) -> (r: Option<String>)
    requires
        public@.len() == 32,
    ensures
        match r {
            None => ed25519_key_problem(public@) is None,
            Some(t) => ed25519_key_problem(public@) == Some(t@),
        },
{
    let bytes: [u8; 32] = public.try_into().unwrap();
    match VerifyingKey::from_bytes(&bytes) {
        Ok(_) => None,
        Err(e) => Some(e.to_string()),
    }
}

/// Whether a 64-byte signature of a message verifies under a verifying key
/// (`Verifier::verify`): none if it does, else the text of the error.
pub uninterp spec fn ed25519_verify_problem(public: Seq<u8>, message: Seq<u8>, sig: Seq<u8>) -> Option<Seq<char>>;

/// `VerifyingKey::verify` on a valid key; named by [`ed25519_verify_problem`].
#[verifier::external_body]
fn verify_with(public: &[u8], message: &[u8], sig: &[u8]) -> (r: Option<String>)
    requires
        public@.len() == 32,
        ed25519_key_problem(public@) is None,
        sig@.len() == 64,
    ensures
        match r {
            None => ed25519_verify_problem(public@, message@, sig@) is None,
            Some(t) => ed25519_verify_problem(public@, message@, sig@) == Some(t@),
        },
{
    let pk: [u8; 32] = public.try_into().unwrap();
    let key = VerifyingKey::from_bytes(&pk).unwrap();
    let sb: [u8; 64] = sig.try_into().unwrap();
    match key.verify(message, &Signature::from_bytes(&sb)) {
        Ok(()) => None,
        Err(e) => Some(e.to_string()),
    }
}

/// Why a signature check fails: the key or signature has the wrong length,
/// the key or the signature is refused (with the error's text), or the
/// signature text is not multibase (with the error's text).
pub enum VerifyFailure {
    KeyMaterial,
    Refused(Seq<char>),
    NotMultibase(Seq<char>),
}

/// The outcome of checking `signature_text` against a public key and a
/// message, step by step as [`Identity::verify`] takes them: `None` when the
/// signature verifies.
pub open spec fn verify_failure(public: Seq<u8>, message: Seq<u8>, signature_text: Seq<char>) -> Option<VerifyFailure> {
    if public.len() != 32 {
        Some(VerifyFailure::KeyMaterial)
    } else if ed25519_key_problem(public) is Some {
        Some(VerifyFailure::Refused(ed25519_key_problem(public)->0))
    } else {
        match multibase_decoded(signature_text) {
            Err(t) => Some(VerifyFailure::NotMultibase(t)),
            Ok(sig) => if sig.len() != 64 {
                Some(VerifyFailure::KeyMaterial)
            } else {
                match ed25519_verify_problem(public, message, sig) {
                    Some(t) => Some(VerifyFailure::Refused(t)),
                    None => None,
                }
            },
        }
    }
}

/// The identity's keys belong together: a 32-byte secret key, and the
/// valid verifying key derived from it.
pub open spec fn key_pair_matches(id: Identity) -> bool {
    &&& id.public_key_bytes@.len() == 32
    &&& id.private_key_bytes matches Some(p) && p@.len() == 32 && id.public_key_bytes@ == ed25519_public_of(p@)
    &&& ed25519_key_problem(id.public_key_bytes@) is None
}

impl Identity {
    /// A new identity with a fresh Ed25519 key pair; its DID is `did:key:`
    /// followed by the base58btc multibase text of the public key.
    pub fn new(
        public_username: String,
        full_name: Option<String>,
        identity_type: String,
        other_profile_fields: Option<HashMap<String, serde_json::Value>>,
    ) -> (r: Result<Self, IdentityError>)
        ensures
            r matches Ok(id) && {
                &&& id.public_key_bytes@.len() == 32
                &&& id.private_key_bytes matches Some(p) && p@.len() == 32
                &&& id.public_key_multibase@ == multibase_base58btc(id.public_key_bytes@)
                &&& id.did@ == "did:key:"@ + id.public_key_multibase@
                &&& id.profile.public_username == public_username
                &&& id.profile.full_name == full_name
                &&& (other_profile_fields matches Some(m) ==> id.profile.other_fields == m)
                &&& (other_profile_fields is None ==> id.profile.other_fields@ == Map::<
                    String,
                    serde_json::Value,
                >::empty())
                &&& id.identity_type == identity_type
                &&& key_pair_matches(id)
            },
    {
        let (secret, public) = generate_key_pair();
        let public_key_multibase = encode_base58btc(public.as_slice());
        let mut did = String::from_str("did:key:");
        did.append(public_key_multibase.as_str());
        let other_fields = match other_profile_fields {
            Some(m) => m,
            None => HashMap::new(),
        };
        let profile = Profile { public_username, full_name, other_fields };
        Ok(Identity {
            did,
            public_key_bytes: public,
            private_key_bytes: Some(secret),
            public_key_multibase,
            profile,
            identity_type,
        })
    }

    /// The DID.
    pub fn did(&self) -> (s: &str)
        ensures
            s@ == self.did@,
    {
        self.did.as_str()
    }

    /// The public username.
    pub fn public_username(&self) -> (s: &str)
        ensures
            s@ == self.profile.public_username@,
    {
        self.profile.public_username.as_str()
    }

    /// Signs a message with the private key; the signature comes back as
    /// base58btc multibase text. Fails with `InvalidKeyMaterial` when there
    /// is no private key or it is not 32 bytes long.
    pub fn sign(&self, message: &[u8]) -> (r: Result<String, IdentityError>)
        ensures
            match self.private_key_bytes {
                Some(p) => if p@.len() == 32 {
                    r matches Ok(s) && s@ == multibase_base58btc(ed25519_signature(p@, message@))
                } else {
                    r matches Err(IdentityError::InvalidKeyMaterial)
                },
                None => r matches Err(IdentityError::InvalidKeyMaterial),
            },
            key_pair_matches(*self) ==> (r matches Ok(s) && verify_failure(
                self.public_key_bytes@,
                message@,
                s@,
            ) is None),
    {
        match &self.private_key_bytes {
            None => Err(IdentityError::InvalidKeyMaterial),
            Some(p) => {
                if p.len() != 32 {
                    return Err(IdentityError::InvalidKeyMaterial);
                }
                let sig = sign_with(p.as_slice(), message);
                Ok(encode_base58btc(sig.as_slice()))
            },
        }
    }

    /// Checks a multibase signature of a message against the public key.
    /// A key that is not 32 bytes, or a decoded signature that is not 64,
    /// gives `InvalidKeyMaterial`; an invalid key or a signature that does
    /// not verify gives `VerificationError` with the error's text; text that
    /// is not multibase gives `MultibaseError("Invalid signature format: ..")`.
    pub fn verify(&self, message: &[u8], signature_multibase: &str) -> (r: Result<(), IdentityError>)
        ensures
            match verify_failure(self.public_key_bytes@, message@, signature_multibase@) {
                None => r is Ok,
                Some(VerifyFailure::KeyMaterial) => r matches Err(IdentityError::InvalidKeyMaterial),
                Some(VerifyFailure::Refused(t)) => r matches Err(IdentityError::VerificationError(m))
                    && m@ == t,
                Some(VerifyFailure::NotMultibase(t)) => r matches Err(IdentityError::MultibaseError(m))
                    && m@ == "Invalid signature format: "@ + t,
            },
    {
        if self.public_key_bytes.len() != 32 {
            return Err(IdentityError::InvalidKeyMaterial);
        }
        if let Some(t) = check_verifying_key(self.public_key_bytes.as_slice()) {
            return Err(IdentityError::VerificationError(t));
        }
        let sig = match decode_multibase(signature_multibase) {
            Ok(v) => v,
            Err(t) => {
                let mut m = String::from_str("Invalid signature format: ");
                m.append(t.as_str());
                return Err(IdentityError::MultibaseError(m));
            },
        };
        if sig.len() != 64 {
            return Err(IdentityError::InvalidKeyMaterial);
        }
        match verify_with(self.public_key_bytes.as_slice(), message, sig.as_slice()) {
            None => Ok(()),
            Some(t) => Err(IdentityError::VerificationError(t)),
        }
    }
}

} // verus!
