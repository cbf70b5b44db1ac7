use icn_covm::identity::credential::Credential;
use icn_covm::identity::delegation::DelegationLink;
use icn_covm::identity::identity::{Identity as EntityIdentity, IdentityRegistry};
use icn_covm::identity::{Identity, IdentityError};

fn now() -> u64 {
    std::time::SystemTime::now().duration_since(std::time::UNIX_EPOCH).unwrap().as_secs()
}

#[test]
fn test_create_identity() {
    let identity = Identity::new("test_user".to_string(), None, "member".to_string(), None).unwrap();
    assert_eq!(identity.profile.public_username, "test_user");
    assert!(identity.did.starts_with("did:key:z"));
    assert!(identity.public_key_multibase.starts_with("z"));
    assert_eq!(identity.did(), format!("did:key:{}", identity.public_key_multibase));
    assert_eq!(identity.public_username(), "test_user");
}

#[test]
fn test_sign_verify_ok() {
    let identity = Identity::new("signer".to_string(), None, "member".to_string(), None).unwrap();
    let message = b"This is a test message";

    let signature_multibase = identity.sign(message).unwrap();
    assert!(signature_multibase.starts_with("z"));

    let verification_result = identity.verify(message, &signature_multibase);
    assert!(verification_result.is_ok());
}

#[test]
fn test_verify_bad_signature() {
    let identity = Identity::new("verifier".to_string(), None, "member".to_string(), None).unwrap();
    let message = b"Another test message";

    let other_identity = Identity::new("bad_signer".to_string(), None, "member".to_string(), None).unwrap();
    let bad_signature = other_identity.sign(message).unwrap();

    let verification_result = identity.verify(message, &bad_signature);
    assert!(verification_result.is_err());
    match verification_result.unwrap_err() {
        IdentityError::VerificationError(_) => {}
        err => panic!("Expected VerificationError for bad signature verification, got: {:?}", err),
    }
}

#[test]
fn test_verify_wrong_message() {
    let identity = Identity::new("msg_verifier".to_string(), None, "member".to_string(), None).unwrap();
    let message1 = b"Original message";
    let message2 = b"Tampered message";

    let signature = identity.sign(message1).unwrap();

    let verification_result = identity.verify(message2, &signature);
    assert!(verification_result.is_err());
    match verification_result.unwrap_err() {
        IdentityError::VerificationError(_) => {}
        err => panic!("Expected VerificationError for wrong message verification, got: {:?}", err),
    }
}

#[test]
fn test_sign_without_private_key_and_bad_text() {
    let mut identity = Identity::new("k".to_string(), None, "member".to_string(), None).unwrap();
    match identity.verify(b"m", "not multibase!") {
        Err(IdentityError::MultibaseError(m)) => assert!(m.starts_with("Invalid signature format: ")),
        other => panic!("unexpected {:?}", other),
    }
    identity.private_key_bytes = None;
    assert!(matches!(identity.sign(b"m"), Err(IdentityError::InvalidKeyMaterial)));
    assert_eq!(IdentityError::InvalidKeyMaterial.to_string(), "Invalid key material");
}

#[test]
fn test_identity_creation() {
    let identity = EntityIdentity::new("alice", "member");

    assert_eq!(identity.id, "alice");
    assert_eq!(identity.identity_type, "member");
    assert!(identity.public_key.is_none());
    assert!(identity.crypto_scheme.is_none());
    assert!(identity.metadata.is_empty());
}

#[test]
fn test_identity_with_public_key() {
    let public_key = vec![1, 2, 3, 4];
    let identity = EntityIdentity::with_public_key("bob", "member", public_key.clone(), "ed25519");

    assert_eq!(identity.id, "bob");
    assert_eq!(identity.identity_type, "member");
    assert_eq!(identity.public_key, Some(public_key));
    assert_eq!(identity.crypto_scheme, Some("ed25519".to_string()));
}

#[test]
fn test_identity_metadata() {
    let mut identity = EntityIdentity::new("charlie", "member");
    identity.add_metadata("email", "charlie@example.com");
    identity.add_metadata("coop_id", "coop123");

    assert_eq!(identity.get_metadata("email"), Some(&"charlie@example.com".to_string()));
    assert_eq!(identity.get_metadata("coop_id"), Some(&"coop123".to_string()));
    assert_eq!(identity.get_metadata("nonexistent"), None);
}

#[test]
fn test_identity_namespace() {
    let coop = EntityIdentity::new("coop123", "cooperative");
    assert_eq!(coop.get_namespace(), "coops/coop123");

    let member1 = EntityIdentity::new("alice", "member");
    assert_eq!(member1.get_namespace(), "members/alice");

    let mut member2 = EntityIdentity::new("bob", "member");
    member2.add_metadata("coop_id", "coop123");
    assert_eq!(member2.get_namespace(), "coops/coop123/members/bob");

    let service = EntityIdentity::new("auth-svc", "service");
    assert_eq!(service.get_namespace(), "identities/service/auth-svc");
}

#[test]
fn test_credential() {
    let timestamp = now();
    let mut credential = Credential::new("cred123", "membership", "coop123", "alice", timestamp);

    assert_eq!(credential.id, "cred123");
    assert_eq!(credential.credential_type, "membership");
    assert_eq!(credential.issuer_id, "coop123");
    assert_eq!(credential.holder_id, "alice");
    assert_eq!(credential.issued_at, timestamp);
    assert!(credential.expires_at.is_none());

    let expiry = timestamp + 86400;
    credential.with_expiration(expiry);
    assert_eq!(credential.expires_at, Some(expiry));

    credential.add_claim("role", "member");
    credential.add_claim("level", "full");

    assert_eq!(credential.claims.get("role"), Some(&"member".to_string()));
    assert_eq!(credential.claims.get("level"), Some(&"full".to_string()));

    let signature = vec![5, 6, 7, 8];
    credential.sign(signature);
    assert!(credential.is_signed());

    assert!(!credential.is_expired(timestamp));
    assert!(!credential.is_expired(timestamp + 43200));
    assert!(credential.is_expired(timestamp + 172800));
    assert_eq!(credential.get_namespace(), "credentials/membership/cred123");
}

#[test]
fn test_delegation_link() {
    let timestamp = now();
    let mut delegation = DelegationLink::new("del123", "alice", "bob", "voting", timestamp);

    assert_eq!(delegation.id, "del123");
    assert_eq!(delegation.delegator_id, "alice");
    assert_eq!(delegation.delegate_id, "bob");
    assert_eq!(delegation.delegation_type, "voting");
    assert_eq!(delegation.created_at, timestamp);
    assert!(delegation.permissions.is_empty());

    delegation.add_permission("vote");
    delegation.add_permission("propose");
    delegation.add_permission("vote");
    assert_eq!(delegation.permissions.len(), 2);

    assert!(delegation.has_permission("vote"));
    assert!(delegation.has_permission("propose"));
    assert!(!delegation.has_permission("veto"));

    let expiry = timestamp + 604800;
    delegation.with_expiration(expiry);
    assert_eq!(delegation.expires_at, Some(expiry));

    let signature = vec![9, 10, 11, 12];
    delegation.sign(signature);
    assert!(delegation.is_signed());
    assert_eq!(delegation.get_namespace(), "delegations/voting/del123");
}

#[test]
fn test_registry() {
    let mut r = IdentityRegistry::new();
    assert!(r.register(EntityIdentity::new("a", "member")).is_ok());
    assert_eq!(
        r.register(EntityIdentity::new("a", "service")).unwrap_err(),
        "Identity with ID a already exists"
    );
    assert!(r.register(EntityIdentity::new("b", "service")).is_ok());
    assert_eq!(r.get("a").unwrap().identity_type, "member");
    assert!(r.get("z").is_none());
    assert!(r.update(EntityIdentity::new("a", "service")).is_ok());
    assert_eq!(r.get("a").unwrap().identity_type, "service");
    assert_eq!(r.update(EntityIdentity::new("q", "x")).unwrap_err(), "Identity with ID q does not exist");
    let services: Vec<&str> = r.list_by_type("service").iter().map(|i| i.id.as_str()).collect();
    assert_eq!(services, vec!["a", "b"]);
}
