use ferrum::credential::{Error, Event, Pallet};
use ferrum::origin::{Origin, OriginRule};
use ferrum::primitives::{AccountId, CredentialAnchor, CredentialKind, CredentialStatus, Did};

fn account(n: u8) -> AccountId {
    [n; 32]
}

fn new_registry() -> Pallet {
    Pallet::new(OriginRule::SignedBy(account(1)))
}

fn test_subject() -> Did {
    Did { chain_tag: b"tw".to_vec(), id: b"subject-001".to_vec() }
}

fn test_anchor(payload_hash: [u8; 32]) -> CredentialAnchor {
    CredentialAnchor {
        subject: test_subject(),
        issuer: account(1),
        kind: CredentialKind::Age,
        payload_hash,
        status: CredentialStatus::Active,
        expires_at: None,
    }
}

#[test]
fn issue_works_and_emits_event() {
    let mut c = new_registry();
    assert_eq!(c.issue(Origin::Signed(account(1)), test_anchor([1u8; 32])), Ok(()));
    assert_eq!(c.credentials([1u8; 32]).unwrap(), &test_anchor([1u8; 32]));
    assert_eq!(c.by_subject(&test_subject()), vec![[1u8; 32]]);
    assert_eq!(
        c.events().last(),
        Some(&Event::CredentialIssued { subject: test_subject(), issuer: account(1), payload_hash: [1u8; 32] })
    );
}

#[test]
fn issue_rejects_non_issuer_origin() {
    let mut c = new_registry();
    assert_eq!(c.issue(Origin::Signed(account(2)), test_anchor([2u8; 32])), Err(Error::BadOrigin));
    assert!(c.credentials([2u8; 32]).is_none());
    assert!(c.events().is_empty());
}

#[test]
fn issue_rejects_duplicate_payload_hash() {
    let mut c = new_registry();
    assert_eq!(c.issue(Origin::Signed(account(1)), test_anchor([3u8; 32])), Ok(()));
    assert_eq!(c.issue(Origin::Signed(account(1)), test_anchor([3u8; 32])), Err(Error::CredentialAlreadyExists));
    assert_eq!(c.by_subject(&test_subject()), vec![[3u8; 32]]);
}

#[test]
fn revoke_works() {
    let mut c = new_registry();
    assert_eq!(c.issue(Origin::Signed(account(1)), test_anchor([4u8; 32])), Ok(()));
    assert_eq!(c.revoke(Origin::Signed(account(1)), [4u8; 32]), Ok(()));
    assert_eq!(c.credentials([4u8; 32]).unwrap().status, CredentialStatus::Revoked);
    assert_eq!(c.events().last(), Some(&Event::CredentialRevoked { payload_hash: [4u8; 32] }));
}

#[test]
fn revoke_unknown_credential_fails() {
    let mut c = new_registry();
    assert_eq!(c.revoke(Origin::Signed(account(1)), [9u8; 32]), Err(Error::CredentialNotFound));
}

#[test]
fn set_status_works() {
    let mut c = new_registry();
    assert_eq!(c.issue(Origin::Signed(account(1)), test_anchor([5u8; 32])), Ok(()));
    assert_eq!(c.set_status(Origin::Signed(account(1)), [5u8; 32], CredentialStatus::Suspended), Ok(()));
    assert_eq!(c.credentials([5u8; 32]).unwrap().status, CredentialStatus::Suspended);
    assert_eq!(
        c.events().last(),
        Some(&Event::CredentialStatusUpdated { payload_hash: [5u8; 32], status: CredentialStatus::Suspended })
    );
}

#[test]
fn log_presentation_works_and_prevents_replay() {
    let mut c = new_registry();
    let nullifier = [7u8; 32];
    let commitment = [8u8; 32];
    assert_eq!(c.log_presentation(Origin::Signed(account(2)), nullifier, commitment), Ok(()));
    assert_eq!(c.presentations(nullifier).unwrap(), commitment);
    assert_eq!(c.events().last(), Some(&Event::PresentationLogged { nullifier, commitment }));
    assert_eq!(
        c.log_presentation(Origin::Signed(account(2)), nullifier, commitment),
        Err(Error::PresentationAlreadyLogged)
    );
}

#[test]
fn subject_credential_cap_is_enforced() {
    let mut c = new_registry();
    for i in 0..64u8 {
        let mut h = [0u8; 32];
        h[0] = i;
        h[1] = 1;
        assert_eq!(c.issue(Origin::Signed(account(1)), test_anchor(h)), Ok(()));
    }
    assert_eq!(c.by_subject(&test_subject()).len(), 64);
    assert_eq!(c.issue(Origin::Signed(account(1)), test_anchor([200u8; 32])), Err(Error::TooManyCredentialsForSubject));
}

#[test]
fn presentation_logging_rejects_unsigned() {
    let mut c = new_registry();
    assert_eq!(c.log_presentation(Origin::Unsigned, [1u8; 32], [2u8; 32]), Err(Error::BadOrigin));
}
