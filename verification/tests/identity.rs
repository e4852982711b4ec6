use ferrum::identity::{Error, Event, Pallet};
use ferrum::origin::{Origin, OriginRule};
use ferrum::primitives::{AccountId, Did, DidDocument, DidKeyRef, KeyKind};

fn account(n: u8) -> AccountId {
    [n; 32]
}

fn new_registry() -> Pallet {
    Pallet::new(b"tw".to_vec(), OriginRule::SignedBy(account(1)), OriginRule::Root)
}

fn test_did() -> Did {
    Did { chain_tag: b"tw".to_vec(), id: b"subject-001".to_vec() }
}

fn foreign_did() -> Did {
    Did { chain_tag: b"jp".to_vec(), id: b"subject-jp".to_vec() }
}

fn test_doc(did: Did, controller: AccountId, doc_hash: [u8; 32]) -> DidDocument {
    DidDocument { did, controller, doc_hash, keys: Vec::new(), revocation_commitment: [0u8; 32], anchored_at: 0 }
}

#[test]
fn anchor_did_works_and_emits_event() {
    let mut id = new_registry();
    assert_eq!(id.anchor_did(Origin::Signed(account(1)), test_doc(test_did(), account(1), [1u8; 32])), Ok(()));
    assert_eq!(id.dids(&test_did()).unwrap(), &test_doc(test_did(), account(1), [1u8; 32]));
    assert_eq!(id.did_by_controller(&account(1)).unwrap(), &test_did());
    assert_eq!(
        id.events().last(),
        Some(&Event::DidAnchored { did: test_did(), controller: account(1), doc_hash: [1u8; 32] })
    );
    assert!(id.did_exists(&test_did()));
}

#[test]
fn anchor_did_rejects_non_issuer_origin() {
    let mut id = new_registry();
    assert_eq!(
        id.anchor_did(Origin::Signed(account(2)), test_doc(test_did(), account(2), [2u8; 32])),
        Err(Error::BadOrigin)
    );
    assert!(!id.did_exists(&test_did()));
}

#[test]
fn anchor_did_rejects_wrong_chain_tag() {
    let mut id = new_registry();
    assert_eq!(
        id.anchor_did(Origin::Signed(account(1)), test_doc(foreign_did(), account(1), [3u8; 32])),
        Err(Error::WrongChainTag)
    );
}

#[test]
fn anchor_did_rejects_duplicate() {
    let mut id = new_registry();
    assert_eq!(id.anchor_did(Origin::Signed(account(1)), test_doc(test_did(), account(1), [4u8; 32])), Ok(()));
    assert_eq!(
        id.anchor_did(Origin::Signed(account(1)), test_doc(test_did(), account(1), [4u8; 32])),
        Err(Error::AlreadyExists)
    );
}

#[test]
fn rotate_keys_works() {
    let mut id = new_registry();
    assert_eq!(id.anchor_did(Origin::Signed(account(1)), test_doc(test_did(), account(1), [5u8; 32])), Ok(()));
    let keys = vec![DidKeyRef { kind: KeyKind::Sr25519, key_hash: [9u8; 32] }];
    assert_eq!(id.rotate_keys(Origin::Signed(account(1)), test_did(), keys.clone()), Ok(()));
    assert_eq!(id.dids(&test_did()).unwrap().keys, keys);
    assert_eq!(id.events().last(), Some(&Event::KeysRotated { did: test_did(), key_count: 1 }));
}

#[test]
fn rotate_keys_rejects_non_controller() {
    let mut id = new_registry();
    assert_eq!(id.anchor_did(Origin::Signed(account(1)), test_doc(test_did(), account(1), [6u8; 32])), Ok(()));
    assert_eq!(id.rotate_keys(Origin::Signed(account(2)), test_did(), Vec::new()), Err(Error::NotController));
}

#[test]
fn rotate_keys_rejects_unknown_did() {
    let mut id = new_registry();
    assert_eq!(id.rotate_keys(Origin::Signed(account(1)), test_did(), Vec::new()), Err(Error::NotFound));
}

#[test]
fn update_revocation_works() {
    let mut id = new_registry();
    assert_eq!(id.update_revocation(Origin::Signed(account(1)), [7u8; 32]), Ok(()));
    assert_eq!(id.revocation_accumulator(), [7u8; 32]);
    assert_eq!(id.events().last(), Some(&Event::RevocationUpdated { commitment: [7u8; 32] }));
}

#[test]
fn update_revocation_rejects_non_issuer() {
    let mut id = new_registry();
    assert_eq!(id.update_revocation(Origin::Signed(account(2)), [8u8; 32]), Err(Error::BadOrigin));
    assert_eq!(id.revocation_accumulator(), [0u8; 32]);
}

#[test]
fn register_issuer_works_via_governance() {
    let mut id = new_registry();
    assert_eq!(id.register_issuer(Origin::Root, account(42)), Ok(()));
    assert!(id.is_accredited_issuer(&account(42)));
    assert_eq!(id.events().last(), Some(&Event::IssuerRegistered { who: account(42) }));
}

#[test]
fn register_issuer_rejects_non_governance() {
    let mut id = new_registry();
    assert_eq!(id.register_issuer(Origin::Signed(account(1)), account(42)), Err(Error::BadOrigin));
    assert!(!id.is_accredited_issuer(&account(42)));
}

#[test]
fn rotate_keys_stamps_the_current_block() {
    let mut id = new_registry();
    assert_eq!(id.anchor_did(Origin::Signed(account(1)), test_doc(test_did(), account(1), [5u8; 32])), Ok(()));
    id.set_block_number(17);
    assert_eq!(id.rotate_keys(Origin::Signed(account(1)), test_did(), Vec::new()), Ok(()));
    assert_eq!(id.resolve(&test_did()).unwrap().anchored_at, 17);
}
