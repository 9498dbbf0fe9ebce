use pallets::proof_of_existence;
use pallets::support::ErrorKind;

#[test]
fn basic_proof_of_existence() {
    let mut poe = proof_of_existence::Pallet::new();

    let alice: String = "alice".to_string();
    let bob: String = "bob".to_string();
    let document: String = "my document".to_string();

    // The initial state holds no claim.
    assert_eq!(poe.get_claim(&document), None);

    // Creating a claim succeeds and a lookup returns the creator.
    assert_eq!(poe.create_claim(alice.clone(), document.clone()), Ok(()));
    assert_eq!(poe.get_claim(&document), Some(&alice));

    // A second creation fails, whoever the caller is.
    assert_eq!(
        poe.create_claim(bob.clone(), document.clone()),
        Err(ErrorKind::ClaimAlreadyExists)
    );
    assert_eq!(
        poe.create_claim(alice.clone(), document.clone()),
        Err(ErrorKind::ClaimAlreadyExists)
    );

    // Only the owner may revoke.
    assert_eq!(
        poe.revoke_claim(bob.clone(), document.clone()),
        Err(ErrorKind::NotClaimOwner)
    );
    assert_eq!(poe.get_claim(&document), Some(&alice));
    assert_eq!(poe.revoke_claim(alice.clone(), document.clone()), Ok(()));
    assert_eq!(poe.get_claim(&document), None);

    // Revoking unregistered content fails.
    assert_eq!(
        poe.revoke_claim(alice.clone(), document.clone()),
        Err(ErrorKind::ClaimNotFound)
    );
}

#[test]
fn create_then_get_returns_creator() {
    let mut poe = proof_of_existence::Pallet::new();

    let alice: String = "alice".to_string();
    let content: String = "x".to_string();

    assert_eq!(poe.create_claim(alice.clone(), content.clone()), Ok(()));
    assert_eq!(poe.get_claim(&content), Some(&alice));
}

#[test]
fn revoke_claim_ownership_scenario() {
    let mut poe = proof_of_existence::Pallet::new();

    let alice: String = "alice".to_string();
    let bob: String = "bob".to_string();
    let content: String = "x".to_string();

    assert_eq!(poe.create_claim(alice.clone(), content.clone()), Ok(()));
    assert_eq!(
        poe.revoke_claim(bob.clone(), content.clone()),
        Err(ErrorKind::NotClaimOwner)
    );
    assert_eq!(poe.revoke_claim(alice.clone(), content.clone()), Ok(()));
    assert_eq!(poe.get_claim(&content), None);
}

#[test]
fn revoked_content_can_be_claimed_again() {
    let mut poe = proof_of_existence::Pallet::new();

    let alice: String = "alice".to_string();
    let bob: String = "bob".to_string();
    let content: String = "x".to_string();

    assert_eq!(poe.create_claim(alice.clone(), content.clone()), Ok(()));
    assert_eq!(poe.revoke_claim(alice.clone(), content.clone()), Ok(()));
    assert_eq!(poe.create_claim(bob.clone(), content.clone()), Ok(()));
    assert_eq!(poe.get_claim(&content), Some(&bob));
}

#[test]
fn dispatch_create_and_revoke_calls() {
    let mut poe = proof_of_existence::Pallet::new();

    let alice: String = "alice".to_string();
    let content: String = "x".to_string();

    let created = poe.dispatch(
        alice.clone(),
        proof_of_existence::Call::CreateClaim { claim: content.clone() },
    );
    assert_eq!(created, Ok(()));
    assert_eq!(poe.get_claim(&content), Some(&alice));

    let revoked = poe.dispatch(
        alice.clone(),
        proof_of_existence::Call::RevokeClaim { claim: content.clone() },
    );
    assert_eq!(revoked, Ok(()));
    assert_eq!(poe.get_claim(&content), None);
}

#[test]
fn dispatch_propagates_errors_unchanged() {
    let mut poe = proof_of_existence::Pallet::new();

    let alice: String = "alice".to_string();
    let bob: String = "bob".to_string();
    let content: String = "x".to_string();

    assert_eq!(
        poe.dispatch(
            alice.clone(),
            proof_of_existence::Call::RevokeClaim { claim: content.clone() },
        ),
        Err(ErrorKind::ClaimNotFound)
    );
    assert_eq!(poe.create_claim(alice.clone(), content.clone()), Ok(()));
    assert_eq!(
        poe.dispatch(
            bob.clone(),
            proof_of_existence::Call::CreateClaim { claim: content.clone() },
        ),
        Err(ErrorKind::ClaimAlreadyExists)
    );
    assert_eq!(
        poe.dispatch(
            bob.clone(),
            proof_of_existence::Call::RevokeClaim { claim: content.clone() },
        ),
        Err(ErrorKind::NotClaimOwner)
    );
    assert_eq!(poe.get_claim(&content), Some(&alice));
}
