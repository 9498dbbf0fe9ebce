use pallets::runtime::Runtime;
use pallets::support::ErrorKind;
use pallets::{balances, proof_of_existence};

#[test]
fn runtime_starts_with_empty_pallets() {
    let runtime = Runtime::new();

    assert_eq!(runtime.balances.get_balance(&"alice".to_string()), 0);
    assert_eq!(runtime.proof_of_existence.get_claim(&"x".to_string()), None);
}

#[test]
fn runtime_routes_calls_to_both_pallets() {
    let mut runtime = Runtime::new();

    let alice: String = "alice".to_string();
    let bob: String = "bob".to_string();

    runtime.balances.set_balance(&alice, 100);
    assert_eq!(
        runtime.balances.dispatch(
            alice.clone(),
            balances::Call::Transfer { to: bob.clone(), amount: 30 },
        ),
        Ok(())
    );
    assert_eq!(runtime.balances.get_balance(&alice), 70);
    assert_eq!(runtime.balances.get_balance(&bob), 30);

    assert_eq!(
        runtime.proof_of_existence.dispatch(
            alice.clone(),
            proof_of_existence::Call::CreateClaim { claim: "x".to_string() },
        ),
        Ok(())
    );
    assert_eq!(
        runtime.proof_of_existence.get_claim(&"x".to_string()),
        Some(&alice)
    );
    assert_eq!(
        runtime.proof_of_existence.dispatch(
            bob.clone(),
            proof_of_existence::Call::RevokeClaim { claim: "x".to_string() },
        ),
        Err(ErrorKind::NotClaimOwner)
    );
}
