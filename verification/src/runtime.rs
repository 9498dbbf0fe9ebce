use crate::balances;
use crate::proof_of_existence;
use vstd::prelude::*;

verus! {

/// The runtime composition: the place the pallets are wired together. Each
/// pallet exclusively owns its own store; a driving loop picks a field and
/// dispatches calls on it.
pub struct Runtime {
    pub balances: balances::Pallet,
    pub proof_of_existence: proof_of_existence::Pallet,
}

impl Runtime {
    /// A runtime whose pallets all start with empty state.
    pub fn new() -> (r: Self)
        ensures
            r.balances@ == Map::<Seq<char>, u128>::empty(),
            r.proof_of_existence@ == Map::<Seq<char>, Seq<char>>::empty(),
    {
        Runtime { balances: balances::Pallet::new(), proof_of_existence: proof_of_existence::Pallet::new() }
    }
}

} // verus!
