use vstd::prelude::*;

verus! {

/// The ways a state transition can fail. Every failing operation returns one
/// of these as a value and leaves the module's state unchanged.
#[derive(Clone, Copy, Debug, PartialEq, Eq, Structural)]
pub enum ErrorKind {
    /// Subtraction underflow on the paying account during a transfer.
    InsufficientBalance,
    /// Addition overflow on the receiving account during a transfer.
    ArithmeticOverflow,
    /// A claim was created on content that is already registered.
    ClaimAlreadyExists,
    /// A claim was revoked on content that is not registered.
    ClaimNotFound,
    /// A claim was revoked by an account that does not own it.
    NotClaimOwner,
}

/// The result of dispatching a call to a pallet.
pub type DispatchResult = Result<(), ErrorKind>;

} // verus!
