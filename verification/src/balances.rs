use crate::store::StrMap;
use crate::support::{DispatchResult, ErrorKind};
use vstd::prelude::*;

verus! {

/// The account-balance ledger: a pallet mapping account identities to
/// balances. An account absent from the ledger has balance zero.
pub struct Pallet {
    balances: StrMap<u128>,
}

/// The balance of `who` in the ledger `m`: the stored value, or zero when
/// the account is absent.
pub open spec fn balance_of(m: Map<Seq<char>, u128>, who: Seq<char>) -> u128 {
    if m.contains_key(who) {
        m[who]
    } else {
        0
    }
}

/// The outcome of a transfer on the ledger `m`: either the new ledger, or
/// the error that the transfer fails with. The payer's checked subtraction
/// is decided first, the recipient's checked addition second; a transfer to
/// oneself moves the amount out and back in, so it never overflows and
/// leaves the balance unchanged.
pub open spec fn spec_transfer(
    m: Map<Seq<char>, u128>,
    caller: Seq<char>,
    to: Seq<char>,
    amount: u128,
) -> Result<Map<Seq<char>, u128>, ErrorKind> {
    let caller_balance = balance_of(m, caller);
    let to_balance = balance_of(m, to);
    if caller_balance < amount {
        Err(ErrorKind::InsufficientBalance)
    } else if caller != to && to_balance + amount > u128::MAX {
        Err(ErrorKind::ArithmeticOverflow)
    } else if caller == to {
        Ok(m.insert(caller, caller_balance))
    } else {
        Ok(
            m.insert(caller, (caller_balance - amount) as u128).insert(
                to,
                (to_balance + amount) as u128,
            ),
        )
    }
}

impl View for Pallet {
    type V = Map<Seq<char>, u128>;

    closed spec fn view(&self) -> Map<Seq<char>, u128> {
        self.balances@
    }
}

impl Pallet {
    /// A ledger with no accounts.
    pub fn new() -> (r: Self)
        ensures
            r@ == Map::<Seq<char>, u128>::empty(),
    {
        Pallet { balances: StrMap::new() }
    }

    /// Unconditional upsert of an account's balance; the sole mutation
    /// primitive for the ledger.
    pub fn set_balance(&mut self, who: &String, amount: u128)
        ensures
            final(self)@ == old(self)@.insert(who@, amount),
    {
        self.balances.insert(who.clone(), amount);
    }

    /// The stored balance of `who`, or zero when the account is absent.
    pub fn get_balance(&self, who: &String) -> (r: u128)
        ensures
            r == balance_of(self@, who@),
    {
        match self.balances.get(who) {
            Some(b) => *b,
            None => 0,
        }
    }

    /// Moves `amount` from `caller` to `to` with checked arithmetic,
    /// deciding both checks before committing either side; on any failure
    /// the ledger is unchanged.
    pub fn transfer(&mut self, caller: String, to: String, amount: u128) -> (r: DispatchResult)
        ensures
            match spec_transfer(old(self)@, caller@, to@, amount) {
                Ok(m) => r == Ok::<(), ErrorKind>(()) && final(self)@ == m,
                Err(e) => r == Err::<(), ErrorKind>(e) && final(self)@ == old(self)@,
            },
    {
        let caller_balance = self.get_balance(&caller);
        let to_balance = self.get_balance(&to);

        let new_caller_balance = match caller_balance.checked_sub(amount) {
            Some(b) => b,
            None => {
                return Err(ErrorKind::InsufficientBalance);
            },
        };
        let receiving_balance = if caller == to {
            new_caller_balance
        } else {
            to_balance
        };
        let new_to_balance = match receiving_balance.checked_add(amount) {
            Some(b) => b,
            None => {
                return Err(ErrorKind::ArithmeticOverflow);
            },
        };

        self.set_balance(&caller, new_caller_balance);
        self.set_balance(&to, new_to_balance);
        proof {
            if caller@ == to@ {
                assert(old(self)@.insert(caller@, new_caller_balance).insert(to@, new_to_balance)
                    =~= old(self)@.insert(caller@, caller_balance));
            }
        }
        Ok(())
    }
}

/// The closed set of mutating operations this pallet exposes to the
/// dispatcher. A call carries only the operation's data; the caller is
/// supplied separately by the dispatch contract.
pub enum Call {
    Transfer { to: String, amount: u128 },
}

impl Pallet {
    /// Routes a call to the pallet method it names, forwarding the caller
    /// and the call's payload and returning the method's result unchanged.
    pub fn dispatch(&mut self, caller: String, call: Call) -> (r: DispatchResult)
        ensures
            match call {
                Call::Transfer { to, amount } => match spec_transfer(
                    old(self)@,
                    caller@,
                    to@,
                    amount,
                ) {
                    Ok(m) => r == Ok::<(), ErrorKind>(()) && final(self)@ == m,
                    Err(e) => r == Err::<(), ErrorKind>(e) && final(self)@ == old(self)@,
                },
            },
    {
        match call {
            Call::Transfer { to, amount } => self.transfer(caller, to, amount),
        }
    }
}

/// An account the ledger holds no entry for — one never funded by
/// `set_balance` nor credited by a transfer — has balance zero.
pub proof fn lemma_absent_account_balance_zero(m: Map<Seq<char>, u128>, who: Seq<char>)
    requires
        !m.contains_key(who),
    ensures
        balance_of(m, who) == 0,
{
}

/// Conservation of value: a successful transfer leaves the sum of the
/// caller's and the recipient's balances unchanged.
pub proof fn lemma_transfer_conserves_value(
    m: Map<Seq<char>, u128>,
    caller: Seq<char>,
    to: Seq<char>,
    amount: u128,
)
    requires
        spec_transfer(m, caller, to, amount) is Ok,
    ensures
        ({
            let after = spec_transfer(m, caller, to, amount)->Ok_0;
            balance_of(after, caller) + balance_of(after, to) == balance_of(m, caller)
                + balance_of(m, to)
        }),
{
}

/// A transfer of more than the caller's balance fails with
/// `InsufficientBalance`; the ledger is unchanged by `transfer`'s contract
/// on every error.
pub proof fn lemma_transfer_insufficient_balance(
    m: Map<Seq<char>, u128>,
    caller: Seq<char>,
    to: Seq<char>,
    amount: u128,
)
    requires
        amount > balance_of(m, caller),
    ensures
        spec_transfer(m, caller, to, amount) == Err::<Map<Seq<char>, u128>, ErrorKind>(
            ErrorKind::InsufficientBalance,
        ),
{
}

/// A transfer whose amount the recipient's balance cannot absorb within
/// `u128` fails with `ArithmeticOverflow`; the ledger is unchanged by
/// `transfer`'s contract on every error. A transfer to oneself is exempt:
/// it moves the amount out before moving it back in, so it cannot
/// overflow.
pub proof fn lemma_transfer_overflow(
    m: Map<Seq<char>, u128>,
    caller: Seq<char>,
    to: Seq<char>,
    amount: u128,
)
    requires
        balance_of(m, caller) >= amount,
        caller != to,
        balance_of(m, to) + amount > u128::MAX,
    ensures
        spec_transfer(m, caller, to, amount) == Err::<Map<Seq<char>, u128>, ErrorKind>(
            ErrorKind::ArithmeticOverflow,
        ),
{
}

} // verus!
