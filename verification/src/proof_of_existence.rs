use crate::store::StrMap;
use crate::support::{DispatchResult, ErrorKind};
use vstd::prelude::*;

verus! {

/// The content-claim registry: a pallet mapping claim content to the
/// account that owns the claim. A content value maps to at most one owner
/// at a time.
pub struct Pallet {
    claims: StrMap<String>,
}

/// The outcome of creating a claim on the registry `m`: the new registry
/// with `content` owned by `caller`, or `ClaimAlreadyExists` when the
/// content is already registered — to anyone, the caller included.
pub open spec fn spec_create(
    m: Map<Seq<char>, Seq<char>>,
    caller: Seq<char>,
    content: Seq<char>,
) -> Result<Map<Seq<char>, Seq<char>>, ErrorKind> {
    if m.contains_key(content) {
        Err(ErrorKind::ClaimAlreadyExists)
    } else {
        Ok(m.insert(content, caller))
    }
}

/// The outcome of revoking a claim on the registry `m`: the registry
/// without `content`, or `ClaimNotFound` when the content is unregistered,
/// or `NotClaimOwner` when the registered owner differs from `caller`.
pub open spec fn spec_revoke(
    m: Map<Seq<char>, Seq<char>>,
    caller: Seq<char>,
    content: Seq<char>,
) -> Result<Map<Seq<char>, Seq<char>>, ErrorKind> {
    if !m.contains_key(content) {
        Err(ErrorKind::ClaimNotFound)
    } else if m[content] != caller {
        Err(ErrorKind::NotClaimOwner)
    } else {
        Ok(m.remove(content))
    }
}

impl View for Pallet {
    type V = Map<Seq<char>, Seq<char>>;

    closed spec fn view(&self) -> Map<Seq<char>, Seq<char>> {
        Map::new(
            |content: Seq<char>| self.claims@.contains_key(content),
            |content: Seq<char>| self.claims@[content]@,
        )
    }
}

impl Pallet {
    /// A registry with no claims.
    pub fn new() -> (r: Self)
        ensures
            r@ == Map::<Seq<char>, Seq<char>>::empty(),
    {
        let r = Pallet { claims: StrMap::new() };
        proof {
            assert(r@ =~= Map::<Seq<char>, Seq<char>>::empty());
        }
        r
    }

    /// The owner of the claim on `content`, when one is registered.
    pub fn get_claim(&self, content: &String) -> (r: Option<&String>)
        ensures
            match r {
                Some(owner) => self@.contains_key(content@) && owner@ == self@[content@],
                None => !self@.contains_key(content@),
            },
    {
        self.claims.get(content)
    }

    /// Registers `content` as owned by `caller`, unless it is already
    /// registered; the registry is unchanged on failure.
    pub fn create_claim(&mut self, caller: String, content: String) -> (r: DispatchResult)
        ensures
            match spec_create(old(self)@, caller@, content@) {
                Ok(m) => r == Ok::<(), ErrorKind>(()) && final(self)@ == m,
                Err(e) => r == Err::<(), ErrorKind>(e) && final(self)@ == old(self)@,
            },
    {
        match self.claims.get(&content) {
            Some(_) => Err(ErrorKind::ClaimAlreadyExists),
            None => {
                self.claims.insert(content, caller);
                proof {
                    assert(self@ =~= spec_create(old(self)@, caller@, content@)->Ok_0);
                }
                Ok(())
            },
        }
    }

    /// Removes the claim on `content`, provided it is registered and
    /// `caller` is its owner — the check compares owner values, not
    /// identities; the registry is unchanged on failure.
    pub fn revoke_claim(&mut self, caller: String, content: String) -> (r: DispatchResult)
        ensures
            match spec_revoke(old(self)@, caller@, content@) {
                Ok(m) => r == Ok::<(), ErrorKind>(()) && final(self)@ == m,
                Err(e) => r == Err::<(), ErrorKind>(e) && final(self)@ == old(self)@,
            },
    {
        match self.claims.get(&content) {
            None => {
                return Err(ErrorKind::ClaimNotFound);
            },
            Some(owner) => {
                if *owner != caller {
                    return Err(ErrorKind::NotClaimOwner);
                }
            },
        }
        self.claims.remove(&content);
        proof {
            assert(self@ =~= spec_revoke(old(self)@, caller@, content@)->Ok_0);
        }
        Ok(())
    }
}

/// The closed set of mutating operations this pallet exposes to the
/// dispatcher. A call carries only the operation's data; the caller is
/// supplied separately by the dispatch contract.
pub enum Call {
    CreateClaim { claim: String },
    RevokeClaim { claim: String },
}

impl Pallet {
    /// Routes a call to the pallet method it names, forwarding the caller
    /// and the call's payload and returning the method's result unchanged.
    pub fn dispatch(&mut self, caller: String, call: Call) -> (r: DispatchResult)
        ensures
            match call {
                Call::CreateClaim { claim } => match spec_create(old(self)@, caller@, claim@) {
                    Ok(m) => r == Ok::<(), ErrorKind>(()) && final(self)@ == m,
                    Err(e) => r == Err::<(), ErrorKind>(e) && final(self)@ == old(self)@,
                },
                Call::RevokeClaim { claim } => match spec_revoke(old(self)@, caller@, claim@) {
                    Ok(m) => r == Ok::<(), ErrorKind>(()) && final(self)@ == m,
                    Err(e) => r == Err::<(), ErrorKind>(e) && final(self)@ == old(self)@,
                },
            },
    {
        match call {
            Call::CreateClaim { claim } => self.create_claim(caller, claim),
            Call::RevokeClaim { claim } => self.revoke_claim(caller, claim),
        }
    }
}

/// Creating a claim on unregistered content succeeds, a lookup then
/// returns the creator as the owner, and a second creation on the same
/// content — by any caller — fails with `ClaimAlreadyExists`.
pub proof fn lemma_create_then_get(m: Map<Seq<char>, Seq<char>>, caller: Seq<char>, content: Seq<char>)
    requires
        !m.contains_key(content),
    ensures
        spec_create(m, caller, content) is Ok,
        ({
            let after = spec_create(m, caller, content)->Ok_0;
            after.contains_key(content) && after[content] == caller && forall|other: Seq<char>|
                spec_create(after, other, content) == Err::<Map<Seq<char>, Seq<char>>, ErrorKind>(
                    ErrorKind::ClaimAlreadyExists,
                )
        }),
{
}

/// Revoking a claim held by someone else fails with `NotClaimOwner`, while
/// revoking one's own claim succeeds and leaves the content unregistered,
/// so a subsequent lookup returns no owner.
pub proof fn lemma_revoke_ownership_gate(
    m: Map<Seq<char>, Seq<char>>,
    caller: Seq<char>,
    content: Seq<char>,
)
    requires
        m.contains_key(content),
    ensures
        m[content] != caller ==> spec_revoke(m, caller, content) == Err::<
            Map<Seq<char>, Seq<char>>,
            ErrorKind,
        >(ErrorKind::NotClaimOwner),
        m[content] == caller ==> spec_revoke(m, caller, content) is Ok && !(spec_revoke(
            m,
            caller,
            content,
        )->Ok_0).contains_key(content),
{
}

} // verus!
