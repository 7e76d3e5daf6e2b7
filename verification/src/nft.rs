//! The single-asset ownership registry: an explicit state machine over
//! `Unassigned` (no holder) and `Held` (exactly one holder).
//!
//! Mutations take the authenticated caller as an explicit argument. Mint
//! and burn issue a [`ValueTransferRequest`] for the host's payment
//! executor; the core never runs the payment itself.

use vstd::prelude::*;

verus! {

/// Why a registry operation was refused.
#[derive(Clone, Copy, Debug, PartialEq, Eq)]
pub enum RegistryError {
    /// The caller fails the holder or minting-authority check.
    Unauthorized,
    /// The operation needs an assigned holder, but the asset is unassigned.
    NotHeld,
}

/// An instruction to the host's payment executor: move `amount` of held
/// value to `receiver`. The registry only issues it, never inspects the
/// outcome.
pub struct ValueTransferRequest {
    pub receiver: String,
    pub amount: u128,
}

/// The registry of one asset. `owner_id` is the fixed minting authority;
/// `token_id` and `metadata` never change after construction.
pub struct NFT {
    pub owner_id: String,
    pub token_id: u64,
    pub metadata: String,
    pub approved_account_ids: Vec<String>,
    pub token_owner: Option<String>,
}

impl NFT {
    /// The current holder's identity, `None` while the asset is unassigned.
    pub open spec fn holder(self) -> Option<Seq<char>> {
        match self.token_owner {
            Option::None => Option::None,
            Option::Some(a) => Option::Some(a@),
        }
    }

    /// The accounts holding the asset right now, as a set.
    pub open spec fn holder_set(self) -> Set<Seq<char>> {
        match self.token_owner {
            Option::None => Set::empty(),
            Option::Some(a) => Set::empty().insert(a@),
        }
    }

    /// The caller is the asset's current holder.
    pub open spec fn caller_is_holder(self, caller: Seq<char>) -> bool {
        self.holder() matches Option::Some(h) && h == caller
    }

    /// The fields fixed at construction are unchanged.
    pub open spec fn meta_preserved(pre: NFT, post: NFT) -> bool {
        &&& post.owner_id == pre.owner_id
        &&& post.token_id == pre.token_id
        &&& post.metadata == pre.metadata
    }

    /// Creates the registry: unassigned, with no approved delegates.
    pub fn new(owner_id: String, token_id: u64, metadata: String) -> (r: NFT)
        ensures
            r.owner_id == owner_id,
            r.token_id == token_id,
            r.metadata == metadata,
            r.approved_account_ids@.len() == 0,
            r.token_owner is None,
    {
        NFT {
            owner_id,
            token_id,
            metadata,
            approved_account_ids: Vec::new(),
            token_owner: None,
        }
    }

    /// The asset's metadata; a pure read.
    pub fn get_metadata(&self) -> (r: String)
        ensures
            r == self.metadata,
    {
        self.metadata.clone()
    }

    /// Hands the asset to `new_owner_id`. Only the current holder may do
    /// so; approved delegates are retained across the handover.
    pub fn transfer(&mut self, caller: &String, new_owner_id: &String) -> (r: Result<
        (),
        RegistryError,
    >)
        ensures
            (r is Ok) <==> old(self).caller_is_holder(caller@),
            (r == Err::<(), RegistryError>(RegistryError::NotHeld)) <==> old(self).holder()
                is None,
            (r == Err::<(), RegistryError>(RegistryError::Unauthorized)) <==> (old(self).holder()
                matches Option::Some(h) && h != caller@),
            r is Ok ==> final(self).token_owner == Option::Some(*new_owner_id),
            r is Ok ==> NFT::meta_preserved(*old(self), *final(self))
                && final(self).approved_account_ids == old(self).approved_account_ids,
            r is Err ==> *final(self) == *old(self),
    {
        let authorized: bool = match &self.token_owner {
            None => {
                return Err(RegistryError::NotHeld);
            },
            Some(holder) => *holder == *caller,
        };
        if !authorized {
            return Err(RegistryError::Unauthorized);
        }
        self.token_owner = Some(new_owner_id.clone());
        Ok(())
    }

    /// Appends `account_id` to the approved delegates. Only the current
    /// holder may do so; duplicates are recorded as given.
    pub fn approve(&mut self, caller: &String, account_id: &String) -> (r: Result<
        (),
        RegistryError,
    >)
        ensures
            (r is Ok) <==> old(self).caller_is_holder(caller@),
            (r == Err::<(), RegistryError>(RegistryError::NotHeld)) <==> old(self).holder()
                is None,
            (r == Err::<(), RegistryError>(RegistryError::Unauthorized)) <==> (old(self).holder()
                matches Option::Some(h) && h != caller@),
            r is Ok ==> final(self).approved_account_ids@ == old(self).approved_account_ids@.push(
                *account_id,
            ),
            r is Ok ==> NFT::meta_preserved(*old(self), *final(self)) && final(self).token_owner
                == old(self).token_owner,
            r is Err ==> *final(self) == *old(self),
    {
        let authorized: bool = match &self.token_owner {
            None => {
                return Err(RegistryError::NotHeld);
            },
            Some(holder) => *holder == *caller,
        };
        if !authorized {
            return Err(RegistryError::Unauthorized);
        }
        self.approved_account_ids.push(account_id.clone());
        Ok(())
    }

    /// A snapshot of the approved delegates, in insertion order.
    pub fn get_approved_account_ids(&self) -> (r: Vec<String>)
        ensures
            r@ == self.approved_account_ids@,
    {
        let n: usize = self.approved_account_ids.len();
        let mut out: Vec<String> = Vec::new();
        let mut i: usize = 0;
        proof {
            assert(out@ =~= self.approved_account_ids@.subrange(0, 0));
        }
        while i < n
            invariant
                n == self.approved_account_ids@.len(),
                i <= n,
                out@ == self.approved_account_ids@.subrange(0, i as int),
            decreases n - i,
        {
            out.push(self.approved_account_ids[i].clone());
            proof {
                assert(out@ =~= self.approved_account_ids@.subrange(0, i as int + 1));
            }
            i = i + 1;
        }
        proof {
            assert(self.approved_account_ids@.subrange(0, n as int) =~= self.approved_account_ids@);
        }
        out
    }

    /// Assigns the asset to `account_id` and issues a request to forward
    /// the attached deposit to that account. Only the minting authority
    /// may do so; delegates from any earlier cycle are retained.
    pub fn mint(&mut self, caller: &String, account_id: &String, attached_deposit: u128) -> (r:
        Result<ValueTransferRequest, RegistryError>)
        ensures
            (r is Ok) <==> caller@ == old(self).owner_id@,
            (r == Err::<ValueTransferRequest, RegistryError>(RegistryError::Unauthorized)) <==>
                caller@ != old(self).owner_id@,
            r is Ok ==> final(self).token_owner == Option::Some(*account_id),
            r matches Ok(req) ==> req.receiver == *account_id && req.amount == attached_deposit,
            r is Ok ==> NFT::meta_preserved(*old(self), *final(self))
                && final(self).approved_account_ids == old(self).approved_account_ids,
            r is Err ==> *final(self) == *old(self),
    {
        if !(*caller == self.owner_id) {
            return Err(RegistryError::Unauthorized);
        }
        self.token_owner = Some(account_id.clone());
        Ok(ValueTransferRequest { receiver: account_id.clone(), amount: attached_deposit })
    }

    /// Unassigns the asset and issues a request to forward the registry's
    /// held value balance to the caller. Only the current holder may do
    /// so; delegates are retained.
    pub fn burn(&mut self, caller: &String, held_balance: u128) -> (r: Result<
        ValueTransferRequest,
        RegistryError,
    >)
        ensures
            (r is Ok) <==> old(self).caller_is_holder(caller@),
            (r == Err::<ValueTransferRequest, RegistryError>(RegistryError::NotHeld)) <==> old(
                self,
            ).holder() is None,
            (r == Err::<ValueTransferRequest, RegistryError>(RegistryError::Unauthorized)) <==> (
            old(self).holder() matches Option::Some(h) && h != caller@),
            r is Ok ==> final(self).token_owner is None,
            r matches Ok(req) ==> req.receiver == *caller && req.amount == held_balance,
            r is Ok ==> NFT::meta_preserved(*old(self), *final(self))
                && final(self).approved_account_ids == old(self).approved_account_ids,
            r is Err ==> *final(self) == *old(self),
    {
        let authorized: bool = match &self.token_owner {
            None => {
                return Err(RegistryError::NotHeld);
            },
            Some(holder) => *holder == *caller,
        };
        if !authorized {
            return Err(RegistryError::Unauthorized);
        }
        self.token_owner = None;
        Ok(ValueTransferRequest { receiver: caller.clone(), amount: held_balance })
    }
}

/// Single-holder law: at any time the asset is held by no account or by
/// exactly one, and it is unassigned exactly when that set is empty.
pub proof fn lemma_single_holder(n: NFT)
    ensures
        n.holder_set().finite(),
        n.holder_set().len() <= 1,
        (n.holder() is None) <==> n.holder_set().len() == 0,
{
    match n.token_owner {
        Option::None => {
            assert(n.holder_set().len() == 0);
        },
        Option::Some(a) => {
            assert(n.holder_set().len() == 1);
        },
    }
}

} // verus!
