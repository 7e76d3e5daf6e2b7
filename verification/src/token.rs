//! The fungible-token ledger: per-account balances with delegated
//! spending allowances.
//!
//! Every mutating operation takes the authenticated caller as an explicit
//! argument; the host boundary supplies that identity. A transfer either
//! applies in full or leaves the ledger exactly as it was.

use vstd::prelude::*;

use crate::store::{
    allowance_of, amount_of, keys_unique, lemma_amount_le_sum, lookup_allowance, lookup_amount,
    pair_keys_unique, store_allowance, store_amount, sum_of,
};

verus! {

/// Why a ledger operation was refused.
#[derive(Clone, Copy, Debug, PartialEq, Eq)]
pub enum TokenError {
    /// The transfer amount exceeds the caller's balance.
    InsufficientBalance,
    /// The recipient's balance would exceed the representable range.
    ArithmeticOverflow,
}

/// The ledger's rows: balances keyed by account, allowances keyed by an
/// `(owner, spender)` pair. A key that was never written reads as zero.
pub struct TokenStorage {
    pub balances: Vec<(String, u128)>,
    pub allowances: Vec<((String, String), u128)>,
}

impl Default for TokenStorage {
    /// An empty store: every balance and every allowance reads as zero.
    fn default() -> (r: Self)
        ensures
            r.balances@.len() == 0,
            r.allowances@.len() == 0,
    {
        TokenStorage { balances: Vec::new(), allowances: Vec::new() }
    }
}

/// The fungible-token ledger. `name`, `symbol`, `decimals` and
/// `total_supply` are fixed at construction.
pub struct Token {
    pub name: String,
    pub symbol: String,
    pub decimals: u8,
    pub total_supply: u128,
    pub storage: TokenStorage,
}

impl Token {
    /// The balance recorded for `account`, zero for an account never written.
    pub open spec fn balance_spec(self, account: Seq<char>) -> u128 {
        amount_of(self.storage.balances@, account)
    }

    /// The remaining amount `spender` may move out of `owner`'s balance.
    pub open spec fn allowance_spec(self, owner: Seq<char>, spender: Seq<char>) -> u128 {
        allowance_of(self.storage.allowances@, owner, spender)
    }

    /// Conservation: the balance rows sum exactly to the total supply.
    pub open spec fn conserves(self) -> bool {
        sum_of(self.storage.balances@) == self.total_supply
    }

    /// A well-formed ledger: distinct rows per key, and conservation.
    pub open spec fn wf(self) -> bool {
        &&& keys_unique(self.storage.balances@)
        &&& pair_keys_unique(self.storage.allowances@)
        &&& self.conserves()
    }

    /// A transfer of `amount` from `caller` to `recipient` can go through:
    /// the caller covers it, and the recipient's balance stays representable.
    pub open spec fn can_transfer(self, caller: Seq<char>, recipient: Seq<char>, amount: u128) -> bool {
        &&& self.balance_spec(caller) >= amount
        &&& (caller == recipient || self.balance_spec(recipient) + amount <= u128::MAX)
    }

    /// The caller cannot cover `amount`.
    pub open spec fn insufficient(self, caller: Seq<char>, amount: u128) -> bool {
        self.balance_spec(caller) < amount
    }

    /// The caller covers `amount`, but crediting the recipient would leave
    /// that row outside the representable range.
    pub open spec fn credit_overflows(
        self,
        caller: Seq<char>,
        recipient: Seq<char>,
        amount: u128,
    ) -> bool {
        &&& self.balance_spec(caller) >= amount
        &&& caller != recipient
        &&& self.balance_spec(recipient) + amount > u128::MAX
    }

    /// Creates the ledger, minting the whole supply to `caller`.
    pub fn new(
        name: String,
        symbol: String,
        decimals: u8,
        total_supply: u128,
        caller: &String,
    ) -> (r: Token)
        ensures
            r.wf(),
            r.name == name,
            r.symbol == symbol,
            r.decimals == decimals,
            r.total_supply == total_supply,
            r.balance_spec(caller@) == total_supply,
            forall|a: Seq<char>| a != caller@ ==> r.balance_spec(a) == 0,
            forall|o: Seq<char>, s: Seq<char>| r.allowance_spec(o, s) == 0,
    {
        let mut storage = TokenStorage::default();
        store_amount(&mut storage.balances, caller, total_supply);
        Token { name, symbol, decimals, total_supply, storage }
    }

    /// Moves `amount` from the caller's balance to the recipient's, both
    /// updates visible together, or fails with no effect at all.
    pub fn transfer(&mut self, caller: &String, recipient: &String, amount: u128) -> (r: Result<
        bool,
        TokenError,
    >)
        requires
            keys_unique(old(self).storage.balances@),
        ensures
            keys_unique(final(self).storage.balances@),
            (r is Ok) <==> old(self).can_transfer(caller@, recipient@, amount),
            r is Ok ==> r == Ok::<bool, TokenError>(true),
            (r == Err::<bool, TokenError>(TokenError::InsufficientBalance)) <==> old(
                self,
            ).insufficient(caller@, amount),
            (r == Err::<bool, TokenError>(TokenError::ArithmeticOverflow)) <==> old(
                self,
            ).credit_overflows(caller@, recipient@, amount),
            r is Ok ==> transfer_post(*old(self), *final(self), caller@, recipient@, amount),
            r is Ok && caller@ == recipient@ ==> *final(self) == *old(self),
            r is Err ==> *final(self) == *old(self),
            old(self).wf() ==> final(self).wf(),
    {
        let sender_balance = lookup_amount(&self.storage.balances, caller);
        if sender_balance < amount {
            return Err(TokenError::InsufficientBalance);
        }
        if *caller == *recipient {
            // debiting and crediting the same row nets out; nothing moves
            return Ok(true);
        }
        let recipient_balance = lookup_amount(&self.storage.balances, recipient);
        if recipient_balance > u128::MAX - amount {
            return Err(TokenError::ArithmeticOverflow);
        }
        store_amount(&mut self.storage.balances, caller, sender_balance - amount);
        store_amount(&mut self.storage.balances, recipient, recipient_balance + amount);
        Ok(true)
    }

    /// The balance held by `account`; a pure read.
    pub fn balance_of(&self, account: &String) -> (r: u128)
        ensures
            r == self.balance_spec(account@),
    {
        lookup_amount(&self.storage.balances, account)
    }

    /// Sets — overwrites, never adds to — the amount `spender` may move
    /// out of the caller's balance. Balances are untouched.
    pub fn approve(&mut self, caller: &String, spender: &String, amount: u128)
        requires
            pair_keys_unique(old(self).storage.allowances@),
        ensures
            pair_keys_unique(final(self).storage.allowances@),
            approve_post(*old(self), *final(self), caller@, spender@, amount),
            old(self).wf() ==> final(self).wf(),
    {
        store_allowance(&mut self.storage.allowances, caller, spender, amount);
    }

    /// The amount `spender` may move out of `owner`'s balance; a pure read.
    pub fn allowance(&self, owner_id: &String, spender_id: &String) -> (r: u128)
        ensures
            r == self.allowance_spec(owner_id@, spender_id@),
    {
        lookup_allowance(&self.storage.allowances, owner_id, spender_id)
    }
}

/// How a successful transfer relates the ledger after to the ledger
/// before: the caller's row is debited, the recipient's credited, every
/// other row and the row sum are untouched, as are allowances and metadata.
pub open spec fn transfer_post(
    pre: Token,
    post: Token,
    caller: Seq<char>,
    recipient: Seq<char>,
    amount: u128,
) -> bool {
    &&& post.balance_spec(caller) == if caller == recipient {
        pre.balance_spec(caller)
    } else {
        (pre.balance_spec(caller) - amount) as u128
    }
    &&& (caller != recipient ==> post.balance_spec(recipient) == (pre.balance_spec(recipient)
        + amount) as u128)
    &&& forall|a: Seq<char>|
        a != caller && a != recipient ==> post.balance_spec(a) == pre.balance_spec(a)
    &&& sum_of(post.storage.balances@) == sum_of(pre.storage.balances@)
    &&& post.storage.allowances == pre.storage.allowances
    &&& post.name == pre.name
    &&& post.symbol == pre.symbol
    &&& post.decimals == pre.decimals
    &&& post.total_supply == pre.total_supply
}

/// How an approval relates the ledger after to the ledger before: the one
/// `(owner, spender)` allowance is overwritten, everything else is untouched.
pub open spec fn approve_post(
    pre: Token,
    post: Token,
    owner: Seq<char>,
    spender: Seq<char>,
    amount: u128,
) -> bool {
    &&& post.allowance_spec(owner, spender) == amount
    &&& forall|a: Seq<char>, b: Seq<char>|
        !(a == owner && b == spender) ==> post.allowance_spec(a, b) == pre.allowance_spec(a, b)
    &&& post.storage.balances == pre.storage.balances
    &&& post.name == pre.name
    &&& post.symbol == pre.symbol
    &&& post.decimals == pre.decimals
    &&& post.total_supply == pre.total_supply
}

/// Conservation law: a successful transfer out of a conserving ledger
/// leaves the balance rows summing to the total supply.
pub proof fn lemma_transfer_conserves(
    pre: Token,
    post: Token,
    caller: Seq<char>,
    recipient: Seq<char>,
    amount: u128,
)
    requires
        pre.conserves(),
        transfer_post(pre, post, caller, recipient, amount),
    ensures
        post.conserves(),
{
}

/// Bound law: in a well-formed ledger no single account's balance can
/// exceed the total supply.
pub proof fn lemma_balance_bounded(t: Token, account: Seq<char>)
    requires
        t.wf(),
    ensures
        t.balance_spec(account) <= t.total_supply,
{
    lemma_amount_le_sum(t.storage.balances@, account);
}

/// Overwrite law: approving the same spender twice leaves the second
/// amount, not a sum, and disturbs no other allowance.
pub proof fn lemma_allowance_overwrite(
    t0: Token,
    t1: Token,
    t2: Token,
    owner: Seq<char>,
    spender: Seq<char>,
    v1: u128,
    v2: u128,
)
    requires
        approve_post(t0, t1, owner, spender, v1),
        approve_post(t1, t2, owner, spender, v2),
    ensures
        t2.allowance_spec(owner, spender) == v2,
        forall|a: Seq<char>, b: Seq<char>|
            !(a == owner && b == spender) ==> t2.allowance_spec(a, b) == t0.allowance_spec(a, b),
{
}

} // verus!
