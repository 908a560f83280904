use std::collections::HashSet;

use vstd::prelude::*;

use crate::model::amount::{in_range, lemma_amount_ext, lemma_spec_zero, spec_zero};
use crate::model::{Amount, ClientId};

verus! {

broadcast use vstd::std_specs::hash::group_hash_axioms;

/// Error when `available` and `held` amounts would overflow when added together.
#[derive(Clone, Copy, Debug, PartialEq, Eq, Structural)]
pub struct TotalOverflow;

/// Client account state.
///
/// `total` is always `available + held`.
#[derive(Debug, PartialEq, Eq)]
pub struct Account {
    client: ClientId,
    available: Amount,
    held: Amount,
    total: Amount,
    locked: bool,
    disputed_txs: HashSet<u32>,
}

/// The mathematical state of an [`Account`].
pub struct AccountView {
    pub client: ClientId,
    pub available: Amount,
    pub held: Amount,
    pub total: Amount,
    pub locked: bool,
    /// Transaction ids of the currently open disputes.
    pub disputed: Set<u32>,
}

/// A fresh account of `client`: no funds, unlocked, no open disputes.
pub open spec fn empty_view(client: ClientId) -> AccountView {
    AccountView {
        client,
        available: spec_zero(),
        held: spec_zero(),
        total: spec_zero(),
        locked: false,
        disputed: Set::empty(),
    }
}

/// `total` is the sum of `available` and `held`.
pub open spec fn balanced(a: AccountView) -> bool {
    a.total@ == a.available@ + a.held@
}

/// Neither `available` nor `held` is below zero.
pub open spec fn non_negative(a: AccountView) -> bool {
    a.available@ >= 0 && a.held@ >= 0
}

/// `post` is `pre` with `available`, `held` and `locked` replaced, and the
/// disputed set replaced by `disputed`.
pub open spec fn replaced(
    pre: AccountView,
    post: AccountView,
    available: int,
    held: int,
    locked: bool,
    disputed: Set<u32>,
) -> bool {
    &&& post.client == pre.client
    &&& post.available@ == available
    &&& post.held@ == held
    &&& post.total@ == available + held
    &&& post.locked == locked
    &&& post.disputed == disputed
}

impl View for Account {
    type V = AccountView;

    closed spec fn view(&self) -> AccountView {
        AccountView {
            client: self.client,
            available: self.available,
            held: self.held,
            total: self.total,
            locked: self.locked,
            disputed: self.disputed_txs@,
        }
    }
}

impl Account {
    #[verifier::type_invariant]
    spec fn inv(self) -> bool {
        self.total@ == self.available@ + self.held@
    }

    /// Returns a new `Account` with the provided values, or `TotalOverflow`
    /// when `available + held` is out of range.
    pub fn try_new(
        client: ClientId,
        available: Amount,
        held: Amount,
        locked: bool,
        disputed_txs: HashSet<u32>,
    ) -> (r: Result<Self, TotalOverflow>)
        ensures
            r is Ok <==> in_range(available@ + held@),
            r matches Ok(a) ==> {
                &&& a@.client == client
                &&& a@.available == available
                &&& a@.held == held
                &&& a@.total@ == available@ + held@
                &&& a@.locked == locked
                &&& a@.disputed == disputed_txs@
            },
    {
        match available.checked_add(&held) {
            Some(total) => Ok(Self { client, available, held, total, locked, disputed_txs }),
            None => Err(TotalOverflow),
        }
    }

    /// Returns a new empty `Account`: zero funds, unlocked, no disputes.
    pub fn empty(client: ClientId) -> (r: Self)
        ensures
            r@ == empty_view(client),
            r@.available@ == 0,
            r@.held@ == 0,
            r@.total@ == 0,
    {
        let zero = Amount::zero();
        proof {
            lemma_spec_zero();
            lemma_amount_ext(zero, spec_zero());
        }
        let r = Self {
            client,
            available: zero,
            held: zero,
            total: zero,
            locked: false,
            disputed_txs: HashSet::new(),
        };
        proof {
            assert(r.disputed_txs@ =~= Set::<u32>::empty());
        }
        r
    }

    /// Brings the account's invariant into the proof context: it is balanced
    /// and its amounts lie within range.
    pub(crate) fn reveal_invariant(&self)
        ensures
            balanced(self@),
            in_range(self@.available@),
            in_range(self@.held@),
            in_range(self@.total@),
    {
        proof {
            use_type_invariant(self);
            use_type_invariant(&self.available);
            use_type_invariant(&self.held);
            use_type_invariant(&self.total);
        }
    }

    /// Returns the account's client.
    pub fn client(&self) -> (r: ClientId)
        ensures
            r == self@.client,
    {
        self.client
    }

    /// Returns the available funds in the account.
    pub fn available(&self) -> (r: Amount)
        ensures
            r == self@.available,
    {
        self.available
    }

    /// Returns the held funds in the account.
    pub fn held(&self) -> (r: Amount)
        ensures
            r == self@.held,
    {
        self.held
    }

    /// Returns the total funds in the account.
    pub fn total(&self) -> (r: Amount)
        ensures
            r == self@.total,
            r@ == self@.available@ + self@.held@,
    {
        proof {
            use_type_invariant(self);
        }
        self.total
    }

    /// Returns whether the account is locked.
    pub fn locked(&self) -> (r: bool)
        ensures
            r == self@.locked,
    {
        self.locked
    }

    /// Returns open disputed transactions.
    pub fn disputed_txs(&self) -> (r: &HashSet<u32>)
        ensures
            r@ == self@.disputed,
    {
        &self.disputed_txs
    }

    /// Whether `tx` is among the open disputes.
    pub fn is_disputed(&self, tx: u32) -> (r: bool)
        ensures
            r == self@.disputed.contains(tx),
    {
        self.disputed_txs.contains(&tx)
    }

    /// Replaces the balances and the lock flag, and adds `tx` to or removes it
    /// from the open disputes.
    pub(crate) fn replace_state(
        &mut self,
        available: Amount,
        held: Amount,
        locked: bool,
        tx: u32,
        disputed: bool,
    )
        requires
            in_range(available@ + held@),
        ensures
            replaced(
                old(self)@,
                final(self)@,
                available@,
                held@,
                locked,
                if disputed {
                    old(self)@.disputed.insert(tx)
                } else {
                    old(self)@.disputed.remove(tx)
                },
            ),
    {
        proof {
            use_type_invariant(&*self);
        }
        let total = available.checked_add(&held).unwrap();
        let mut disputed_txs = HashSet::new();
        std::mem::swap(&mut self.disputed_txs, &mut disputed_txs);
        if disputed {
            disputed_txs.insert(tx);
        } else {
            disputed_txs.remove(&tx);
        }
        *self = Account { client: self.client, available, held, total, locked, disputed_txs };
    }

    /// Replaces `available`, keeping everything else.
    pub(crate) fn replace_available(&mut self, available: Amount)
        requires
            in_range(available@ + old(self)@.held@),
        ensures
            replaced(
                old(self)@,
                final(self)@,
                available@,
                old(self)@.held@,
                old(self)@.locked,
                old(self)@.disputed,
            ),
    {
        proof {
            use_type_invariant(&*self);
        }
        let total = available.checked_add(&self.held).unwrap();
        let mut disputed_txs = HashSet::new();
        std::mem::swap(&mut self.disputed_txs, &mut disputed_txs);
        *self = Account {
            client: self.client,
            available,
            held: self.held,
            total,
            locked: self.locked,
            disputed_txs,
        };
    }
}

} // verus!
