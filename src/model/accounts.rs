use std::collections::HashMap;

use vstd::prelude::*;

use crate::model::account::{empty_view, AccountView};
use crate::model::{Account, ClientId, Deposit, Transaction, TxId};
use crate::tx_error::TxError;
use crate::tx_processor::{found_for, needs_lookup, process_step, TxProcessor};

verus! {

broadcast use vstd::std_specs::hash::group_hash_axioms;

/// Working record of all accounts, keyed by client.
#[derive(Debug)]
pub struct Accounts {
    accounts: HashMap<u16, Account>,
}

/// The state of `client`'s account in `m`: the stored one, or a fresh one.
pub open spec fn account_or_empty(m: Map<u16, AccountView>, client: ClientId) -> AccountView {
    if m.contains_key(client@) {
        m[client@]
    } else {
        empty_view(client)
    }
}

impl View for Accounts {
    type V = Map<u16, AccountView>;

    closed spec fn view(&self) -> Map<u16, AccountView> {
        self.accounts@.map_values(|a: Account| a@)
    }
}

impl Accounts {
    /// Each account is stored under its own client id.
    #[verifier::type_invariant]
    spec fn inv(self) -> bool {
        forall|k: u16| #[trigger]
            self.accounts@.contains_key(k) ==> self.accounts@[k]@.client@ == k
    }

    /// Returns a new, empty `Accounts`.
    pub fn new() -> (r: Self)
        ensures
            r@ == Map::<u16, AccountView>::empty(),
    {
        let r = Accounts { accounts: HashMap::new() };
        proof {
            assert(r@ =~= Map::<u16, AccountView>::empty());
        }
        r
    }

    /// The account of `client`, if it has one.
    pub fn get(&self, client: ClientId) -> (r: Option<&Account>)
        ensures
            r is Some <==> self@.contains_key(client@),
            r matches Some(a) ==> a@ == self@[client@],
    {
        self.accounts.get(&client.into_inner())
    }

    /// The transaction id whose stored deposit [`Accounts::apply`] needs for
    /// `transaction`, if it needs one.
    pub fn lookup_target(&self, transaction: &Transaction) -> (r: Option<TxId>)
        ensures
            r is Some <==> needs_lookup(account_or_empty(self@, transaction.client()), *transaction),
            r matches Some(tx) ==> tx == transaction.tx(),
    {
        let client = transaction.client();
        let processor = TxProcessor::new();
        match self.accounts.get(&client.into_inner()) {
            Some(account) => processor.lookup_target(account, transaction),
            None => {
                let account = Account::empty(client);
                processor.lookup_target(&account, transaction)
            },
        }
    }

    /// Applies `transaction` to its client's account, creating the account on
    /// first sight of the client. `found` is the deposit stored under the
    /// transaction's id, when [`Accounts::lookup_target`] asks for one.
    ///
    /// Only that client's account changes.
    pub fn apply(&mut self, transaction: Transaction, found: Option<Deposit>) -> (r: Result<(), TxError>)
        requires
            found_for(found, transaction.tx()),
        ensures
            final(self)@.contains_key(transaction.client()@),
            final(self)@ == old(self)@.insert(
                transaction.client()@,
                final(self)@[transaction.client()@],
            ),
            process_step(
                account_or_empty(old(self)@, transaction.client()),
                transaction,
                found,
                final(self)@[transaction.client()@],
                r,
            ),
    {
        proof {
            use_type_invariant(&*self);
        }
        let client = transaction.client();
        let key = client.into_inner();
        let mut accounts = HashMap::new();
        std::mem::swap(&mut self.accounts, &mut accounts);
        let mut account = match accounts.remove(&key) {
            Some(account) => account,
            None => Account::empty(client),
        };
        assert(account@.client@ == key);
        let r = TxProcessor::new().process(&mut account, transaction, found);
        accounts.insert(key, account);
        *self = Accounts { accounts };
        proof {
            assert(self@ =~= old(self)@.insert(key, self@[key]));
        }
        r
    }

    /// Returns the accounts, ordered by client id.
    pub fn into_values(self) -> (r: Vec<Account>)
        ensures
            forall|i: int, j: int| 0 <= i < j < r@.len() ==> r@[i]@.client@ < r@[j]@.client@,
            forall|i: int|
                0 <= i < r@.len() ==> #[trigger] self@.contains_key(r@[i]@.client@) && self@[r@[i]@.client@]
                    == r@[i]@,
            forall|k: u16| #[trigger]
                self@.contains_key(k) ==> exists|i: int| 0 <= i < r@.len() && r@[i]@.client@ == k,
    {
        proof {
            use_type_invariant(&self);
        }
        let ghost all = self@;
        let mut accounts = self.accounts;
        let mut r: Vec<Account> = Vec::new();
        let mut key: u32 = 0;
        while key <= 65535
            invariant
                key <= 65536,
                forall|k: u16| #[trigger]
                    accounts@.contains_key(k) <==> (all.contains_key(k) && k >= key),
                forall|k: u16| #[trigger] accounts@.contains_key(k) ==> accounts@[k]@ == all[k],
                forall|k: u16| #[trigger] all.contains_key(k) ==> all[k].client@ == k,
                forall|i: int, j: int| 0 <= i < j < r@.len() ==> r@[i]@.client@ < r@[j]@.client@,
                forall|i: int|
                    0 <= i < r@.len() ==> #[trigger] all.contains_key(r@[i]@.client@) && all[r@[i]@.client@]
                        == r@[i]@ && r@[i]@.client@ < key,
                forall|k: u16| #[trigger]
                    all.contains_key(k) && k < key ==> exists|i: int| 0 <= i < r@.len() && r@[i]@.client@ == k,
            decreases 65536 - key,
        {
            let k = key as u16;
            let ghost r0 = r@;
            let ghost before = accounts@;
            match accounts.remove(&k) {
                Some(account) => {
                    assert(account@ == all[k]);
                    assert(all.contains_key(k) && all[k].client@ == k);
                    r.push(account);
                    proof {
                        assert forall|i: int, j: int| 0 <= i < j < r@.len() implies r@[i]@.client@
                            < r@[j]@.client@ by {
                            assert(r@[i] == r0[i]);
                            assert(all.contains_key(r0[i]@.client@));
                            if j < r0.len() {
                                assert(r@[j] == r0[j]);
                            }
                        }
                        assert forall|i: int| 0 <= i < r@.len() implies #[trigger] all.contains_key(
                            r@[i]@.client@,
                        ) && all[r@[i]@.client@] == r@[i]@ && r@[i]@.client@ < key + 1 by {
                            if i < r0.len() {
                                assert(r@[i] == r0[i]);
                            }
                        }
                        assert forall|k2: u16| #[trigger]
                            all.contains_key(k2) && k2 < key + 1 implies exists|i: int|
                                0 <= i < r@.len() && r@[i]@.client@ == k2 by {
                            if k2 == k {
                                assert(r@[r0.len() as int]@.client@ == k2);
                            } else {
                                let i = choose|i: int| 0 <= i < r0.len() && r0[i]@.client@ == k2;
                                assert(r@[i] == r0[i]);
                            }
                        }
                    }
                },
                None => {
                    assert(!all.contains_key(k));
                },
            }
            key = key + 1;
        }
        r
    }
}

} // verus!
