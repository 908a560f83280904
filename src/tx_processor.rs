use vstd::prelude::*;

use crate::model::account::{balanced, non_negative, replaced, AccountView};
use crate::model::amount::in_range;
use crate::model::{Account, Chargeback, Deposit, Dispute, Resolve, Transaction, TxId, Withdrawal};
use crate::tx_error::TxError;

verus! {

/// Applying deposit `d` to `pre` gives `post` with result `r`.
pub open spec fn deposit_step(
    pre: AccountView,
    d: Deposit,
    post: AccountView,
    r: Result<(), TxError>,
) -> bool {
    let client = pre.client;
    let tx = d.tx();
    let amount = d.amount();
    if amount@ < 0 {
        r == Err::<(), TxError>(TxError::DepositAmountNegative { client, tx, amount }) && post == pre
    } else if !in_range(pre.available@ + amount@) {
        r == Err::<(), TxError>(TxError::DepositAvailableOverflow { client, tx }) && post == pre
    } else if !in_range(pre.available@ + amount@ + pre.held@) {
        r == Err::<(), TxError>(TxError::DepositTotalOverflow { client, tx }) && post == pre
    } else {
        r == Ok::<(), TxError>(()) && replaced(
            pre,
            post,
            pre.available@ + amount@,
            pre.held@,
            pre.locked,
            pre.disputed,
        )
    }
}

/// Applying withdrawal `w` to `pre` gives `post` with result `r`.
pub open spec fn withdrawal_step(
    pre: AccountView,
    w: Withdrawal,
    post: AccountView,
    r: Result<(), TxError>,
) -> bool {
    let client = pre.client;
    let tx = w.tx();
    let amount = w.amount();
    if amount@ < 0 {
        r == Err::<(), TxError>(TxError::WithdrawalAmountNegative { client, tx, amount })
            && post == pre
    } else if amount@ > pre.available@ {
        r == Err::<(), TxError>(
            TxError::WithdrawalInsufficientAvailable {
                client,
                tx,
                available: pre.available,
                amount,
            },
        ) && post == pre
    } else {
        r == Ok::<(), TxError>(()) && replaced(
            pre,
            post,
            pre.available@ - amount@,
            pre.held@,
            pre.locked,
            pre.disputed,
        )
    }
}

/// Applying dispute `d` to `pre`, where `found` is the deposit stored under
/// `d`'s transaction id, gives `post` with result `r`.
pub open spec fn dispute_step(
    pre: AccountView,
    d: Dispute,
    found: Option<Deposit>,
    post: AccountView,
    r: Result<(), TxError>,
) -> bool {
    let client = pre.client;
    if pre.disputed.contains(d.tx()@) {
        r == Err::<(), TxError>(TxError::DisputeTxAlreadyDisputed { client, tx: d.tx() })
            && post == pre
    } else {
        match found {
            None => r == Err::<(), TxError>(TxError::DisputeTxNotFound { tx: d.tx() }) && post
                == pre,
            Some(dep) => {
                let tx = dep.tx();
                let amount = dep.amount();
                if dep.client() != d.client() {
                    r == Err::<(), TxError>(
                        TxError::DisputeClientMismatch {
                            tx,
                            dispute_tx_client: d.client(),
                            disputed_tx_client: dep.client(),
                        },
                    ) && post == pre
                } else if amount@ < 0 {
                    r == Err::<(), TxError>(TxError::DepositAmountNegative { client, tx, amount })
                        && post == pre
                } else if amount@ > pre.available@ {
                    r == Err::<(), TxError>(
                        TxError::DisputeInsufficientAvailable {
                            client,
                            tx,
                            available: pre.available,
                            amount,
                        },
                    ) && post == pre
                } else if !in_range(pre.held@ + amount@) {
                    r == Err::<(), TxError>(
                        TxError::DisputeHeldOverflow { client, tx, held: pre.held, amount },
                    ) && post == pre
                } else {
                    r == Ok::<(), TxError>(()) && replaced(
                        pre,
                        post,
                        pre.available@ - amount@,
                        pre.held@ + amount@,
                        pre.locked,
                        pre.disputed.insert(tx@),
                    )
                }
            },
        }
    }
}

/// Applying resolve `s` to `pre`, where `found` is the deposit stored under
/// `s`'s transaction id, gives `post` with result `r`.
pub open spec fn resolve_step(
    pre: AccountView,
    s: Resolve,
    found: Option<Deposit>,
    post: AccountView,
    r: Result<(), TxError>,
) -> bool {
    let client = pre.client;
    if !pre.disputed.contains(s.tx()@) {
        r == Err::<(), TxError>(TxError::ResolveTxNotInDispute { client: s.client(), tx: s.tx() })
            && post == pre
    } else {
        match found {
            None => r == Err::<(), TxError>(TxError::DisputeTxNotFound { tx: s.tx() }) && post
                == pre,
            Some(dep) => {
                let tx = dep.tx();
                let amount = dep.amount();
                if dep.client() != s.client() {
                    r == Err::<(), TxError>(
                        TxError::ResolveClientMismatch {
                            tx,
                            resolve_tx_client: s.client(),
                            disputed_tx_client: dep.client(),
                        },
                    ) && post == pre
                } else if amount@ < 0 {
                    r == Err::<(), TxError>(TxError::DepositAmountNegative { client, tx, amount })
                        && post == pre
                } else if amount@ > pre.held@ {
                    r == Err::<(), TxError>(
                        TxError::ResolveInsufficientHeld { client, tx, held: pre.held, amount },
                    ) && post == pre
                } else if !in_range(pre.available@ + amount@) {
                    r == Err::<(), TxError>(
                        TxError::ResolveAvailableOverflow {
                            client,
                            tx,
                            available: pre.available,
                            amount,
                        },
                    ) && post == pre
                } else {
                    r == Ok::<(), TxError>(()) && replaced(
                        pre,
                        post,
                        pre.available@ + amount@,
                        pre.held@ - amount@,
                        pre.locked,
                        pre.disputed.remove(tx@),
                    )
                }
            },
        }
    }
}

/// Applying chargeback `c` to `pre`, where `found` is the deposit stored under
/// `c`'s transaction id, gives `post` with result `r`.
pub open spec fn chargeback_step(
    pre: AccountView,
    c: Chargeback,
    found: Option<Deposit>,
    post: AccountView,
    r: Result<(), TxError>,
) -> bool {
    let client = pre.client;
    if !pre.disputed.contains(c.tx()@) {
        r == Err::<(), TxError>(
            TxError::ChargebackTxNotInDispute { client: c.client(), tx: c.tx() },
        ) && post == pre
    } else {
        match found {
            None => r == Err::<(), TxError>(TxError::DisputeTxNotFound { tx: c.tx() }) && post
                == pre,
            Some(dep) => {
                let tx = dep.tx();
                let amount = dep.amount();
                if dep.client() != c.client() {
                    r == Err::<(), TxError>(
                        TxError::ChargebackClientMismatch {
                            tx,
                            chargeback_tx_client: c.client(),
                            disputed_tx_client: dep.client(),
                        },
                    ) && post == pre
                } else if amount@ < 0 {
                    r == Err::<(), TxError>(TxError::DepositAmountNegative { client, tx, amount })
                        && post == pre
                } else if amount@ > pre.held@ {
                    r == Err::<(), TxError>(
                        TxError::ChargebackInsufficientHeld { client, tx, held: pre.held, amount },
                    ) && post == pre
                } else {
                    r == Ok::<(), TxError>(()) && replaced(
                        pre,
                        post,
                        pre.available@,
                        pre.held@ - amount@,
                        true,
                        pre.disputed.remove(tx@),
                    )
                }
            },
        }
    }
}

/// Applying transaction `t` to `pre`, where `found` is the deposit stored
/// under `t`'s transaction id, gives `post` with result `r`.
///
/// A locked account refuses every transaction.
pub open spec fn process_step(
    pre: AccountView,
    t: Transaction,
    found: Option<Deposit>,
    post: AccountView,
    r: Result<(), TxError>,
) -> bool {
    if pre.locked {
        r == Err::<(), TxError>(TxError::AccountLocked { client: pre.client, tx: t.tx() }) && post
            == pre
    } else {
        match t {
            Transaction::Deposit(d) => deposit_step(pre, d, post, r),
            Transaction::Withdrawal(w) => withdrawal_step(pre, w, post, r),
            Transaction::Dispute(d) => dispute_step(pre, d, found, post, r),
            Transaction::Resolve(s) => resolve_step(pre, s, found, post, r),
            Transaction::Chargeback(c) => chargeback_step(pre, c, found, post, r),
        }
    }
}

/// Whether applying `t` to `a` needs the deposit stored under `t`'s id: a
/// dispute of a transaction not yet disputed, or a resolve or chargeback of
/// one that is, on an unlocked account.
pub open spec fn needs_lookup(a: AccountView, t: Transaction) -> bool {
    !a.locked && match t {
        Transaction::Dispute(d) => !a.disputed.contains(d.tx()@),
        Transaction::Resolve(s) => a.disputed.contains(s.tx()@),
        Transaction::Chargeback(c) => a.disputed.contains(c.tx()@),
        _ => false,
    }
}

/// A lookup result for `tx` is either nothing or a deposit with that id.
pub open spec fn found_for(found: Option<Deposit>, tx: TxId) -> bool {
    found matches Some(dep) ==> dep.tx() == tx
}

/// `states` is a run of one account: `states[i + 1]` and `results[i]` come
/// from applying `txs[i]`, with lookup result `founds[i]`, to `states[i]`.
pub open spec fn is_run(
    states: Seq<AccountView>,
    txs: Seq<Transaction>,
    founds: Seq<Option<Deposit>>,
    results: Seq<Result<(), TxError>>,
) -> bool {
    &&& states.len() == txs.len() + 1
    &&& founds.len() == txs.len()
    &&& results.len() == txs.len()
    &&& forall|i: int|
        0 <= i < txs.len() ==> process_step(
            states[i],
            #[trigger] txs[i],
            founds[i],
            states[i + 1],
            results[i],
        )
}

/// How much applying `t` with lookup result `found` adds to the account's
/// total, given result `r`: a deposit adds its amount, a withdrawal takes
/// its amount away, a chargeback takes the charged-back deposit's amount
/// away; everything else, and every refused transaction, adds nothing.
pub open spec fn ledger_delta(t: Transaction, found: Option<Deposit>, r: Result<(), TxError>) -> int {
    if r is Ok {
        match t {
            Transaction::Deposit(d) => d.amount()@,
            Transaction::Withdrawal(w) => -w.amount()@,
            Transaction::Chargeback(_) => match found {
                Some(dep) => -dep.amount()@,
                None => 0,
            },
            _ => 0,
        }
    } else {
        0
    }
}

/// The sum of the ledger deltas of the first `n` steps.
pub open spec fn ledger(
    txs: Seq<Transaction>,
    founds: Seq<Option<Deposit>>,
    results: Seq<Result<(), TxError>>,
    n: int,
) -> int
    decreases n,
{
    if n <= 0 {
        0
    } else {
        ledger(txs, founds, results, n - 1) + ledger_delta(txs[n - 1], founds[n - 1], results[n - 1])
    }
}

/// Every step keeps an account balanced, and changes its total by the
/// step's ledger delta.
pub proof fn lemma_step_balanced(
    pre: AccountView,
    t: Transaction,
    found: Option<Deposit>,
    post: AccountView,
    r: Result<(), TxError>,
)
    requires
        process_step(pre, t, found, post, r),
        balanced(pre),
    ensures
        balanced(post),
        post.total@ == pre.total@ + ledger_delta(t, found, r),
{
}

/// Neither `available` nor `held` ever goes below zero: a step from a state
/// where both are non-negative leads to one where both are.
pub proof fn lemma_step_non_negative(
    pre: AccountView,
    t: Transaction,
    found: Option<Deposit>,
    post: AccountView,
    r: Result<(), TxError>,
)
    requires
        process_step(pre, t, found, post, r),
        non_negative(pre),
    ensures
        non_negative(post),
{
}

/// Along a run that starts from a state with non-negative funds, every
/// state has non-negative funds.
pub proof fn lemma_run_non_negative(
    states: Seq<AccountView>,
    txs: Seq<Transaction>,
    founds: Seq<Option<Deposit>>,
    results: Seq<Result<(), TxError>>,
    k: int,
)
    requires
        is_run(states, txs, founds, results),
        non_negative(states[0]),
        0 <= k < states.len(),
    ensures
        non_negative(states[k]),
    decreases k,
{
    if k > 0 {
        lemma_run_non_negative(states, txs, founds, results, k - 1);
        lemma_step_non_negative(states[k - 1], txs[k - 1], founds[k - 1], states[k], results[k - 1]);
    }
}

/// A locked account is never mutated again: every later state of a run
/// equals the state in which it was locked, and every transaction is refused.
pub proof fn lemma_locked_is_final(
    states: Seq<AccountView>,
    txs: Seq<Transaction>,
    founds: Seq<Option<Deposit>>,
    results: Seq<Result<(), TxError>>,
    i: int,
    j: int,
)
    requires
        is_run(states, txs, founds, results),
        0 <= i <= j < states.len(),
        states[i].locked,
    ensures
        states[j] == states[i],
        j < txs.len() ==> results[j] is Err,
    decreases j - i,
{
    if j > i {
        lemma_locked_is_final(states, txs, founds, results, i, j - 1);
        assert(process_step(states[j - 1], txs[j - 1], founds[j - 1], states[j], results[j - 1]));
    }
    if j < txs.len() {
        assert(process_step(states[j], txs[j], founds[j], states[j + 1], results[j]));
    }
}

/// In a run of client `c`'s account that starts with no open disputes, each
/// open dispute names a deposit of `c` that an earlier, successful dispute
/// found in the block store.
pub proof fn lemma_disputed_are_deposits(
    states: Seq<AccountView>,
    txs: Seq<Transaction>,
    founds: Seq<Option<Deposit>>,
    results: Seq<Result<(), TxError>>,
    k: int,
)
    requires
        is_run(states, txs, founds, results),
        states[0].disputed.is_empty(),
        forall|i: int| 0 <= i < txs.len() ==> #[trigger] txs[i].client() == states[0].client,
        forall|i: int| 0 <= i < txs.len() ==> found_for(#[trigger] founds[i], txs[i].tx()),
        0 <= k < states.len(),
    ensures
        states[k].client == states[0].client,
        forall|x: u32| #[trigger]
            states[k].disputed.contains(x) ==> exists|i: int|
                0 <= i < k && txs[i] is Dispute && results[i] is Ok && (#[trigger] founds[i] matches Some(
                    dep,
                ) && dep.tx()@ == x && dep.client() == states[0].client),
    decreases k,
{
    if k > 0 {
        lemma_disputed_are_deposits(states, txs, founds, results, k - 1);
        let p = k - 1;
        assert(process_step(states[p], txs[p], founds[p], states[k], results[p]));
        assert(txs[p].client() == states[0].client);
        assert(found_for(founds[p], txs[p].tx()));
        assert forall|x: u32| #[trigger] states[k].disputed.contains(x) implies exists|i: int|
            0 <= i < k && txs[i] is Dispute && results[i] is Ok && (#[trigger] founds[i] matches Some(
                dep,
            ) && dep.tx()@ == x && dep.client() == states[0].client) by {
            if states[p].disputed.contains(x) {
                let i = choose|i: int|
                    0 <= i < p && txs[i] is Dispute && results[i] is Ok && (#[trigger] founds[i] matches Some(
                        dep,
                    ) && dep.tx()@ == x && dep.client() == states[0].client);
                assert(0 <= i < k);
            } else {
                assert(txs[p] is Dispute && results[p] is Ok);
            }
        }
    }
}

/// The ledger identity: along a run, the total changes by exactly the
/// deposits applied, minus the withdrawals applied, minus the deposits
/// charged back.
pub proof fn lemma_run_ledger(
    states: Seq<AccountView>,
    txs: Seq<Transaction>,
    founds: Seq<Option<Deposit>>,
    results: Seq<Result<(), TxError>>,
    k: int,
)
    requires
        is_run(states, txs, founds, results),
        balanced(states[0]),
        0 <= k < states.len(),
    ensures
        balanced(states[k]),
        states[k].total@ == states[0].total@ + ledger(txs, founds, results, k),
    decreases k,
{
    if k > 0 {
        lemma_run_ledger(states, txs, founds, results, k - 1);
        lemma_step_balanced(states[k - 1], txs[k - 1], founds[k - 1], states[k], results[k - 1]);
    }
}

/// A second dispute of a transaction that is already disputed moves no
/// funds.
pub proof fn lemma_dispute_holds_once(
    s0: AccountView,
    d: Dispute,
    f1: Option<Deposit>,
    s1: AccountView,
    r1: Result<(), TxError>,
    f2: Option<Deposit>,
    s2: AccountView,
    r2: Result<(), TxError>,
)
    requires
        found_for(f1, d.tx()),
        process_step(s0, Transaction::Dispute(d), f1, s1, r1),
        r1 is Ok,
        process_step(s1, Transaction::Dispute(d), f2, s2, r2),
    ensures
        s2 == s1,
        r2 is Err,
{
}

/// A resolve or chargeback of a transaction that is not disputed moves no
/// funds.
pub proof fn lemma_undisputed_release_is_refused(
    pre: AccountView,
    t: Transaction,
    found: Option<Deposit>,
    post: AccountView,
    r: Result<(), TxError>,
)
    requires
        t is Resolve || t is Chargeback,
        !pre.disputed.contains(t.tx()@),
        process_step(pre, t, found, post, r),
    ensures
        post == pre,
        r is Err,
{
}

/// A withdrawal of exactly the available funds succeeds and leaves nothing
/// available.
pub proof fn lemma_withdraw_everything(
    pre: AccountView,
    w: Withdrawal,
    found: Option<Deposit>,
    post: AccountView,
    r: Result<(), TxError>,
)
    requires
        !pre.locked,
        pre.available@ >= 0,
        w.amount()@ == pre.available@,
        process_step(pre, Transaction::Withdrawal(w), found, post, r),
    ensures
        r is Ok,
        post.available@ == 0,
        post.held == pre.held,
{
    assert(post.held@ == pre.held@);
    crate::model::amount::lemma_amount_ext(post.held, pre.held);
}

/// Applies transactions to accounts.
///
/// Disputes, resolves and chargebacks refer to an earlier deposit by id; the
/// caller looks that deposit up (see [`TxProcessor::lookup_target`]) and hands
/// the result to [`TxProcessor::process`].
#[derive(Clone, Copy, Debug)]
pub struct TxProcessor;

impl TxProcessor {
    /// Returns a new `TxProcessor`.
    pub fn new() -> (r: Self) {
        TxProcessor
    }

    /// The transaction id whose deposit `process` needs for `transaction`, if
    /// it needs one.
    pub fn lookup_target(&self, account: &Account, transaction: &Transaction) -> (r: Option<TxId>)
        ensures
            r is Some <==> needs_lookup(account@, *transaction),
            r matches Some(tx) ==> tx == transaction.tx(),
    {
        if account.locked() {
            return None;
        }
        match transaction {
            Transaction::Dispute(d) => {
                if account.is_disputed(d.tx().into_inner()) {
                    None
                } else {
                    Some(d.tx())
                }
            },
            Transaction::Resolve(s) => {
                if account.is_disputed(s.tx().into_inner()) {
                    Some(s.tx())
                } else {
                    None
                }
            },
            Transaction::Chargeback(c) => {
                if account.is_disputed(c.tx().into_inner()) {
                    Some(c.tx())
                } else {
                    None
                }
            },
            _ => None,
        }
    }

    /// Processes a transaction for an account.
    ///
    /// `found` is the deposit stored under the transaction's id, when
    /// [`TxProcessor::lookup_target`] asks for one; it is ignored otherwise.
    /// On error the account is left as it was.
    pub fn process(&self, account: &mut Account, transaction: Transaction, found: Option<Deposit>) -> (r: Result<(), TxError>)
        requires
            found_for(found, transaction.tx()),
        ensures
            process_step(old(account)@, transaction, found, final(account)@, r),
            balanced(final(account)@),
    {
        account.reveal_invariant();
        if account.locked() {
            // Don't process locked accounts.
            return Err(TxError::AccountLocked { client: account.client(), tx: transaction.tx() });
        }
        let r = match transaction {
            Transaction::Deposit(deposit) => self.handle_deposit(account, deposit),
            Transaction::Withdrawal(withdrawal) => self.handle_withdrawal(account, withdrawal),
            Transaction::Dispute(dispute) => self.handle_dispute(account, dispute, found),
            Transaction::Resolve(resolve) => self.handle_resolve(account, resolve, found),
            Transaction::Chargeback(chargeback) => self.handle_chargeback(account, chargeback, found),
        };
        account.reveal_invariant();
        r
    }

    /// Credits `deposit` to the account's available funds.
    pub fn handle_deposit(&self, account: &mut Account, deposit: Deposit) -> (r: Result<(), TxError>)
        ensures
            deposit_step(old(account)@, deposit, final(account)@, r),
    {
        account.reveal_invariant();
        let client = account.client();
        let tx = deposit.tx();
        let amount = deposit.amount();
        if amount.is_sign_negative() {
            return Err(TxError::DepositAmountNegative { client, tx, amount });
        }
        let available_next = match account.available().checked_add(&amount) {
            Some(a) => a,
            None => return Err(TxError::DepositAvailableOverflow { client, tx }),
        };
        if available_next.checked_add(&account.held()).is_none() {
            return Err(TxError::DepositTotalOverflow { client, tx });
        }
        account.replace_available(available_next);
        Ok(())
    }

    /// Debits `withdrawal` from the account's available funds, if they suffice.
    pub fn handle_withdrawal(&self, account: &mut Account, withdrawal: Withdrawal) -> (r: Result<(), TxError>)
        ensures
            withdrawal_step(old(account)@, withdrawal, final(account)@, r),
    {
        account.reveal_invariant();
        let client = account.client();
        let tx = withdrawal.tx();
        let amount = withdrawal.amount();
        let available = account.available();
        if amount.is_sign_negative() {
            Err(TxError::WithdrawalAmountNegative { client, tx, amount })
        } else if amount.greater_than(&available) {
            // Not enough funds: the account stays as it is.
            Err(TxError::WithdrawalInsufficientAvailable { client, tx, available, amount })
        } else {
            account.reveal_invariant();
            // Never negative: the amount is at most what is available.
            let available_next = available.saturating_sub(&amount);
            account.replace_available(available_next);
            Ok(())
        }
    }

    /// Holds the disputed deposit's amount: moves it from available to held.
    pub fn handle_dispute(&self, account: &mut Account, dispute: Dispute, found: Option<Deposit>) -> (r: Result<(), TxError>)
        requires
            found_for(found, dispute.tx()),
        ensures
            dispute_step(old(account)@, dispute, found, final(account)@, r),
    {
        account.reveal_invariant();
        let client = account.client();
        if account.is_disputed(dispute.tx().into_inner()) {
            // Funds are held once per dispute.
            return Err(TxError::DisputeTxAlreadyDisputed { client, tx: dispute.tx() });
        }
        let deposit = match found {
            Some(deposit) => deposit,
            None => return Err(TxError::DisputeTxNotFound { tx: dispute.tx() }),
        };
        let tx = deposit.tx();
        let amount = deposit.amount();
        if deposit.client() != dispute.client() {
            // Only allow a client to dispute transactions to their own account.
            return Err(
                TxError::DisputeClientMismatch {
                    tx,
                    dispute_tx_client: dispute.client(),
                    disputed_tx_client: deposit.client(),
                },
            );
        }
        if amount.is_sign_negative() {
            return Err(TxError::DepositAmountNegative { client, tx, amount });
        }
        let available = account.available();
        let held = account.held();
        if amount.greater_than(&available) {
            // Not enough available to hold.
            return Err(TxError::DisputeInsufficientAvailable { client, tx, available, amount });
        }
        let held_next = match held.checked_add(&amount) {
            Some(h) => h,
            None => return Err(TxError::DisputeHeldOverflow { client, tx, held, amount }),
        };
        // Never negative, as checked above.
        let available_next = available.saturating_sub(&amount);
        account.reveal_invariant();
        account.replace_state(available_next, held_next, account.locked(), tx.into_inner(), true);
        Ok(())
    }

    /// Releases the disputed deposit's amount: moves it from held back to
    /// available and closes the dispute.
    pub fn handle_resolve(&self, account: &mut Account, resolve: Resolve, found: Option<Deposit>) -> (r: Result<(), TxError>)
        requires
            found_for(found, resolve.tx()),
        ensures
            resolve_step(old(account)@, resolve, found, final(account)@, r),
    {
        account.reveal_invariant();
        let client = account.client();
        if !account.is_disputed(resolve.tx().into_inner()) {
            // Ignorable; the caller chooses.
            return Err(TxError::ResolveTxNotInDispute { client: resolve.client(), tx: resolve.tx() });
        }
        let deposit = match found {
            Some(deposit) => deposit,
            None => return Err(TxError::DisputeTxNotFound { tx: resolve.tx() }),
        };
        let tx = deposit.tx();
        let amount = deposit.amount();
        if deposit.client() != resolve.client() {
            // Only allow a client to resolve disputed transactions to their own account.
            return Err(
                TxError::ResolveClientMismatch {
                    tx,
                    resolve_tx_client: resolve.client(),
                    disputed_tx_client: deposit.client(),
                },
            );
        }
        if amount.is_sign_negative() {
            return Err(TxError::DepositAmountNegative { client, tx, amount });
        }
        let available = account.available();
        let held = account.held();
        if amount.greater_than(&held) {
            // Not enough held to release.
            return Err(TxError::ResolveInsufficientHeld { client, tx, held, amount });
        }
        // Never negative, as checked above.
        let held_next = held.saturating_sub(&amount);
        let available_next = match available.checked_add(&amount) {
            Some(a) => a,
            None => return Err(TxError::ResolveAvailableOverflow { client, tx, available, amount }),
        };
        account.reveal_invariant();
        account.replace_state(available_next, held_next, account.locked(), tx.into_inner(), false);
        Ok(())
    }

    /// Reverses the disputed deposit: removes its amount from held, closes
    /// the dispute and locks the account.
    pub fn handle_chargeback(&self, account: &mut Account, chargeback: Chargeback, found: Option<Deposit>) -> (r: Result<(), TxError>)
        requires
            found_for(found, chargeback.tx()),
        ensures
            chargeback_step(old(account)@, chargeback, found, final(account)@, r),
    {
        account.reveal_invariant();
        let client = account.client();
        if !account.is_disputed(chargeback.tx().into_inner()) {
            // Ignorable; the caller chooses.
            return Err(
                TxError::ChargebackTxNotInDispute { client: chargeback.client(), tx: chargeback.tx() },
            );
        }
        let deposit = match found {
            Some(deposit) => deposit,
            None => return Err(TxError::DisputeTxNotFound { tx: chargeback.tx() }),
        };
        let tx = deposit.tx();
        let amount = deposit.amount();
        if deposit.client() != chargeback.client() {
            // Only charge back disputed transactions of the same client.
            return Err(
                TxError::ChargebackClientMismatch {
                    tx,
                    chargeback_tx_client: chargeback.client(),
                    disputed_tx_client: deposit.client(),
                },
            );
        }
        if amount.is_sign_negative() {
            return Err(TxError::DepositAmountNegative { client, tx, amount });
        }
        let available = account.available();
        let held = account.held();
        if amount.greater_than(&held) {
            // Not enough held to charge back.
            return Err(TxError::ChargebackInsufficientHeld { client, tx, held, amount });
        }
        // Never negative, as checked above.
        let held_next = held.saturating_sub(&amount);
        account.reveal_invariant();
        account.replace_state(available, held_next, true, tx.into_inner(), false);
        Ok(())
    }
}

} // verus!
