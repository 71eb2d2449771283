use vstd::prelude::*;

use crate::ledger::{LedgerState, Outcome};
use crate::transaction::{Transaction, TransactionStatus, TransactionType};

verus! {

/// The ledger after applying `events` in order to an empty one.
pub open spec fn replay(events: Seq<Transaction>) -> LedgerState
    decreases events.len(),
{
    if events.len() == 0 {
        LedgerState::empty()
    } else {
        replay(events.drop_last()).step(events.last()).0
    }
}

/// One event keeps the ledger's invariant: in particular no balance of any
/// account goes below zero, and no total goes past `u64::MAX`.
pub proof fn lemma_step_keeps_balances_in_range(s: LedgerState, tx: Transaction)
    requires
        s.inv(),
    ensures
        s.step(tx).0.inv(),
{
    let a = s.account_or_fresh(tx.account);
    let n = s.step(tx).0;
    assert forall|c: u16| #[trigger] n.accounts.contains_key(c) implies n.accounts[c].client == c
        && n.accounts[c].in_range() by {
        if c != tx.account {
            assert(s.accounts.contains_key(c));
        }
    }
    assert forall|id: u32| #[trigger] n.transactions.contains_key(id) implies n.transactions[id].id
        == id && (n.transactions[id].tx_type is Deposit || n.transactions[id].tx_type is Withdrawal)
        && n.accounts.contains_key(n.transactions[id].account) by {
        if !(id == tx.id) {
            assert(s.transactions.contains_key(id));
        } else if s.transactions.contains_key(id) {
            assert(s.transactions[id].id == id);
        }
    }
}

/// At every point of any stream of events, starting from an empty ledger,
/// every account has non-negative available and held balances whose sum
/// fits in a `u64`.
pub proof fn lemma_balances_never_wrap(events: Seq<Transaction>)
    ensures
        replay(events).inv(),
        forall|c: u16| #[trigger]
            replay(events).accounts.contains_key(c) ==> replay(events).accounts[c].available >= 0
                && replay(events).accounts[c].held >= 0,
    decreases events.len(),
{
    if events.len() > 0 {
        lemma_balances_never_wrap(events.drop_last());
        lemma_step_keeps_balances_in_range(replay(events.drop_last()), events.last());
    }
}

/// A dispute, resolve or chargeback of an id that was never stored changes
/// nothing: no transaction and no account is created or altered.
pub proof fn lemma_unknown_reference_changes_nothing(s: LedgerState, tx: Transaction)
    requires
        tx.tx_type is Dispute || tx.tx_type is Resolve || tx.tx_type is Chargeback,
        !s.transactions.contains_key(tx.id),
    ensures
        s.step(tx).0 == s,
        s.step(tx).1 == Outcome::UnknownTransaction,
{
}

/// A withdrawal from an unlocked account larger than its available balance is
/// stored as processed and moves no money.
pub proof fn lemma_overdraft_moves_nothing(s: LedgerState, tx: Transaction)
    requires
        tx.tx_type is Withdrawal,
        !s.account_or_fresh(tx.account).locked,
        tx.amount matches Some(m) && m.inner > s.account_or_fresh(tx.account).available,
    ensures
        s.step(tx).1 == Outcome::InsufficientFunds,
        s.step(tx).0.accounts == s.accounts.insert(tx.account, s.account_or_fresh(tx.account)),
        s.step(tx).0.transactions[tx.id].status == TransactionStatus::Processed,
{
}

/// Once an account is locked it stays locked, whatever event comes next.
pub proof fn lemma_lock_is_permanent(s: LedgerState, tx: Transaction, c: u16)
    requires
        s.accounts.contains_key(c),
        s.accounts[c].locked,
    ensures
        s.step(tx).0.accounts.contains_key(c),
        s.step(tx).0.accounts[c].locked,
{
}

/// A deposit or withdrawal on a locked account is stored as failed and
/// changes no account.
pub proof fn lemma_locked_account_refuses_movements(s: LedgerState, tx: Transaction)
    requires
        s.inv(),
        tx.tx_type is Deposit || tx.tx_type is Withdrawal,
        s.accounts.contains_key(tx.account),
        s.accounts[tx.account].locked,
    ensures
        s.step(tx).1 == Outcome::AccountLocked,
        s.step(tx).0.accounts == s.accounts,
        s.step(tx).0.transactions[tx.id].status == TransactionStatus::Failed,
{
    assert(s.accounts.insert(tx.account, s.accounts[tx.account]) =~= s.accounts);
}

/// A chargeback that takes effect removes the disputed amount from held,
/// leaves available as it was, and locks the account.
pub proof fn lemma_chargeback_removes_held_funds(s: LedgerState, tx: Transaction)
    requires
        tx.tx_type is Chargeback,
        s.step(tx).1 == Outcome::Applied,
    ensures
        s.transactions.contains_key(tx.id),
        s.transactions[tx.id].amount is Some,
        s.step(tx).0.accounts[tx.account].available == s.account_or_fresh(tx.account).available,
        s.step(tx).0.accounts[tx.account].held == s.account_or_fresh(tx.account).held
            - s.transactions[tx.id].amount.unwrap().inner,
        s.step(tx).0.accounts[tx.account].locked,
        s.step(tx).0.transactions[tx.id].status == TransactionStatus::ChargedBacked,
{
}

/// A dispute that takes effect, followed by a resolve of the same transaction
/// by the same client, also takes effect and leaves the ledger as it was.
pub proof fn lemma_resolve_undoes_dispute(s: LedgerState, d: Transaction, r: Transaction)
    requires
        s.inv(),
        d.tx_type is Dispute,
        r.tx_type is Resolve,
        r.id == d.id,
        r.account == d.account,
        s.step(d).1 == Outcome::Applied,
    ensures
        s.step(d).0.step(r).1 == Outcome::Applied,
        s.step(d).0.step(r).0 == s,
{
    let orig = s.transactions[d.id];
    assert(s.accounts.contains_key(orig.account));
    let n = s.step(d).0.step(r).0;
    assert(n.accounts =~= s.accounts);
    assert(n.transactions =~= s.transactions);
}

/// Disputes and resolves only move money between available and held, so the
/// event's client keeps its total; a chargeback leaves available as it was
/// and can only lower held.
pub proof fn lemma_references_move_no_money_in(s: LedgerState, tx: Transaction)
    requires
        s.inv(),
        tx.tx_type is Dispute || tx.tx_type is Resolve || tx.tx_type is Chargeback,
    ensures
        tx.tx_type is Dispute || tx.tx_type is Resolve ==> s.step(tx).0.account_or_fresh(
            tx.account,
        ).total() == s.account_or_fresh(tx.account).total(),
        tx.tx_type is Chargeback ==> {
            &&& s.step(tx).0.account_or_fresh(tx.account).available == s.account_or_fresh(
                tx.account,
            ).available
            &&& s.step(tx).0.account_or_fresh(tx.account).held <= s.account_or_fresh(
                tx.account,
            ).held
        },
{
}

} // verus!
