use vstd::prelude::*;

use crate::account::AccountModel;
use crate::transaction::{Transaction, TransactionStatus, TransactionType};

verus! {

/// What became of one event.
#[derive(Clone, Copy, Debug, PartialEq, Eq, Structural)]
pub enum Outcome {
    /// The event took effect.
    Applied,
    /// A withdrawal larger than the available balance: it is recorded as
    /// processed and moves nothing.
    InsufficientFunds,
    /// The account is locked: deposits, withdrawals, disputes and resolves
    /// are refused.
    AccountLocked,
    /// A deposit or withdrawal without an amount, or a reference to one.
    MissingAmount,
    /// A deposit that would take the account's total past `u64::MAX`.
    BalanceOverflow,
    /// The referenced transaction was never stored.
    UnknownTransaction,
    /// The referenced transaction belongs to another client.
    ClientMismatch,
    /// A dispute of a transaction that is not currently processed.
    NotProcessed,
    /// A resolve or chargeback of a transaction that is not disputed.
    NotDisputed,
    /// The referenced transaction is neither a deposit nor a withdrawal.
    NotDisputable,
    /// A dispute larger than the available balance.
    InsufficientAvailable,
    /// A resolve or chargeback larger than the held balance.
    InsufficientHeld,
}

/// The whole ledger: stored deposits and withdrawals by id, accounts by client.
pub struct LedgerState {
    pub transactions: Map<u32, Transaction>,
    pub accounts: Map<u16, AccountModel>,
}

impl LedgerState {
    pub open spec fn empty() -> LedgerState {
        LedgerState { transactions: Map::empty(), accounts: Map::empty() }
    }

    /// Every account is keyed by its own client and has balances in range;
    /// every stored transaction is a deposit or a withdrawal under its own id,
    /// whose client has an account.
    pub open spec fn inv(self) -> bool {
        &&& forall|c: u16| #[trigger]
            self.accounts.contains_key(c) ==> self.accounts[c].client == c
                && self.accounts[c].in_range()
        &&& forall|id: u32| #[trigger]
            self.transactions.contains_key(id) ==> self.transactions[id].id == id && (
            self.transactions[id].tx_type is Deposit || self.transactions[id].tx_type is Withdrawal)
                && self.accounts.contains_key(self.transactions[id].account)
    }

    /// The client's account, or the fresh one it gets when first referenced.
    pub open spec fn account_or_fresh(self, client: u16) -> AccountModel {
        if self.accounts.contains_key(client) {
            self.accounts[client]
        } else {
            AccountModel::fresh(client)
        }
    }

    /// The outcome of a deposit of `tx` to the client's account `a`.
    pub open spec fn deposit_outcome(a: AccountModel, tx: Transaction) -> Outcome {
        if a.locked {
            Outcome::AccountLocked
        } else {
            match tx.amount {
                None => Outcome::MissingAmount,
                Some(m) => if a.total() + m.inner > u64::MAX {
                    Outcome::BalanceOverflow
                } else {
                    Outcome::Applied
                },
            }
        }
    }

    /// The outcome of a withdrawal of `tx` from the client's account `a`.
    pub open spec fn withdrawal_outcome(a: AccountModel, tx: Transaction) -> Outcome {
        if a.locked {
            Outcome::AccountLocked
        } else {
            match tx.amount {
                None => Outcome::MissingAmount,
                Some(m) => if a.available >= m.inner {
                    Outcome::Applied
                } else {
                    Outcome::InsufficientFunds
                },
            }
        }
    }

    /// Deposits and withdrawals: the client's account is created if new, the
    /// balance changes only when the outcome is `Applied`, and the event is
    /// stored under its id, `Failed` when refused and `Processed` otherwise.
    pub open spec fn after_movement(self, tx: Transaction) -> (LedgerState, Outcome) {
        let a = self.account_or_fresh(tx.account);
        let outcome = if tx.tx_type is Deposit {
            Self::deposit_outcome(a, tx)
        } else {
            Self::withdrawal_outcome(a, tx)
        };
        let m = match tx.amount {
            Some(m) => m.inner as int,
            None => 0,
        };
        let moved = if outcome is Applied {
            if tx.tx_type is Deposit {
                AccountModel { available: a.available + m, ..a }
            } else {
                AccountModel { available: a.available - m, ..a }
            }
        } else {
            a
        };
        let status = if outcome is Applied || outcome is InsufficientFunds {
            TransactionStatus::Processed
        } else {
            TransactionStatus::Failed
        };
        (
            LedgerState {
                transactions: self.transactions.insert(tx.id, Transaction { status, ..tx }),
                accounts: self.accounts.insert(tx.account, moved),
            },
            outcome,
        )
    }

    /// Why a dispute, resolve or chargeback of the stored `orig` by an event
    /// of kind `kind` for the account `a` is refused, or `Applied`.
    pub open spec fn reference_outcome(
        kind: TransactionType,
        a: AccountModel,
        orig: Transaction,
    ) -> Outcome {
        if a.locked && !(kind is Chargeback) {
            Outcome::AccountLocked
        } else if orig.account != a.client {
            Outcome::ClientMismatch
        } else if kind is Dispute && orig.status != TransactionStatus::Processed {
            Outcome::NotProcessed
        } else if !(kind is Dispute) && orig.status != TransactionStatus::Disputed {
            Outcome::NotDisputed
        } else if !(orig.tx_type is Deposit || orig.tx_type is Withdrawal) {
            Outcome::NotDisputable
        } else {
            match orig.amount {
                None => Outcome::MissingAmount,
                Some(m) => if kind is Dispute && a.available < m.inner {
                    Outcome::InsufficientAvailable
                } else if !(kind is Dispute) && a.held < m.inner {
                    Outcome::InsufficientHeld
                } else {
                    Outcome::Applied
                },
            }
        }
    }

    /// Disputes, resolves and chargebacks. A reference to an id that was never
    /// stored changes nothing. Otherwise the event's client gets its account if
    /// new, and where the outcome is `Applied`:
    /// - a dispute moves the amount from available to held and marks it `Disputed`;
    /// - a resolve moves it back and marks it `Processed`;
    /// - a chargeback removes it from held, marks it `ChargedBacked` and locks the account.
    pub open spec fn after_reference(self, tx: Transaction) -> (LedgerState, Outcome) {
        if !self.transactions.contains_key(tx.id) {
            (self, Outcome::UnknownTransaction)
        } else {
            let orig = self.transactions[tx.id];
            let a = self.account_or_fresh(tx.account);
            let outcome = Self::reference_outcome(tx.tx_type, a, orig);
            let m = match orig.amount {
                Some(m) => m.inner as int,
                None => 0,
            };
            if outcome is Applied {
                let (moved, status) = match tx.tx_type {
                    TransactionType::Dispute => (
                        AccountModel { available: a.available - m, held: a.held + m, ..a },
                        TransactionStatus::Disputed,
                    ),
                    TransactionType::Resolve => (
                        AccountModel { available: a.available + m, held: a.held - m, ..a },
                        TransactionStatus::Processed,
                    ),
                    _ => (
                        AccountModel { held: a.held - m, locked: true, ..a },
                        TransactionStatus::ChargedBacked,
                    ),
                };
                (
                    LedgerState {
                        transactions: self.transactions.insert(tx.id, Transaction { status, ..orig }),
                        accounts: self.accounts.insert(tx.account, moved),
                    },
                    outcome,
                )
            } else {
                (
                    LedgerState {
                        transactions: self.transactions,
                        accounts: self.accounts.insert(tx.account, a),
                    },
                    outcome,
                )
            }
        }
    }

    /// The ledger after one event, and what became of the event.
    pub open spec fn step(self, tx: Transaction) -> (LedgerState, Outcome) {
        match tx.tx_type {
            TransactionType::Deposit | TransactionType::Withdrawal => self.after_movement(tx),
            _ => self.after_reference(tx),
        }
    }
}

} // verus!
