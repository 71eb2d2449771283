use std::collections::HashMap;
use vstd::prelude::*;

use crate::account::{Account, AccountModel};
use crate::laws::{
    lemma_locked_account_refuses_movements, lemma_overdraft_moves_nothing,
    lemma_references_move_no_money_in, lemma_step_keeps_balances_in_range,
    lemma_unknown_reference_changes_nothing,
};
use crate::ledger::{LedgerState, Outcome};
use crate::transaction::{Transaction, TransactionStatus, TransactionType};

verus! {

broadcast use vstd::std_specs::hash::group_hash_axioms;

/// The accounts of one engine's clients and the deposits and withdrawals it has seen.
pub struct PaymentEngine {
    tx_by_txid: HashMap<u32, Transaction>,
    accounts_by_client: HashMap<u16, Account>,
    /// Every client with an account, once each, in the order first seen.
    clients: Vec<u16>,
}

impl View for PaymentEngine {
    type V = LedgerState;

    closed spec fn view(&self) -> LedgerState {
        LedgerState {
            transactions: self.tx_by_txid@,
            accounts: self.accounts_by_client@.map_values(|a: Account| a@),
        }
    }
}

impl PaymentEngine {
    /// The ledger's invariant holds and `clients` lists each account once.
    pub closed spec fn wf(&self) -> bool {
        &&& self@.inv()
        &&& self.clients@.no_duplicates()
        &&& forall|i: int|
            0 <= i < self.clients@.len() ==> self.accounts_by_client@.contains_key(
                #[trigger] self.clients@[i],
            )
        &&& forall|c: u16| #[trigger]
            self.accounts_by_client@.contains_key(c) ==> self.clients@.contains(c)
    }

    /// A well-formed engine's ledger keeps its invariant: every account has
    /// non-negative balances whose sum fits in a `u64`.
    pub proof fn lemma_well_formed_ledger(&self)
        requires
            self.wf(),
        ensures
            self@.inv(),
    {
    }

    /// An engine with no accounts and no transactions.
    pub fn new() -> (r: PaymentEngine)
        ensures
            r.wf(),
            r@ == LedgerState::empty(),
            r@.inv(),
    {
        let r = PaymentEngine {
            tx_by_txid: HashMap::new(),
            accounts_by_client: HashMap::new(),
            clients: Vec::new(),
        };
        assert(r@.accounts =~= Map::empty());
        r
    }

    /// The client's account, created with zero balances if it had none.
    fn account_entry(&mut self, client: u16) -> (r: Account)
        requires
            old(self).wf(),
        ensures
            final(self).wf(),
            r@ == old(self)@.account_or_fresh(client),
            final(self)@.transactions == old(self)@.transactions,
            final(self)@.accounts == old(self)@.accounts.insert(client, r@),
    {
        match self.accounts_by_client.get(&client) {
            Some(a) => {
                let a = *a;
                assert(self@.accounts.insert(client, a@) =~= self@.accounts);
                a
            },
            None => {
                let a = Account::new_with_client(client);
                let ghost before = self.clients@;
                self.accounts_by_client.insert(client, a);
                self.clients.push(client);
                assert(self@.accounts =~= old(self)@.accounts.insert(client, a@));
                assert forall|i: int| 0 <= i < self.clients@.len() implies
                    self.accounts_by_client@.contains_key(#[trigger] self.clients@[i]) by {
                    if i < before.len() {
                        assert(self.clients@[i] == before[i]);
                    }
                }
                assert forall|c: u16| #[trigger]
                    self.accounts_by_client@.contains_key(c) implies self.clients@.contains(c) by {
                    if c != client {
                        let k = choose|k: int| 0 <= k < before.len() && before[k] == c;
                        assert(self.clients@[k] == c);
                    } else {
                        assert(self.clients@[before.len() as int] == c);
                    }
                }
                a
            },
        }
    }

    /// Writes back the account of a client that already has one.
    fn store_account(&mut self, a: Account)
        requires
            old(self).wf(),
            old(self)@.accounts.contains_key(a.client),
            a@.in_range(),
        ensures
            final(self).wf(),
            final(self)@.transactions == old(self)@.transactions,
            final(self)@.accounts == old(self)@.accounts.insert(a.client, a@),
    {
        self.accounts_by_client.insert(a.client, a);
        assert(self@.accounts =~= old(self)@.accounts.insert(a.client, a@));
    }

    /// Writes a stored transaction back under its own id.
    fn store_transaction(&mut self, tx: Transaction)
        requires
            old(self).wf(),
            tx.tx_type is Deposit || tx.tx_type is Withdrawal,
            old(self)@.accounts.contains_key(tx.account),
        ensures
            final(self).wf(),
            final(self)@.transactions == old(self)@.transactions.insert(tx.id, tx),
            final(self)@.accounts == old(self)@.accounts,
    {
        self.tx_by_txid.insert(tx.id, tx);
        assert(self@.accounts == old(self)@.accounts);
        assert forall|id: u32| #[trigger] self@.transactions.contains_key(id) implies
            self@.transactions[id].id == id && (self@.transactions[id].tx_type is Deposit
                || self@.transactions[id].tx_type is Withdrawal) && self@.accounts.contains_key(
                self@.transactions[id].account,
            ) by {
            if id != tx.id {
                assert(old(self)@.transactions.contains_key(id));
            }
        }
    }

    /// Credits a deposit to its client's account, creating the account if new.
    fn apply_deposit(&mut self, tx: &Transaction) -> (r: Outcome)
        requires
            old(self).wf(),
            tx.tx_type is Deposit,
        ensures
            final(self).wf(),
            r == old(self)@.after_movement(*tx).1,
            final(self)@.accounts == old(self)@.after_movement(*tx).0.accounts,
            final(self)@.transactions == old(self)@.transactions,
    {
        let mut a = self.account_entry(tx.account);
        if a.locked {
            return Outcome::AccountLocked;
        }
        match tx.amount {
            None => Outcome::MissingAmount,
            Some(m) => {
                if m.value() > u64::MAX - a.available - a.held {
                    return Outcome::BalanceOverflow;
                }
                a.available = a.available + m.value();
                self.store_account(a);
                Outcome::Applied
            },
        }
    }

    /// Debits a withdrawal from its client's account where the available
    /// balance covers it, creating the account if new.
    fn apply_withdrawal(&mut self, tx: &Transaction) -> (r: Outcome)
        requires
            old(self).wf(),
            tx.tx_type is Withdrawal,
        ensures
            final(self).wf(),
            r == old(self)@.after_movement(*tx).1,
            final(self)@.accounts == old(self)@.after_movement(*tx).0.accounts,
            final(self)@.transactions == old(self)@.transactions,
    {
        let mut a = self.account_entry(tx.account);
        if a.locked {
            return Outcome::AccountLocked;
        }
        match tx.amount {
            None => Outcome::MissingAmount,
            Some(m) => {
                if a.available < m.value() {
                    return Outcome::InsufficientFunds;
                }
                a.available = a.available - m.value();
                self.store_account(a);
                Outcome::Applied
            },
        }
    }

    /// Moves a processed deposit or withdrawal of the same client from
    /// available to held.
    fn apply_dispute(&mut self, tx: &Transaction) -> (r: Outcome)
        requires
            old(self).wf(),
            tx.tx_type is Dispute,
        ensures
            final(self).wf(),
            r == old(self)@.after_reference(*tx).1,
            final(self)@ == old(self)@.after_reference(*tx).0,
    {
        let orig = match self.tx_by_txid.get(&tx.id) {
            Some(o) => *o,
            None => return Outcome::UnknownTransaction,
        };
        let mut a = self.account_entry(tx.account);
        if a.locked {
            return Outcome::AccountLocked;
        }
        if orig.account != a.client {
            return Outcome::ClientMismatch;
        }
        if orig.status != TransactionStatus::Processed {
            return Outcome::NotProcessed;
        }
        match orig.tx_type {
            TransactionType::Deposit | TransactionType::Withdrawal => {},
            _ => return Outcome::NotDisputable,
        }
        let m = match orig.amount {
            Some(m) => m.value(),
            None => return Outcome::MissingAmount,
        };
        if a.available < m {
            return Outcome::InsufficientAvailable;
        }
        a.available = a.available - m;
        a.held = a.held + m;
        self.store_account(a);
        self.store_transaction(Transaction { status: TransactionStatus::Disputed, ..orig });
        assert(self@.accounts =~= old(self)@.after_reference(*tx).0.accounts);
        assert(self@.transactions =~= old(self)@.after_reference(*tx).0.transactions);
        Outcome::Applied
    }

    /// Moves a disputed transaction of the same client back from held to
    /// available.
    fn apply_resolve(&mut self, tx: &Transaction) -> (r: Outcome)
        requires
            old(self).wf(),
            tx.tx_type is Resolve,
        ensures
            final(self).wf(),
            r == old(self)@.after_reference(*tx).1,
            final(self)@ == old(self)@.after_reference(*tx).0,
    {
        let orig = match self.tx_by_txid.get(&tx.id) {
            Some(o) => *o,
            None => return Outcome::UnknownTransaction,
        };
        let mut a = self.account_entry(tx.account);
        if a.locked {
            return Outcome::AccountLocked;
        }
        if orig.account != a.client {
            return Outcome::ClientMismatch;
        }
        if orig.status != TransactionStatus::Disputed {
            return Outcome::NotDisputed;
        }
        match orig.tx_type {
            TransactionType::Deposit | TransactionType::Withdrawal => {},
            _ => return Outcome::NotDisputable,
        }
        let m = match orig.amount {
            Some(m) => m.value(),
            None => return Outcome::MissingAmount,
        };
        if a.held < m {
            return Outcome::InsufficientHeld;
        }
        a.held = a.held - m;
        a.available = a.available + m;
        self.store_account(a);
        self.store_transaction(Transaction { status: TransactionStatus::Processed, ..orig });
        assert(self@.accounts =~= old(self)@.after_reference(*tx).0.accounts);
        assert(self@.transactions =~= old(self)@.after_reference(*tx).0.transactions);
        Outcome::Applied
    }

    /// Removes a disputed transaction of the same client from held and locks
    /// the account; a locked account does not stop it.
    fn apply_chargeback(&mut self, tx: &Transaction) -> (r: Outcome)
        requires
            old(self).wf(),
            tx.tx_type is Chargeback,
        ensures
            final(self).wf(),
            r == old(self)@.after_reference(*tx).1,
            final(self)@ == old(self)@.after_reference(*tx).0,
    {
        let orig = match self.tx_by_txid.get(&tx.id) {
            Some(o) => *o,
            None => return Outcome::UnknownTransaction,
        };
        let mut a = self.account_entry(tx.account);
        if orig.account != a.client {
            return Outcome::ClientMismatch;
        }
        if orig.status != TransactionStatus::Disputed {
            return Outcome::NotDisputed;
        }
        match orig.tx_type {
            TransactionType::Deposit | TransactionType::Withdrawal => {},
            _ => return Outcome::NotDisputable,
        }
        let m = match orig.amount {
            Some(m) => m.value(),
            None => return Outcome::MissingAmount,
        };
        if a.held < m {
            return Outcome::InsufficientHeld;
        }
        a.held = a.held - m;
        a.locked = true;
        self.store_account(a);
        self.store_transaction(Transaction { status: TransactionStatus::ChargedBacked, ..orig });
        assert(self@.accounts =~= old(self)@.after_reference(*tx).0.accounts);
        assert(self@.transactions =~= old(self)@.after_reference(*tx).0.transactions);
        Outcome::Applied
    }

    /// Applies one event. Deposits and withdrawals are stored under their id,
    /// `Failed` when refused and `Processed` otherwise; disputes, resolves and
    /// chargebacks update the transaction they reference.
    pub fn apply_transaction(&mut self, tx: Transaction) -> (r: Outcome)
        requires
            old(self).wf(),
        ensures
            final(self).wf(),
            final(self)@.inv(),
            final(self)@ == old(self)@.step(tx).0,
            r == old(self)@.step(tx).1,
            (tx.tx_type is Dispute || tx.tx_type is Resolve || tx.tx_type is Chargeback)
                && !old(self)@.transactions.contains_key(tx.id) ==> final(self)@ == old(self)@,
            (tx.tx_type is Deposit || tx.tx_type is Withdrawal) && old(self)@.accounts.contains_key(
                tx.account,
            ) && old(self)@.accounts[tx.account].locked ==> {
                &&& r == Outcome::AccountLocked
                &&& final(self)@.accounts == old(self)@.accounts
                &&& final(self)@.transactions[tx.id].status == TransactionStatus::Failed
            },
            tx.tx_type is Withdrawal && !old(self)@.account_or_fresh(tx.account).locked
                && (tx.amount matches Some(m) && m.inner > old(self)@.account_or_fresh(tx.account).available) ==> {
                &&& r == Outcome::InsufficientFunds
                &&& final(self)@.accounts == old(self)@.accounts.insert(
                    tx.account,
                    old(self)@.account_or_fresh(tx.account),
                )
                &&& final(self)@.transactions[tx.id].status == TransactionStatus::Processed
            },
            tx.tx_type is Dispute || tx.tx_type is Resolve ==> final(self)@.account_or_fresh(
                tx.account,
            ).total() == old(self)@.account_or_fresh(tx.account).total(),
            tx.tx_type is Chargeback ==> {
                &&& final(self)@.account_or_fresh(tx.account).available == old(
                    self,
                )@.account_or_fresh(tx.account).available
                &&& final(self)@.account_or_fresh(tx.account).held <= old(self)@.account_or_fresh(
                    tx.account,
                ).held
            },
    {
        proof {
            lemma_step_keeps_balances_in_range(old(self)@, tx);
            if tx.tx_type is Dispute || tx.tx_type is Resolve || tx.tx_type is Chargeback {
                if !old(self)@.transactions.contains_key(tx.id) {
                    lemma_unknown_reference_changes_nothing(old(self)@, tx);
                }
                lemma_references_move_no_money_in(old(self)@, tx);
            }
            if (tx.tx_type is Deposit || tx.tx_type is Withdrawal) && old(self)@.accounts.contains_key(
                tx.account,
            ) && old(self)@.accounts[tx.account].locked {
                lemma_locked_account_refuses_movements(old(self)@, tx);
            }
            if tx.tx_type is Withdrawal && !old(self)@.account_or_fresh(tx.account).locked
                && (tx.amount matches Some(m) && m.inner > old(self)@.account_or_fresh(tx.account).available) {
                lemma_overdraft_moves_nothing(old(self)@, tx);
            }
        }
        match tx.tx_type {
            TransactionType::Deposit => {
                let r = self.apply_deposit(&tx);
                let status = if r == Outcome::Applied {
                    TransactionStatus::Processed
                } else {
                    TransactionStatus::Failed
                };
                self.store_transaction(Transaction { status, ..tx });
                r
            },
            TransactionType::Withdrawal => {
                let r = self.apply_withdrawal(&tx);
                let status = if r == Outcome::Applied || r == Outcome::InsufficientFunds {
                    TransactionStatus::Processed
                } else {
                    TransactionStatus::Failed
                };
                self.store_transaction(Transaction { status, ..tx });
                r
            },
            TransactionType::Dispute => self.apply_dispute(&tx),
            TransactionType::Resolve => self.apply_resolve(&tx),
            TransactionType::Chargeback => self.apply_chargeback(&tx),
        }
    }

    /// Every account, each once; the order is that in which clients were first seen.
    pub fn snapshot(&self) -> (r: Vec<Account>)
        requires
            self.wf(),
        ensures
            self@.inv(),
            forall|i: int|
                0 <= i < r@.len() ==> self@.accounts.contains_key(#[trigger] r@[i].client)
                    && r@[i]@ == self@.accounts[r@[i].client],
            forall|c: u16|
                #[trigger] self@.accounts.contains_key(c) ==> exists|i: int|
                    0 <= i < r@.len() && #[trigger] r@[i].client == c,
            forall|i: int, j: int|
                0 <= i < j < r@.len() ==> #[trigger] r@[i].client != #[trigger] r@[j].client,
    {
        let mut r: Vec<Account> = Vec::new();
        let mut k: usize = 0;
        while k < self.clients.len()
            invariant
                self.wf(),
                k <= self.clients@.len(),
                r@.len() == k,
                forall|i: int|
                    0 <= i < k ==> #[trigger] r@[i].client == self.clients@[i]
                        && self@.accounts.contains_key(r@[i].client)
                        && r@[i]@ == self@.accounts[r@[i].client],
            decreases self.clients@.len() - k,
        {
            let c = self.clients[k];
            assert(self.accounts_by_client@.contains_key(self.clients@[k as int]));
            let a = *self.accounts_by_client.get(&c).unwrap();
            let ghost before = r@;
            r.push(a);
            assert(self@.accounts.contains_key(c) && self@.accounts[c] == a@);
            assert(r@[k as int].client == self.clients@[k as int]);
            assert forall|i: int| 0 <= i < k implies #[trigger] r@[i] == before[i] by {}
            k = k + 1;
        }
        assert forall|c: u16| #[trigger] self@.accounts.contains_key(c) implies exists|i: int|
            0 <= i < r@.len() && #[trigger] r@[i].client == c by {
            assert(self.clients@.contains(c));
            let i = choose|i: int| 0 <= i < self.clients@.len() && self.clients@[i] == c;
            assert(r@[i].client == c);
        }
        assert forall|i: int, j: int| 0 <= i < j < r@.len() implies #[trigger] r@[i].client
            != #[trigger] r@[j].client by {
            assert(r@[i].client == self.clients@[i]);
            assert(r@[j].client == self.clients@[j]);
        }
        r
    }

    /// The client's account, if it has one.
    pub fn account(&self, client: u16) -> (r: Option<Account>)
        requires
            self.wf(),
        ensures
            self@.inv(),
            match r {
                Some(a) => self@.accounts.contains_key(client) && a@ == self@.accounts[client],
                None => !self@.accounts.contains_key(client),
            },
    {
        match self.accounts_by_client.get(&client) {
            Some(a) => Some(*a),
            None => None,
        }
    }

    /// The deposit or withdrawal stored under `id`, if any.
    pub fn transaction(&self, id: u32) -> (r: Option<Transaction>)
        ensures
            r == (if self@.transactions.contains_key(id) {
                Some(self@.transactions[id])
            } else {
                None::<Transaction>
            }),
    {
        match self.tx_by_txid.get(&id) {
            Some(t) => Some(*t),
            None => None,
        }
    }
}

} // verus!
