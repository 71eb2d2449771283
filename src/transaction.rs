use vstd::prelude::*;

use crate::amount::Amount;

verus! {

/// The five kinds of ledger event.
#[derive(Clone, Copy, Debug, PartialEq, Eq, Structural)]
pub enum TransactionType {
    Deposit,
    Withdrawal,
    Dispute,
    Resolve,
    Chargeback,
}

/// Where a stored deposit or withdrawal stands in its lifecycle.
#[derive(Clone, Copy, Debug, PartialEq, Eq, Structural)]
pub enum TransactionStatus {
    Unprocessed,
    Processed,
    Failed,
    Disputed,
    ChargedBacked,
}

/// One ledger event; `id` names the event itself for deposits and
/// withdrawals, and the referenced deposit or withdrawal otherwise.
#[derive(Clone, Copy, Debug, PartialEq, Eq, Structural)]
pub struct Transaction {
    pub id: u32,
    pub tx_type: TransactionType,
    pub account: u16,
    pub amount: Option<Amount>,
    pub status: TransactionStatus,
}

/// The kind named by a lower-case tag, if any.
pub open spec fn type_of_tag(tag: Seq<char>) -> Option<TransactionType> {
    if tag == "deposit"@ {
        Some(TransactionType::Deposit)
    } else if tag == "withdrawal"@ {
        Some(TransactionType::Withdrawal)
    } else if tag == "dispute"@ {
        Some(TransactionType::Dispute)
    } else if tag == "resolve"@ {
        Some(TransactionType::Resolve)
    } else if tag == "chargeback"@ {
        Some(TransactionType::Chargeback)
    } else {
        None
    }
}

/// Character-by-character equality of two strings.
fn same_text(a: &str, b: &str) -> (r: bool)
    ensures
        r == (a@ == b@),
{
    let n = a.unicode_len();
    if n != b.unicode_len() {
        return false;
    }
    let mut i: usize = 0;
    while i < n
        invariant
            n == a@.len(),
            n == b@.len(),
            i <= n,
            a@.subrange(0, i as int) == b@.subrange(0, i as int),
        decreases n - i,
    {
        if a.get_char(i) != b.get_char(i) {
            assert(a@[i as int] != b@[i as int]);
            return false;
        }
        assert(a@.subrange(0, i + 1) =~= a@.subrange(0, i as int).push(a@[i as int]));
        assert(b@.subrange(0, i + 1) =~= b@.subrange(0, i as int).push(b@[i as int]));
        i = i + 1;
    }
    assert(a@ =~= a@.subrange(0, n as int));
    assert(b@ =~= b@.subrange(0, n as int));
    true
}

impl TransactionType {
    /// Reads a case-sensitive, lower-case tag.
    pub fn parse(tag: &str) -> (r: Option<TransactionType>)
        ensures
            r == type_of_tag(tag@),
    {
        if same_text(tag, "deposit") {
            Some(TransactionType::Deposit)
        } else if same_text(tag, "withdrawal") {
            Some(TransactionType::Withdrawal)
        } else if same_text(tag, "dispute") {
            Some(TransactionType::Dispute)
        } else if same_text(tag, "resolve") {
            Some(TransactionType::Resolve)
        } else if same_text(tag, "chargeback") {
            Some(TransactionType::Chargeback)
        } else {
            None
        }
    }
}

impl Transaction {
    /// The unprocessed event that a row with these fields describes, or
    /// `None` where the tag names no kind of event.
    pub fn from_parts(tag: &str, client: u16, id: u32, amount: Option<Amount>) -> (r: Option<
        Transaction,
    >)
        ensures
            r == (match type_of_tag(tag@) {
                Some(t) => Some(
                    Transaction {
                        id,
                        tx_type: t,
                        account: client,
                        amount,
                        status: TransactionStatus::Unprocessed,
                    },
                ),
                None => None::<Transaction>,
            }),
    {
        match TransactionType::parse(tag) {
            Some(tx_type) => Some(
                Transaction { id, tx_type, account: client, amount, status: TransactionStatus::Unprocessed },
            ),
            None => None,
        }
    }
}

impl std::str::FromStr for TransactionType {
    type Err = String;

    /// The kind that a lower-case tag names, or an error message that quotes the tag.
    fn from_str(tag: &str) -> (r: Result<TransactionType, String>)
        ensures
            match type_of_tag(tag@) {
                Some(t) => r == Ok::<TransactionType, String>(t),
                None => r is Err && r->Err_0@ == "'"@ + tag@ + "' is not a valid TransactionType"@,
            },
    {
        match TransactionType::parse(tag) {
            Some(t) => Ok(t),
            None => {
                let mut msg = String::new();
                msg.append("'");
                msg.append(tag);
                msg.append("' is not a valid TransactionType");
                Err(msg)
            },
        }
    }
}

} // verus!
