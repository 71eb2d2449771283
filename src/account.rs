use vstd::prelude::*;

verus! {

/// The balances of one client.
#[derive(Clone, Copy, Debug, PartialEq, Eq, Structural)]
pub struct Account {
    pub client: u16,
    pub available: u64,
    pub held: u64,
    pub locked: bool,
}

/// An account with its balances as mathematical integers.
pub struct AccountModel {
    pub client: u16,
    pub available: int,
    pub held: int,
    pub locked: bool,
}

impl AccountModel {
    /// The account that a client gets when it is first referenced.
    pub open spec fn fresh(client: u16) -> AccountModel {
        AccountModel { client, available: 0, held: 0, locked: false }
    }

    /// Both balances are non-negative and their sum fits in a `u64`.
    pub open spec fn in_range(self) -> bool {
        &&& 0 <= self.available
        &&& 0 <= self.held
        &&& self.available + self.held <= u64::MAX
    }

    pub open spec fn total(self) -> int {
        self.available + self.held
    }
}

impl View for Account {
    type V = AccountModel;

    open spec fn view(&self) -> AccountModel {
        AccountModel {
            client: self.client,
            available: self.available as int,
            held: self.held as int,
            locked: self.locked,
        }
    }
}

impl Account {
    /// A new, unlocked account with nothing available and nothing held.
    pub fn new_with_client(client: u16) -> (r: Account)
        ensures
            r@ == AccountModel::fresh(client),
    {
        Account { client, available: 0, held: 0, locked: false }
    }

    /// `available + held`, or `None` where the sum does not fit in a `u64`.
    pub fn total(&self) -> (r: Option<u64>)
        ensures
            r == (if self@.total() <= u64::MAX {
                Some((self.available + self.held) as u64)
            } else {
                None::<u64>
            }),
    {
        self.available.checked_add(self.held)
    }
}

} // verus!
