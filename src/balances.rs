use std::collections::HashMap;
use vstd::prelude::*;

use crate::types::Error;

verus! {

broadcast use vstd::std_specs::hash::group_hash_axioms;

/// The funds of one account: what it may spend, and what is held in escrow.
#[derive(Debug, Clone, Copy, PartialEq, Eq, Structural)]
pub struct AccountData {
    pub free: u64,
    pub reserved: u64,
}

pub open spec fn empty_account() -> AccountData {
    AccountData { free: 0, reserved: 0 }
}

/// The currency ledger: free and reserved balance per account, with the
/// reserve, unreserve and transfer-from-reserved primitives the market uses.
/// Each primitive either succeeds or changes nothing.
pub struct Balances {
    accounts: HashMap<u64, AccountData>,
}

impl Balances {
    /// The funds of `who`; an account never credited holds nothing.
    pub closed spec fn account(&self, who: u64) -> AccountData {
        if self.accounts@.contains_key(who) {
            self.accounts@[who]
        } else {
            empty_account()
        }
    }

    /// No account holds more than the largest amount, free and reserved together.
    pub closed spec fn wf(&self) -> bool {
        forall|who: u64| #[trigger]
            self.account(who).free as int + self.account(who).reserved as int <= u64::MAX as int
    }

    pub proof fn lemma_account_fits(&self, who: u64)
        requires
            self.wf(),
        ensures
            self.account(who).free as int + self.account(who).reserved as int <= u64::MAX,
    {
    }

    pub fn new() -> (r: Balances)
        ensures
            r.wf(),
            forall|who: u64| #[trigger] r.account(who) == empty_account(),
    {
        Balances { accounts: HashMap::new() }
    }

    fn read(&self, who: u64) -> (r: AccountData)
        ensures
            r == self.account(who),
    {
        match self.accounts.get(&who) {
            Some(a) => *a,
            None => AccountData { free: 0, reserved: 0 },
        }
    }

    fn write(&mut self, who: u64, data: AccountData)
        ensures
            final(self).account(who) == data,
            forall|o: u64| o != who ==> #[trigger] final(self).account(o) == old(self).account(o),
    {
        self.accounts.insert(who, data);
    }

    /// Sets the free balance of `who`, as at genesis; the reserved part stays.
    pub fn set_free_balance(&mut self, who: u64, free: u64) -> (r: Result<(), Error>)
        requires
            old(self).wf(),
        ensures
            final(self).wf(),
            r is Ok <==> free as int + old(self).account(who).reserved as int <= u64::MAX,
            r is Ok ==> final(self).account(who) == (AccountData {
                free,
                reserved: old(self).account(who).reserved,
            }),
            r is Err ==> r == Err::<(), Error>(Error::Overflow) && final(self).account(who)
                == old(self).account(who),
            forall|o: u64| o != who ==> #[trigger] final(self).account(o) == old(self).account(o),
    {
        let a = self.read(who);
        if free > u64::MAX - a.reserved {
            return Err(Error::Overflow);
        }
        self.write(who, AccountData { free, reserved: a.reserved });
        Ok(())
    }

    pub fn free_balance(&self, who: u64) -> (r: u64)
        ensures
            r == self.account(who).free,
    {
        self.read(who).free
    }

    pub fn reserved_balance(&self, who: u64) -> (r: u64)
        ensures
            r == self.account(who).reserved,
    {
        self.read(who).reserved
    }

    /// Moves `amount` of `who`'s free balance into its reserved balance.
    pub fn reserve(&mut self, who: u64, amount: u64) -> (r: Result<(), Error>)
        requires
            old(self).wf(),
        ensures
            final(self).wf(),
            r is Ok <==> amount <= old(self).account(who).free,
            r is Ok ==> reserved_from(old(self), final(self), who, amount),
            r is Err ==> unchanged(old(self), final(self)),
            r is Ok ==> final(self).account(who) == (AccountData {
                free: (old(self).account(who).free - amount) as u64,
                reserved: (old(self).account(who).reserved + amount) as u64,
            }),
            r is Err ==> r == Err::<(), Error>(Error::InsufficientBalance)
                && final(self).account(who) == old(self).account(who),
            forall|o: u64| o != who ==> #[trigger] final(self).account(o) == old(self).account(o),
    {
        let a = self.read(who);
        proof {
            self.lemma_account_fits(who);
        }
        if amount > a.free {
            return Err(Error::InsufficientBalance);
        }
        self.write(who, AccountData { free: a.free - amount, reserved: a.reserved + amount });
        Ok(())
    }

    /// Moves `amount` of `who`'s reserved balance back into its free balance.
    pub fn unreserve(&mut self, who: u64, amount: u64) -> (r: Result<(), Error>)
        requires
            old(self).wf(),
        ensures
            final(self).wf(),
            r is Ok <==> amount <= old(self).account(who).reserved,
            r is Ok ==> released_to(old(self), final(self), who, amount),
            r is Err ==> unchanged(old(self), final(self)),
            r is Ok ==> final(self).account(who) == (AccountData {
                free: (old(self).account(who).free + amount) as u64,
                reserved: (old(self).account(who).reserved - amount) as u64,
            }),
            r is Err ==> r == Err::<(), Error>(Error::InsufficientBalance)
                && final(self).account(who) == old(self).account(who),
            forall|o: u64| o != who ==> #[trigger] final(self).account(o) == old(self).account(o),
    {
        let a = self.read(who);
        proof {
            self.lemma_account_fits(who);
        }
        if amount > a.reserved {
            return Err(Error::InsufficientBalance);
        }
        self.write(who, AccountData { free: a.free + amount, reserved: a.reserved - amount });
        Ok(())
    }

    /// Pays `amount` out of `from`'s reserved balance into `to`'s free balance.
    pub fn transfer_from_reserved(&mut self, from: u64, to: u64, amount: u64) -> (r: Result<
        (),
        Error,
    >)
        requires
            old(self).wf(),
        ensures
            final(self).wf(),
            r == transfer_outcome(old(self).account(from), old(self).account(to), from, to, amount),
            r is Ok ==> paid_from_reserve(old(self), final(self), from, to, amount),
            r is Err ==> unchanged(old(self), final(self)),
            r is Ok && from != to ==> final(self).account(from) == (AccountData {
                free: old(self).account(from).free,
                reserved: (old(self).account(from).reserved - amount) as u64,
            }) && final(self).account(to) == (AccountData {
                free: (old(self).account(to).free + amount) as u64,
                reserved: old(self).account(to).reserved,
            }),
            r is Ok && from == to ==> final(self).account(from) == (AccountData {
                free: (old(self).account(from).free + amount) as u64,
                reserved: (old(self).account(from).reserved - amount) as u64,
            }),
            r is Err ==> final(self).account(from) == old(self).account(from)
                && final(self).account(to) == old(self).account(to),
            forall|o: u64|
                o != from && o != to ==> #[trigger] final(self).account(o) == old(self).account(o),
    {
        if from == to {
            return match self.unreserve(from, amount) {
                Ok(()) => Ok(()),
                Err(e) => Err(e),
            };
        }
        let a = self.read(from);
        let b = self.read(to);
        proof {
            self.lemma_account_fits(to);
        }
        if amount > a.reserved {
            return Err(Error::InsufficientBalance);
        }
        if amount > u64::MAX - b.free - b.reserved {
            return Err(Error::Overflow);
        }
        self.write(from, AccountData { free: a.free, reserved: a.reserved - amount });
        self.write(to, AccountData { free: b.free + amount, reserved: b.reserved });
        Ok(())
    }
}

/// `b` is `a` with `amount` of `who`'s free balance moved into reserve.
pub open spec fn reserved_from(a: &Balances, b: &Balances, who: u64, amount: u64) -> bool {
    &&& b.account(who) == (AccountData {
        free: (a.account(who).free - amount) as u64,
        reserved: (a.account(who).reserved + amount) as u64,
    })
    &&& forall|o: u64| o != who ==> #[trigger] b.account(o) == a.account(o)
}

/// `b` is `a` with `amount` of `who`'s reserve moved back to its free balance.
pub open spec fn released_to(a: &Balances, b: &Balances, who: u64, amount: u64) -> bool {
    &&& b.account(who) == (AccountData {
        free: (a.account(who).free + amount) as u64,
        reserved: (a.account(who).reserved - amount) as u64,
    })
    &&& forall|o: u64| o != who ==> #[trigger] b.account(o) == a.account(o)
}

/// `b` is `a` with `amount` paid out of `from`'s reserve into `to`'s free
/// balance.
pub open spec fn paid_from_reserve(a: &Balances, b: &Balances, from: u64, to: u64, amount: u64) -> bool {
    if from == to {
        released_to(a, b, from, amount)
    } else {
        &&& b.account(from) == (AccountData {
            free: a.account(from).free,
            reserved: (a.account(from).reserved - amount) as u64,
        })
        &&& b.account(to) == (AccountData {
            free: (a.account(to).free + amount) as u64,
            reserved: a.account(to).reserved,
        })
        &&& forall|o: u64| o != from && o != to ==> #[trigger] b.account(o) == a.account(o)
    }
}

/// Every account of `b` holds what it held in `a`.
pub open spec fn unchanged(a: &Balances, b: &Balances) -> bool {
    forall|o: u64| #[trigger] b.account(o) == a.account(o)
}

/// What a transfer from `from`'s reserve to `to`'s free balance returns.
pub open spec fn transfer_outcome(
    a: AccountData,
    b: AccountData,
    from: u64,
    to: u64,
    amount: u64,
) -> Result<(), Error> {
    if amount > a.reserved {
        Err(Error::InsufficientBalance)
    } else if from != to && b.free + b.reserved + amount > u64::MAX {
        Err(Error::Overflow)
    } else {
        Ok(())
    }
}

} // verus!
