use crate::amount::Amount;
use std::collections::HashMap;
use vstd::prelude::*;

verus! {

broadcast use vstd::std_specs::hash::group_hash_axioms;

/// The five kinds of transaction record.
#[derive(Clone, Copy, Debug, PartialEq, Eq, Structural)]
pub enum TransactionType {
    Deposit,
    Withdrawal,
    Dispute,
    Resolve,
    Chargeback,
}

/// One input record. Deposits and withdrawals carry an amount; disputes, resolves and
/// chargebacks name the deposit they refer to by `tx_id`.
#[derive(Clone, Copy, Debug)]
pub struct TransactionRecord {
    pub client: u16,
    pub tx_type: TransactionType,
    pub tx_id: u32,
    pub amount: Option<Amount>,
}

impl TransactionRecord {
    /// Any amount it carries is one that the decimal type holds.
    pub open spec fn wf(self) -> bool {
        self.amount matches Some(a) ==> a.wf()
    }
}

/// A deposit kept so that later records can dispute, resolve or charge it back.
#[derive(Clone, Copy, Debug)]
pub struct DepositRecord {
    pub disputed: bool,
    pub amount: Amount,
}

/// Why a record was rejected without changing the account.
#[derive(Clone, Copy, Debug, PartialEq, Eq, Structural)]
pub enum TransactionError {
    /// A deposit or withdrawal without an amount.
    MissingAmount,
    /// A withdrawal of more than is available.
    InsufficientFunds,
    /// A chargeback of a deposit that is not under dispute.
    InvalidChargeback,
    /// The new balance is beyond what the decimal type holds.
    Overflow,
}

/// One client's balances and the deposits that can still be disputed.
pub struct Account {
    pub available: Amount,
    pub held: Amount,
    pub locked: bool,
    deposits: HashMap<u32, DepositRecord>,
}

/// The mathematical state of an account.
pub struct AccountView {
    pub available: Amount,
    pub held: Amount,
    pub locked: bool,
    pub deposits: Map<u32, DepositRecord>,
}

impl View for Account {
    type V = AccountView;

    closed spec fn view(&self) -> AccountView {
        AccountView {
            available: self.available,
            held: self.held,
            locked: self.locked,
            deposits: self.deposits@,
        }
    }
}

impl AccountView {
    /// Every amount in the state is one that the decimal type holds.
    pub open spec fn wf(self) -> bool {
        &&& self.available.wf()
        &&& self.held.wf()
        &&& forall|id: u32| #[trigger] self.deposits.contains_key(id) ==> self.deposits[id].amount.wf()
    }

    /// A new account: zero balances at four fractional digits, unlocked, no deposits.
    pub open spec fn fresh() -> AccountView {
        AccountView {
            available: Amount { mantissa: 0, scale: 4 },
            held: Amount { mantissa: 0, scale: 4 },
            locked: false,
            deposits: Map::empty(),
        }
    }

    /// The deposit `id` is known and under dispute.
    pub open spec fn is_disputed(self, id: u32) -> bool {
        self.deposits.contains_key(id) && self.deposits[id].disputed
    }

    /// The deposit `id` is known and not under dispute.
    pub open spec fn is_undisputed(self, id: u32) -> bool {
        self.deposits.contains_key(id) && !self.deposits[id].disputed
    }

    /// A deposit of `a` under `id`: the amount becomes available and the deposit is kept,
    /// not disputed.
    pub open spec fn deposit_step(self, id: u32, a: Amount) -> (AccountView, Result<(), TransactionError>) {
        match Amount::plus(self.available, a) {
            None => (self, Err(TransactionError::Overflow)),
            Some(n) => (
                AccountView {
                    available: n,
                    deposits: self.deposits.insert(id, DepositRecord { disputed: false, amount: a }),
                    ..self
                },
                Ok(()),
            ),
        }
    }

    /// A withdrawal of `a`: refused where it exceeds what is available.
    pub open spec fn withdraw_step(self, a: Amount) -> (AccountView, Result<(), TransactionError>) {
        if self.available.units() < a.units() {
            (self, Err(TransactionError::InsufficientFunds))
        } else {
            match Amount::minus(self.available, a) {
                None => (self, Err(TransactionError::Overflow)),
                Some(n) => (AccountView { available: n, ..self }, Ok(())),
            }
        }
    }

    /// A dispute of deposit `id`: where it is known and not yet disputed, its amount moves
    /// from available to held.
    pub open spec fn dispute_step(self, id: u32) -> (AccountView, Result<(), TransactionError>) {
        if self.is_undisputed(id) {
            let d = self.deposits[id];
            match (Amount::minus(self.available, d.amount), Amount::plus(self.held, d.amount)) {
                (Some(av), Some(h)) => (
                    AccountView {
                        available: av,
                        held: h,
                        locked: self.locked,
                        deposits: self.deposits.insert(id, DepositRecord { disputed: true, amount: d.amount }),
                    },
                    Ok(()),
                ),
                _ => (self, Err(TransactionError::Overflow)),
            }
        } else {
            (self, Ok(()))
        }
    }

    /// A resolve of deposit `id`: where it is under dispute, its amount moves back from
    /// held to available.
    pub open spec fn resolve_step(self, id: u32) -> (AccountView, Result<(), TransactionError>) {
        if self.is_disputed(id) {
            let d = self.deposits[id];
            match (Amount::plus(self.available, d.amount), Amount::minus(self.held, d.amount)) {
                (Some(av), Some(h)) => (
                    AccountView {
                        available: av,
                        held: h,
                        locked: self.locked,
                        deposits: self.deposits.insert(id, DepositRecord { disputed: false, amount: d.amount }),
                    },
                    Ok(()),
                ),
                _ => (self, Err(TransactionError::Overflow)),
            }
        } else {
            (self, Ok(()))
        }
    }

    /// A chargeback of deposit `id`: where it is under dispute, its amount leaves the held
    /// funds and the account is locked; a known deposit not under dispute is refused.
    pub open spec fn chargeback_step(self, id: u32) -> (AccountView, Result<(), TransactionError>) {
        if self.is_disputed(id) {
            match Amount::minus(self.held, self.deposits[id].amount) {
                Some(h) => (AccountView { held: h, locked: true, ..self }, Ok(())),
                None => (self, Err(TransactionError::Overflow)),
            }
        } else if self.deposits.contains_key(id) {
            (self, Err(TransactionError::InvalidChargeback))
        } else {
            (self, Ok(()))
        }
    }

    /// The state after applying `rec`, and whether it was rejected. A rejected record,
    /// and a dispute, resolve or chargeback naming no suitable deposit, leave the state as
    /// it was.
    pub open spec fn step(self, rec: TransactionRecord) -> (AccountView, Result<(), TransactionError>) {
        match rec.tx_type {
            TransactionType::Deposit => match rec.amount {
                None => (self, Err(TransactionError::MissingAmount)),
                Some(a) => self.deposit_step(rec.tx_id, a),
            },
            TransactionType::Withdrawal => match rec.amount {
                None => (self, Err(TransactionError::MissingAmount)),
                Some(a) => self.withdraw_step(a),
            },
            TransactionType::Dispute => self.dispute_step(rec.tx_id),
            TransactionType::Resolve => self.resolve_step(rec.tx_id),
            TransactionType::Chargeback => self.chargeback_step(rec.tx_id),
        }
    }

    /// The state after applying `rec`.
    pub open spec fn next(self, rec: TransactionRecord) -> AccountView {
        self.step(rec).0
    }
}

impl Account {
    pub open spec fn wf(&self) -> bool {
        self@.wf()
    }

    /// A new account with zero balances, unlocked.
    pub fn new() -> (r: Account)
        ensures
            r@ == AccountView::fresh(),
            r.wf(),
    {
        let r = Account {
            available: Amount::zero(4),
            held: Amount::zero(4),
            locked: false,
            deposits: HashMap::new(),
        };
        assert(r@.deposits =~= Map::empty());
        r
    }

    /// Available plus held funds, or `None` where the decimal type overflows.
    pub fn total(&self) -> (r: Option<Amount>)
        requires
            self.wf(),
        ensures
            r == Amount::plus(self@.available, self@.held),
            Amount::sum_fits(self@.available, self@.held) ==> (r matches Some(t) && t.units()
                == self@.available.units() + self@.held.units()),
    {
        self.available.checked_add(self.held)
    }

    /// The deposit `id`, copied out, if it is known.
    fn find(&self, id: u32) -> (r: Option<DepositRecord>)
        ensures
            r == (if self@.deposits.contains_key(id) { Some(self@.deposits[id]) } else { None }),
    {
        match self.deposits.get(&id) {
            Some(d) => Some(*d),
            None => None,
        }
    }

    fn lock(&mut self)
        ensures
            final(self)@ == (AccountView { locked: true, ..old(self)@ }),
    {
        self.locked = true;
    }

    fn deposit(&mut self, id: u32, amount: Amount) -> (r: Result<(), TransactionError>)
        requires
            old(self).wf(),
            amount.wf(),
        ensures
            (final(self)@, r) == old(self)@.deposit_step(id, amount),
            final(self).wf(),
    {
        match self.available.checked_add(amount) {
            None => Err(TransactionError::Overflow),
            Some(n) => {
                self.deposits.insert(id, DepositRecord { disputed: false, amount });
                self.available = n;
                assert forall|k: u32| #[trigger] self@.deposits.contains_key(k) implies self@.deposits[k].amount.wf() by {
                    if k != id {
                        assert(old(self)@.deposits.contains_key(k));
                    }
                }
                Ok(())
            },
        }
    }

    fn withdraw(&mut self, amount: Amount) -> (r: Result<(), TransactionError>)
        requires
            old(self).wf(),
            amount.wf(),
        ensures
            (final(self)@, r) == old(self)@.withdraw_step(amount),
            final(self).wf(),
    {
        if self.available.less_than(&amount) {
            return Err(TransactionError::InsufficientFunds);
        }
        match self.available.checked_sub(amount) {
            None => Err(TransactionError::Overflow),
            Some(n) => {
                self.available = n;
                Ok(())
            },
        }
    }

    fn dispute(&mut self, id: u32) -> (r: Result<(), TransactionError>)
        requires
            old(self).wf(),
        ensures
            (final(self)@, r) == old(self)@.dispute_step(id),
            final(self).wf(),
    {
        if let Some(d) = self.find(id) {
            if !d.disputed {
                match (self.available.checked_sub(d.amount), self.held.checked_add(d.amount)) {
                    (Some(av), Some(h)) => {
                        self.deposits.insert(id, DepositRecord { disputed: true, amount: d.amount });
                        self.available = av;
                        self.held = h;
                    },
                    _ => {
                        return Err(TransactionError::Overflow);
                    },
                }
            }
        }
        Ok(())
    }

    fn resolve(&mut self, id: u32) -> (r: Result<(), TransactionError>)
        requires
            old(self).wf(),
        ensures
            (final(self)@, r) == old(self)@.resolve_step(id),
            final(self).wf(),
    {
        if let Some(d) = self.find(id) {
            if d.disputed {
                match (self.available.checked_add(d.amount), self.held.checked_sub(d.amount)) {
                    (Some(av), Some(h)) => {
                        self.deposits.insert(id, DepositRecord { disputed: false, amount: d.amount });
                        self.available = av;
                        self.held = h;
                    },
                    _ => {
                        return Err(TransactionError::Overflow);
                    },
                }
            }
        }
        Ok(())
    }

    fn chargeback(&mut self, id: u32) -> (r: Result<(), TransactionError>)
        requires
            old(self).wf(),
        ensures
            (final(self)@, r) == old(self)@.chargeback_step(id),
            final(self).wf(),
    {
        if let Some(d) = self.find(id) {
            if !d.disputed {
                return Err(TransactionError::InvalidChargeback);
            }
            match self.held.checked_sub(d.amount) {
                Some(h) => {
                    self.held = h;
                    self.lock();
                },
                None => {
                    return Err(TransactionError::Overflow);
                },
            }
        }
        Ok(())
    }

    /// Applies one record. A record that is rejected, and one that names no suitable
    /// deposit, changes nothing; the error says why a rejected one was.
    pub fn process(&mut self, transaction: &TransactionRecord) -> (r: Result<(), TransactionError>)
        requires
            old(self).wf(),
            transaction.wf(),
        ensures
            final(self)@ == old(self)@.next(*transaction),
            r == old(self)@.step(*transaction).1,
            final(self).wf(),
    {
        match transaction.tx_type {
            TransactionType::Deposit => match transaction.amount {
                Some(amount) => self.deposit(transaction.tx_id, amount),
                None => Err(TransactionError::MissingAmount),
            },
            TransactionType::Withdrawal => match transaction.amount {
                Some(amount) => self.withdraw(amount),
                None => Err(TransactionError::MissingAmount),
            },
            TransactionType::Dispute => self.dispute(transaction.tx_id),
            TransactionType::Resolve => self.resolve(transaction.tx_id),
            TransactionType::Chargeback => self.chargeback(transaction.tx_id),
        }
    }
}

impl Default for Account {
    fn default() -> (r: Account)
        ensures
            r@ == AccountView::fresh(),
            r.wf(),
    {
        Account::new()
    }
}

} // verus!
