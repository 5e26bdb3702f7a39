//! What holds of the account state machine over one record and over a run of records.

use crate::account::{AccountView, TransactionRecord, TransactionType};
use crate::amount::{
    lemma_aligned_shrink, lemma_exact_difference, lemma_exact_sum, lemma_zero_aligned, magnitude,
    mantissa_limit, max_scale, Amount, MAX_SCALE,
};
use vstd::prelude::*;

verus! {

/// Disputing the same deposit twice in a row leaves the account as disputing it once.
pub proof fn lemma_dispute_idempotent(v: AccountView, rec: TransactionRecord)
    requires
        rec.tx_type == TransactionType::Dispute,
    ensures
        v.next(rec).next(rec) == v.next(rec),
{
    let w = v.next(rec);
    if w != v {
        assert(w.deposits[rec.tx_id].disputed);
    }
}

/// A chargeback of a deposit that is not under dispute changes neither the balances nor
/// the lock.
pub proof fn lemma_chargeback_needs_dispute(v: AccountView, rec: TransactionRecord)
    requires
        rec.tx_type == TransactionType::Chargeback,
        !v.is_disputed(rec.tx_id),
    ensures
        v.next(rec) == v,
{
}

/// Once locked, an account stays locked whatever record comes next.
pub proof fn lemma_locked_stays_locked(v: AccountView, rec: TransactionRecord)
    requires
        v.locked,
    ensures
        v.next(rec).locked,
{
}

/// A dispute or a resolve whose arithmetic fits the decimal type moves value between
/// available and held without changing their sum.
pub proof fn lemma_dispute_resolve_keep_total(v: AccountView, rec: TransactionRecord)
    requires
        v.wf(),
        rec.tx_type == TransactionType::Dispute || rec.tx_type == TransactionType::Resolve,
        v.deposits.contains_key(rec.tx_id) ==> {
            let x = v.deposits[rec.tx_id].amount;
            &&& Amount::difference_fits(v.available, x) && Amount::sum_fits(v.held, x)
            &&& Amount::sum_fits(v.available, x) && Amount::difference_fits(v.held, x)
        },
    ensures
        v.next(rec).available.units() + v.next(rec).held.units() == v.available.units() + v.held.units(),
{
    if v.deposits.contains_key(rec.tx_id) {
        let x = v.deposits[rec.tx_id].amount;
        lemma_exact_difference(v.available, x);
        lemma_exact_sum(v.held, x);
        lemma_exact_sum(v.available, x);
        lemma_exact_difference(v.held, x);
    }
}

/// A dispute that was applied exactly can be undone exactly: the resolve fits and
/// restores the values.
proof fn lemma_undo_dispute(av: Amount, h: Amount, x: Amount)
    requires
        av.wf(),
        h.wf(),
        x.wf(),
        Amount::difference_fits(av, x),
        Amount::sum_fits(h, x),
    ensures
        Amount::sum_fits(Amount::exact_difference(av, x), x),
        Amount::difference_fits(Amount::exact_sum(h, x), x),
        Amount::exact_sum(Amount::exact_difference(av, x), x).units() == av.units(),
        Amount::exact_difference(Amount::exact_sum(h, x), x).units() == h.units(),
{
    lemma_exact_difference(av, x);
    lemma_exact_sum(h, x);
    let a1 = Amount::exact_difference(av, x);
    let h1 = Amount::exact_sum(h, x);
    let s1 = max_scale(av, x) as nat;
    let s2 = max_scale(a1, x) as nat;
    assert(a1.aligned(s1) == av.aligned(s1) - x.aligned(s1));
    lemma_aligned_shrink(a1, x, s2, s1);
    lemma_exact_sum(a1, x);
    let t1 = max_scale(h, x) as nat;
    let t2 = max_scale(h1, x) as nat;
    assert(h1.aligned(t1) == h.aligned(t1) + x.aligned(t1));
    lemma_aligned_shrink(h1, x, t2, t1);
    lemma_exact_difference(h1, x);
}

/// A dispute followed by a resolve of the same deposit restores the available and held
/// values exactly, and leaves the deposits and the lock as they were, where the deposit
/// was not already under dispute and the dispute's arithmetic fits the decimal type.
pub proof fn lemma_dispute_resolve_round_trip(
    v: AccountView,
    dispute: TransactionRecord,
    resolve: TransactionRecord,
)
    requires
        v.wf(),
        dispute.tx_type == TransactionType::Dispute,
        resolve.tx_type == TransactionType::Resolve,
        dispute.tx_id == resolve.tx_id,
        !v.is_disputed(dispute.tx_id),
        v.is_undisputed(dispute.tx_id) ==> {
            let x = v.deposits[dispute.tx_id].amount;
            Amount::difference_fits(v.available, x) && Amount::sum_fits(v.held, x)
        },
    ensures
        ({
            let w = v.next(dispute).next(resolve);
            &&& w.available.units() == v.available.units()
            &&& w.held.units() == v.held.units()
            &&& w.locked == v.locked
            &&& w.deposits == v.deposits
        }),
{
    let id = dispute.tx_id;
    if v.is_undisputed(id) {
        let x = v.deposits[id].amount;
        lemma_undo_dispute(v.available, v.held, x);
        let w1 = v.next(dispute);
        assert(w1.deposits[id].disputed);
        let w = w1.next(resolve);
        assert(w.deposits =~= v.deposits);
    }
}

/// The state after the records, in order.
pub open spec fn run(v: AccountView, recs: Seq<TransactionRecord>) -> AccountView
    decreases recs.len(),
{
    if recs.len() == 0 {
        v
    } else {
        run(v, recs.drop_last()).next(recs.last())
    }
}

/// The sum of the deposits minus the sum of the withdrawals that did not exceed the
/// running balance, in units of 10^-28.
pub open spec fn balance_after(recs: Seq<TransactionRecord>) -> int
    decreases recs.len(),
{
    if recs.len() == 0 {
        0
    } else {
        let b = balance_after(recs.drop_last());
        let r = recs.last();
        match r.amount {
            None => b,
            Some(a) => match r.tx_type {
                TransactionType::Deposit => b + a.units(),
                TransactionType::Withdrawal => if b < a.units() {
                    b
                } else {
                    b - a.units()
                },
                _ => b,
            },
        }
    }
}

/// The sum of the magnitudes of the records' amounts, as mantissas at scale `s`.
pub open spec fn magnitude_sum(recs: Seq<TransactionRecord>, s: nat) -> int
    decreases recs.len(),
{
    if recs.len() == 0 {
        0
    } else {
        magnitude_sum(recs.drop_last(), s) + match recs.last().amount {
            None => 0,
            Some(a) => magnitude(a.aligned(s)),
        }
    }
}

/// Deposits and withdrawals, each amount holdable at scale `s`.
pub open spec fn money_records(recs: Seq<TransactionRecord>, s: nat) -> bool {
    forall|i: int|
        0 <= i < recs.len() ==> {
            &&& (#[trigger] recs[i]).tx_type == TransactionType::Deposit || recs[i].tx_type
                == TransactionType::Withdrawal
            &&& recs[i].amount matches Some(a) ==> a.wf() && a.scale <= s
        }
}

proof fn lemma_run_money(recs: Seq<TransactionRecord>, s: nat)
    requires
        4 <= s <= MAX_SCALE,
        money_records(recs, s),
        magnitude_sum(recs, s) < mantissa_limit(),
    ensures
        ({
            let w = run(AccountView::fresh(), recs);
            &&& w.available.wf()
            &&& w.available.scale <= s
            &&& w.available.units() == balance_after(recs)
            &&& magnitude(w.available.aligned(s)) <= magnitude_sum(recs, s)
            &&& w.held == AccountView::fresh().held
        }),
    decreases recs.len(),
{
    let z = AccountView::fresh().available;
    if recs.len() == 0 {
        lemma_zero_aligned(z, s);
        lemma_zero_aligned(z, MAX_SCALE as nat);
    } else {
        let pre = recs.drop_last();
        assert(money_records(pre, s)) by {
            assert forall|i: int| 0 <= i < pre.len() implies #[trigger] pre[i] == recs[i] by {}
        }
        let r = recs.last();
        assert(r == recs[recs.len() - 1]);
        assert(magnitude_sum(pre, s) <= magnitude_sum(recs, s));
        lemma_run_money(pre, s);
        let w0 = run(AccountView::fresh(), pre);
        let av = w0.available;
        match r.amount {
            None => {},
            Some(a) => {
                let s1 = max_scale(av, a) as nat;
                lemma_aligned_shrink(av, a, s1, s);
                if r.tx_type == TransactionType::Deposit {
                    assert(Amount::sum_fits(av, a));
                    lemma_exact_sum(av, a);
                } else if av.units() >= a.units() {
                    assert(Amount::difference_fits(av, a));
                    lemma_exact_difference(av, a);
                }
            },
        }
    }
}

/// Over deposits and withdrawals alone, starting from a new account, the total after the
/// records is the sum of the deposits minus the sum of the withdrawals that did not exceed
/// the available balance, where every amount, and the sum of their magnitudes, fits the
/// decimal type at one scale `s` of at least four digits.
pub proof fn lemma_total_of_deposits_and_withdrawals(recs: Seq<TransactionRecord>, s: nat)
    requires
        4 <= s <= MAX_SCALE,
        money_records(recs, s),
        magnitude_sum(recs, s) < mantissa_limit(),
    ensures
        run(AccountView::fresh(), recs).available.units() + run(AccountView::fresh(), recs).held.units()
            == balance_after(recs),
{
    lemma_run_money(recs, s);
    lemma_zero_aligned(AccountView::fresh().held, MAX_SCALE as nat);
}

} // verus!
