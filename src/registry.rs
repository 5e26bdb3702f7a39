use crate::account::{Account, AccountView, TransactionError, TransactionRecord};
use std::collections::HashMap;
use vstd::prelude::*;

verus! {

broadcast use vstd::std_specs::hash::group_hash_axioms;

/// The state of each client's account.
pub open spec fn registry_view(m: Map<u16, Account>) -> Map<u16, AccountView> {
    m.map_values(|a: Account| a@)
}

/// Every account in the registry is well formed.
pub open spec fn registry_wf(m: Map<u16, Account>) -> bool {
    forall|c: u16| #[trigger] m.contains_key(c) ==> m[c].wf()
}

/// The account that `rec` applies to: the client's, or a new one on first sight.
pub open spec fn account_for(m: Map<u16, AccountView>, client: u16) -> AccountView {
    if m.contains_key(client) {
        m[client]
    } else {
        AccountView::fresh()
    }
}

/// The registry after applying `rec` to its client's account.
pub open spec fn apply_spec(m: Map<u16, AccountView>, rec: TransactionRecord) -> Map<u16, AccountView> {
    m.insert(rec.client, account_for(m, rec.client).next(rec))
}

/// The registry after the parsed lines, in order, starting from no accounts; a line that
/// did not parse (`None`) is passed over.
pub open spec fn replay(lines: Seq<Option<TransactionRecord>>) -> Map<u16, AccountView>
    decreases lines.len(),
{
    if lines.len() == 0 {
        Map::empty()
    } else {
        let m = replay(lines.drop_last());
        match lines.last() {
            Some(rec) => apply_spec(m, rec),
            None => m,
        }
    }
}

/// Applies `record` to its client's account, creating the account on first sight.
pub fn apply_record(accounts: &mut HashMap<u16, Account>, record: &TransactionRecord) -> (r: Result<
    (),
    TransactionError,
>)
    requires
        registry_wf(old(accounts)@),
        record.wf(),
    ensures
        registry_wf(final(accounts)@),
        registry_view(final(accounts)@) == apply_spec(registry_view(old(accounts)@), *record),
        r == account_for(registry_view(old(accounts)@), record.client).step(*record).1,
{
    let client = record.client;
    let mut account = match accounts.remove(&client) {
        Some(a) => a,
        None => Account::new(),
    };
    assert(account@ == account_for(registry_view(old(accounts)@), client));
    let r = account.process(record);
    accounts.insert(client, account);
    assert(registry_view(accounts@) =~= apply_spec(registry_view(old(accounts)@), *record));
    r
}

/// Applies the parsed lines in order to a new registry, passing over the lines that did
/// not parse.
pub fn process_records(lines: &Vec<Option<TransactionRecord>>) -> (r: HashMap<u16, Account>)
    requires
        forall|i: int| 0 <= i < lines@.len() ==> (#[trigger] lines@[i] matches Some(rec) ==> rec.wf()),
    ensures
        registry_wf(r@),
        registry_view(r@) == replay(lines@),
{
    let mut accounts: HashMap<u16, Account> = HashMap::new();
    assert(registry_view(accounts@) =~= Map::empty());
    let mut i: usize = 0;
    while i < lines.len()
        invariant
            0 <= i <= lines@.len(),
            forall|j: int| 0 <= j < lines@.len() ==> (#[trigger] lines@[j] matches Some(rec) ==> rec.wf()),
            registry_wf(accounts@),
            registry_view(accounts@) == replay(lines@.take(i as int)),
        decreases lines@.len() - i,
    {
        assert(lines@.take(i as int + 1).drop_last() =~= lines@.take(i as int));
        match &lines[i] {
            Some(rec) => {
                let _ = apply_record(&mut accounts, rec);
            },
            None => {},
        }
        i = i + 1;
    }
    assert(lines@.take(i as int) =~= lines@);
    accounts
}

/// The lines that parsed, in order.
pub open spec fn parsed(lines: Seq<Option<TransactionRecord>>) -> Seq<Option<TransactionRecord>> {
    lines.filter(|l: Option<TransactionRecord>| l is Some)
}

/// A line that did not parse changes nothing: replaying the lines gives the same
/// accounts as replaying only those that parsed.
pub proof fn lemma_malformed_lines_skipped(lines: Seq<Option<TransactionRecord>>)
    ensures
        replay(lines) == replay(parsed(lines)),
    decreases lines.len(),
{
    if lines.len() > 0 {
        lemma_malformed_lines_skipped(lines.drop_last());
        let f = parsed(lines);
        reveal_with_fuel(Seq::<Option<TransactionRecord>>::filter, 1);
        if lines.last() is Some {
            assert(f == parsed(lines.drop_last()).push(lines.last()));
            assert(f.drop_last() =~= parsed(lines.drop_last()));
        } else {
            assert(f == parsed(lines.drop_last()));
        }
    }
}

} // verus!
