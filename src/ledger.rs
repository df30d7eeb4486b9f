//! The store that the escrow operations act on: lamport balances by identity
//! and live escrow records by `(depositor, escrow_id)`.
use vstd::prelude::*;
use crate::address::Identity;
use crate::errors::EscrowError;
use crate::state::Escrow;

verus! {

/// The map described by a list of key/value entries (a later entry wins).
pub open spec fn table<K, V>(s: Seq<(K, V)>) -> Map<K, V>
    decreases s.len(),
{
    if s.len() == 0 {
        Map::empty()
    } else {
        table(s.drop_last()).insert(s.last().0, s.last().1)
    }
}

pub open spec fn keys_unique<K, V>(s: Seq<(K, V)>) -> bool {
    forall|i: int, j: int| 0 <= i < j < s.len() ==> s[i].0 != s[j].0
}

proof fn lemma_table_absent<K, V>(s: Seq<(K, V)>, k: K)
    requires
        forall|i: int| 0 <= i < s.len() ==> s[i].0 != k,
    ensures
        !table(s).contains_key(k),
    decreases s.len(),
{
    if s.len() > 0 {
        lemma_table_absent(s.drop_last(), k);
    }
}

proof fn lemma_table_index<K, V>(s: Seq<(K, V)>, i: int)
    requires
        keys_unique(s),
        0 <= i < s.len(),
    ensures
        table(s).contains_key(s[i].0),
        table(s)[s[i].0] == s[i].1,
    decreases s.len(),
{
    if i < s.len() - 1 {
        lemma_table_index(s.drop_last(), i);
    }
}

proof fn lemma_table_update<K, V>(s: Seq<(K, V)>, i: int, v: V)
    requires
        keys_unique(s),
        0 <= i < s.len(),
    ensures
        table(s.update(i, (s[i].0, v))) == table(s).insert(s[i].0, v),
    decreases s.len(),
{
    let t = s.update(i, (s[i].0, v));
    if i == s.len() - 1 {
        assert(t.drop_last() =~= s.drop_last());
        assert(table(t) =~= table(s).insert(s[i].0, v));
    } else {
        assert(t.drop_last() =~= s.drop_last().update(i, (s[i].0, v)));
        lemma_table_update(s.drop_last(), i, v);
        assert(s.last().0 != s[i].0);
        assert(table(t) =~= table(s).insert(s[i].0, v));
    }
}

proof fn lemma_table_remove<K, V>(s: Seq<(K, V)>, i: int)
    requires
        keys_unique(s),
        0 <= i < s.len(),
    ensures
        table(s.remove(i)) == table(s).remove(s[i].0),
    decreases s.len(),
{
    let t = s.remove(i);
    if i == s.len() - 1 {
        assert(t =~= s.drop_last());
        lemma_table_absent(s.drop_last(), s[i].0);
        assert(table(t) =~= table(s).remove(s[i].0));
    } else {
        assert(t.drop_last() =~= s.drop_last().remove(i));
        assert(t.last() == s.last());
        lemma_table_remove(s.drop_last(), i);
        assert(s.last().0 != s[i].0);
        assert(table(t) =~= table(s).remove(s[i].0));
    }
}

proof fn lemma_table_push<K, V>(s: Seq<(K, V)>, e: (K, V))
    ensures
        table(s.push(e)) == table(s).insert(e.0, e.1),
{
    assert(s.push(e).drop_last() =~= s);
}

/// Lamport balances and live escrow records.
pub struct Ledger {
    accounts: Vec<(Identity, u64)>,
    escrows: Vec<Escrow>,
}

impl Ledger {
    pub closed spec fn account_entries(&self) -> Seq<(Seq<u8>, u64)> {
        self.accounts@.map_values(|e: (Identity, u64)| (e.0@, e.1))
    }

    pub closed spec fn escrow_entries(&self) -> Seq<((Seq<u8>, u64), Escrow)> {
        self.escrows@.map_values(|e: Escrow| (e.key(), e))
    }

    /// Lamports held by each identity that has an account.
    pub closed spec fn balances(&self) -> Map<Seq<u8>, u64> {
        table(self.account_entries())
    }

    /// The live escrow records, by `(depositor, escrow_id)`.
    pub closed spec fn records(&self) -> Map<(Seq<u8>, u64), Escrow> {
        table(self.escrow_entries())
    }

    /// Lamports held by `who`; an identity without an account holds none.
    pub open spec fn balance_of(&self, who: Seq<u8>) -> u64 {
        if self.balances().contains_key(who) {
            self.balances()[who]
        } else {
            0
        }
    }

    /// One entry per identity and one record per key.
    pub closed spec fn wf(&self) -> bool {
        &&& keys_unique(self.account_entries())
        &&& keys_unique(self.escrow_entries())
    }

    /// An empty ledger.
    pub fn new() -> (r: Ledger)
        ensures
            r.wf(),
            r.balances() == Map::<Seq<u8>, u64>::empty(),
            r.records() == Map::<(Seq<u8>, u64), Escrow>::empty(),
    {
        let r = Ledger { accounts: Vec::new(), escrows: Vec::new() };
        assert(r.account_entries() =~= Seq::empty());
        assert(r.escrow_entries() =~= Seq::empty());
        r
    }

    fn find_account(&self, who: &Identity) -> (r: Option<usize>)
        requires
            self.wf(),
        ensures
            match r {
                Some(i) => i < self.accounts@.len() && self.accounts@[i as int].0@ == who@,
                None => !self.balances().contains_key(who@),
            },
    {
        let mut i: usize = 0;
        while i < self.accounts.len()
            invariant
                i <= self.accounts@.len(),
                forall|j: int| 0 <= j < i ==> self.account_entries()[j].0 != who@,
            decreases self.accounts@.len() - i,
        {
            if self.accounts[i].0.same_as(who) {
                return Some(i);
            }
            i = i + 1;
        }
        proof { lemma_table_absent(self.account_entries(), who@); }
        None
    }

    fn find_record(&self, depositor: &Identity, escrow_id: u64) -> (r: Option<usize>)
        requires
            self.wf(),
        ensures
            match r {
                Some(i) => i < self.escrows@.len() && self.escrows@[i as int].key() == (depositor@, escrow_id),
                None => !self.records().contains_key((depositor@, escrow_id)),
            },
    {
        let mut i: usize = 0;
        while i < self.escrows.len()
            invariant
                i <= self.escrows@.len(),
                forall|j: int| 0 <= j < i ==> self.escrow_entries()[j].0 != (depositor@, escrow_id),
            decreases self.escrows@.len() - i,
        {
            if self.escrows[i].escrow_id == escrow_id && self.escrows[i].depositor.same_as(depositor) {
                return Some(i);
            }
            i = i + 1;
        }
        proof { lemma_table_absent(self.escrow_entries(), (depositor@, escrow_id)); }
        None
    }

    /// Lamports held by `who`.
    pub fn balance(&self, who: &Identity) -> (r: u64)
        requires
            self.wf(),
        ensures
            r == self.balance_of(who@),
    {
        match self.find_account(who) {
            Some(i) => {
                proof { lemma_table_index(self.account_entries(), i as int); }
                self.accounts[i].1
            },
            None => 0,
        }
    }

    /// The live record of `(depositor, escrow_id)`, if any.
    pub fn record(&self, depositor: &Identity, escrow_id: u64) -> (r: Option<Escrow>)
        requires
            self.wf(),
        ensures
            match r {
                Some(e) => self.records().contains_key((depositor@, escrow_id))
                    && e == self.records()[(depositor@, escrow_id)],
                None => !self.records().contains_key((depositor@, escrow_id)),
            },
    {
        match self.find_record(depositor, escrow_id) {
            Some(i) => {
                proof { lemma_table_index(self.escrow_entries(), i as int); }
                Some(self.escrows[i])
            },
            None => None,
        }
    }
    /// Adds `lamports` to the balance of `who`, opening the account if needed.
    pub fn credit(&mut self, who: &Identity, lamports: u64) -> (r: Result<(), EscrowError>)
        requires
            old(self).wf(),
        ensures
            final(self).wf(),
            final(self).records() == old(self).records(),
            old(self).balance_of(who@) + lamports <= u64::MAX ==> r == Ok::<(), EscrowError>(())
                && final(self).balances() == old(self).balances().insert(
                who@,
                (old(self).balance_of(who@) + lamports) as u64,
            ),
            old(self).balance_of(who@) + lamports > u64::MAX ==> r == Err::<(), EscrowError>(EscrowError::LamportsOverflow)
                && *final(self) == *old(self),
    {
        match self.find_account(who) {
            Some(i) => {
                proof { lemma_table_index(self.account_entries(), i as int); }
                let held = self.accounts[i].1;
                if held > u64::MAX - lamports {
                    return Err(EscrowError::LamportsOverflow);
                }
                let ghost before = self.account_entries();
                self.accounts.set(i, (*who, held + lamports));
                proof {
                    assert(self.account_entries() =~= before.update(i as int, (before[i as int].0, (held + lamports) as u64)));
                    lemma_table_update(before, i as int, (held + lamports) as u64);
                }
                Ok(())
            },
            None => {
                let ghost before = self.account_entries();
                self.accounts.push((*who, lamports));
                proof {
                    assert(self.account_entries() =~= before.push((who@, lamports)));
                    lemma_table_push(before, (who@, lamports));
                    assert forall|j: int| 0 <= j < before.len() implies before[j].0 != who@ by {
                        if before[j].0 == who@ {
                            lemma_table_index(before, j);
                        }
                    }
                }
                Ok(())
            },
        }
    }

    /// Takes `lamports` from the balance of `who`.
    pub fn debit(&mut self, who: &Identity, lamports: u64) -> (r: Result<(), EscrowError>)
        requires
            old(self).wf(),
        ensures
            final(self).wf(),
            final(self).records() == old(self).records(),
            lamports <= old(self).balance_of(who@) ==> r == Ok::<(), EscrowError>(())
                && final(self).balances() == old(self).balances().insert(
                who@,
                (old(self).balance_of(who@) - lamports) as u64,
            ),
            lamports > old(self).balance_of(who@) ==> r == Err::<(), EscrowError>(EscrowError::InsufficientBalance)
                && *final(self) == *old(self),
    {
        match self.find_account(who) {
            Some(i) => {
                proof { lemma_table_index(self.account_entries(), i as int); }
                let held = self.accounts[i].1;
                if held < lamports {
                    return Err(EscrowError::InsufficientBalance);
                }
                let ghost before = self.account_entries();
                self.accounts.set(i, (*who, held - lamports));
                proof {
                    assert(self.account_entries() =~= before.update(i as int, (before[i as int].0, (held - lamports) as u64)));
                    lemma_table_update(before, i as int, (held - lamports) as u64);
                }
                Ok(())
            },
            None => {
                if lamports > 0 {
                    return Err(EscrowError::InsufficientBalance);
                }
                // Taking nothing from an absent account opens it with nothing.
                self.credit(who, 0)
            },
        }
    }

    /// Stores a new record under its own key.
    pub(crate) fn insert_record(&mut self, e: Escrow)
        requires
            old(self).wf(),
            !old(self).records().contains_key(e.key()),
        ensures
            final(self).wf(),
            final(self).balances() == old(self).balances(),
            final(self).records() == old(self).records().insert(e.key(), e),
    {
        let ghost before = self.escrow_entries();
        self.escrows.push(e);
        proof {
            assert(self.escrow_entries() =~= before.push((e.key(), e)));
            assert(self.account_entries() =~= old(self).account_entries());
            lemma_table_push(before, (e.key(), e));
            assert forall|j: int| 0 <= j < before.len() implies before[j].0 != e.key() by {
                if before[j].0 == e.key() {
                    lemma_table_index(before, j);
                }
            }
        }
    }

    /// Removes the record of `(depositor, escrow_id)` and returns it.
    pub(crate) fn remove_record(&mut self, depositor: &Identity, escrow_id: u64) -> (r: Option<Escrow>)
        requires
            old(self).wf(),
        ensures
            final(self).wf(),
            final(self).balances() == old(self).balances(),
            match r {
                Some(e) => old(self).records().contains_key((depositor@, escrow_id))
                    && e == old(self).records()[(depositor@, escrow_id)]
                    && final(self).records() == old(self).records().remove((depositor@, escrow_id)),
                None => !old(self).records().contains_key((depositor@, escrow_id))
                    && *final(self) == *old(self),
            },
    {
        match self.find_record(depositor, escrow_id) {
            Some(i) => {
                let ghost before = self.escrow_entries();
                proof { lemma_table_index(before, i as int); }
                let e = self.escrows.remove(i);
                proof {
                    assert(self.escrow_entries() =~= before.remove(i as int));
                    assert(self.account_entries() =~= old(self).account_entries());
                    lemma_table_remove(before, i as int);
                }
                Some(e)
            },
            None => None,
        }
    }
}

} // verus!
