//! The entity store: a transactional key-value substrate keyed by derived
//! addresses, with create-once and mutate-existing semantics.
//!
//! The host's ledger provides such a store to a deployed platform; the
//! library models it so that the handlers' transitions can be stated and
//! proved against one abstraction, a map from addresses to record views.

use vstd::prelude::*;
use crate::address::Address;
use crate::records::{Record, RecordV};
use crate::errors::Errors;

verus! {

/// The map that a sequence of address-record entries denotes: each entry in
/// turn, later entries winning (entries never repeat an address here).
pub open spec fn entries_map(s: Seq<(Address, Record)>) -> Map<Address, RecordV>
    decreases s.len(),
{
    if s.len() == 0 {
        Map::empty()
    } else {
        entries_map(s.drop_last()).insert(s.last().0, s.last().1@)
    }
}

/// Whether no address repeats in a sequence of entries.
pub open spec fn unique_addresses(s: Seq<(Address, Record)>) -> bool {
    forall|i: int, j: int| 0 <= i < j < s.len() ==> (#[trigger] s[i]).0 != (#[trigger] s[j]).0
}

proof fn lemma_entries_map(s: Seq<(Address, Record)>)
    requires
        unique_addresses(s),
    ensures
        forall|a: Address|
            #[trigger] entries_map(s).contains_key(a)
                <==> exists|i: int| 0 <= i < s.len() && (#[trigger] s[i]).0 == a,
        forall|i: int|
            0 <= i < s.len() ==> entries_map(s).contains_key((#[trigger] s[i]).0)
                && entries_map(s)[s[i].0] == s[i].1@,
    decreases s.len(),
{
    if s.len() > 0 {
        let s0 = s.drop_last();
        assert(unique_addresses(s0)) by {
            assert(forall|i: int, j: int|
                0 <= i < j < s0.len() ==> (#[trigger] s0[i]).0 != (#[trigger] s0[j]).0) by {
                assert(forall|i: int| 0 <= i < s0.len() ==> s0[i] == s[i]);
            }
        }
        lemma_entries_map(s0);
        assert forall|a: Address| #[trigger] entries_map(s).contains_key(a) implies
            exists|i: int| 0 <= i < s.len() && (#[trigger] s[i]).0 == a by {
            assert(entries_map(s) == entries_map(s0).insert(s.last().0, s.last().1@));
            if a == s.last().0 {
                assert(0 <= s.len() - 1 < s.len() && s[s.len() - 1].0 == a);
            } else {
                assert(entries_map(s0).contains_key(a));
                let k = choose|k: int| 0 <= k < s0.len() && (#[trigger] s0[k]).0 == a;
                assert(0 <= k < s0.len() && s0[k].0 == a);
                assert(s0[k] == s[k]);
                assert(0 <= k < s.len() && s[k].0 == a);
            }
        }
        assert forall|a: Address|
            exists|i: int| 0 <= i < s.len() && (#[trigger] s[i]).0 == a implies
            #[trigger] entries_map(s).contains_key(a) by {
            let k = choose|k: int| 0 <= k < s.len() && (#[trigger] s[k]).0 == a;
            if k < s.len() - 1 {
                assert(s0[k].0 == a);
            }
        }
        assert forall|i: int| 0 <= i < s.len() implies entries_map(s).contains_key(
            (#[trigger] s[i]).0,
        ) && entries_map(s)[s[i].0] == s[i].1@ by {
            if i < s.len() - 1 {
                assert(s0[i] == s[i]);
                assert(s[i].0 != s.last().0);
            }
        }
    }
}

/// The entity store.  Holds each created record at its derived address;
/// creation is refused where the address already holds a record.
pub struct EntityStore {
    entries: Vec<(Address, Record)>,
}

impl View for EntityStore {
    type V = Map<Address, RecordV>;

    closed spec fn view(&self) -> Map<Address, RecordV> {
        entries_map(self.entries@)
    }
}

impl EntityStore {
    /// The store's internal shape: no address holds two records.
    pub closed spec fn inv(&self) -> bool {
        unique_addresses(self.entries@)
    }

    /// An empty store.
    pub fn new() -> (s: EntityStore)
        ensures
            s.inv(),
            s@ == Map::<Address, RecordV>::empty(),
    {
        EntityStore { entries: Vec::new() }
    }

    /// The index of the entry at `a`, if one exists.
    fn find(&self, a: &Address) -> (r: Option<usize>)
        requires
            self.inv(),
        ensures
            match r {
                Some(i) => i < self.entries@.len() && self.entries@[i as int].0 == *a
                    && self@.contains_key(*a) && self@[*a] == self.entries@[i as int].1@,
                None => !self@.contains_key(*a),
            },
    {
        proof {
            lemma_entries_map(self.entries@);
        }
        let mut i: usize = 0;
        while i < self.entries.len()
            invariant
                self.inv(),
                0 <= i <= self.entries@.len(),
                forall|j: int| 0 <= j < i ==> (#[trigger] self.entries@[j]).0 != *a,
                forall|b: Address|
                    #[trigger] entries_map(self.entries@).contains_key(b)
                        <==> exists|k: int| 0 <= k < self.entries@.len()
                            && (#[trigger] self.entries@[k]).0 == b,
                forall|k: int|
                    0 <= k < self.entries@.len() ==> entries_map(self.entries@).contains_key(
                        (#[trigger] self.entries@[k]).0,
                    ) && entries_map(self.entries@)[self.entries@[k].0]
                        == self.entries@[k].1@,
            decreases self.entries@.len() - i,
        {
            if self.entries[i].0 == *a {
                return Some(i);
            }
            i = i + 1;
        }
        None
    }

    /// Whether a record exists at `a`.
    pub fn contains(&self, a: &Address) -> (r: bool)
        requires
            self.inv(),
        ensures
            r == self@.contains_key(*a),
    {
        self.find(a).is_some()
    }

    /// The record at `a`, if one exists.
    pub fn get(&self, a: &Address) -> (r: Option<&Record>)
        requires
            self.inv(),
        ensures
            match r {
                Some(rec) => self@.contains_key(*a) && rec@ == self@[*a],
                None => !self@.contains_key(*a),
            },
    {
        match self.find(a) {
            Some(i) => Some(&self.entries[i].1),
            None => None,
        }
    }

    /// Creates a record at `a`.  Fails, changing nothing, where the address
    /// already holds one: each address is created at most once.
    pub fn create(&mut self, a: Address, r: Record) -> (res: Result<(), Errors>)
        requires
            old(self).inv(),
        ensures
            final(self).inv(),
            match res {
                Ok(()) => !old(self)@.contains_key(a)
                    && final(self)@ == old(self)@.insert(a, r@),
                Err(e) => e == Errors::AccountAlreadyExists
                    && old(self)@.contains_key(a) && final(self)@ == old(self)@,
            },
    {
        if self.contains(&a) {
            return Err(Errors::AccountAlreadyExists);
        }
        proof {
            lemma_entries_map(self.entries@);
        }
        let ghost s0 = self.entries@;
        self.entries.push((a, r));
        proof {
            assert(self.entries@.drop_last() =~= s0);
            assert forall|i: int, j: int| 0 <= i < j < self.entries@.len() implies
                (#[trigger] self.entries@[i]).0 != (#[trigger] self.entries@[j]).0 by {
                if j < self.entries@.len() - 1 {
                    assert(self.entries@[i] == s0[i] && self.entries@[j] == s0[j]);
                } else {
                    assert(self.entries@[i] == s0[i]);
                }
            }
        }
        Ok(())
    }

    /// Replaces the record at `a`, which must exist, by `r`.
    pub fn put(&mut self, a: Address, r: Record) -> (res: Result<(), Errors>)
        requires
            old(self).inv(),
        ensures
            final(self).inv(),
            match res {
                Ok(()) => old(self)@.contains_key(a)
                    && final(self)@ == old(self)@.insert(a, r@),
                Err(e) => e == Errors::AccountNotFound
                    && !old(self)@.contains_key(a) && final(self)@ == old(self)@,
            },
    {
        let i = match self.find(&a) {
            Some(i) => i,
            None => {
                return Err(Errors::AccountNotFound);
            },
        };
        let ghost s0 = self.entries@;
        self.entries.set(i, (a, r));
        proof {
            let s1 = self.entries@;
            assert forall|p: int, q: int| 0 <= p < q < s1.len() implies
                (#[trigger] s1[p]).0 != (#[trigger] s1[q]).0 by {
                assert(s1[p].0 == s0[p].0 && s1[q].0 == s0[q].0);
            }
            lemma_entries_map(s0);
            lemma_entries_map(s1);
            assert forall|b: Address| #[trigger] entries_map(s1).contains_key(b) implies
                entries_map(s0).insert(a, r@).contains_key(b) by {
                let k = choose|k: int| 0 <= k < s1.len() && (#[trigger] s1[k]).0 == b;
                if k != i {
                    assert(s1[k] == s0[k]);
                }
            }
            assert forall|b: Address| entries_map(s0).insert(a, r@).contains_key(b) implies
                #[trigger] entries_map(s1).contains_key(b) by {
                if b == a {
                    assert(s1[i as int].0 == b);
                } else {
                    let k = choose|k: int| 0 <= k < s0.len() && (#[trigger] s0[k]).0 == b;
                    assert(s1[k] == s0[k]);
                }
            }
            assert forall|b: Address| #[trigger] entries_map(s1).contains_key(b) implies
                entries_map(s1)[b] == entries_map(s0).insert(a, r@)[b] by {
                let k = choose|k: int| 0 <= k < s1.len() && (#[trigger] s1[k]).0 == b;
                if k == i {
                    assert(entries_map(s1)[b] == r@);
                } else {
                    assert(s1[k] == s0[k]);
                    assert(s0[k].0 != s0[i as int].0);
                    assert(b != a);
                    assert(entries_map(s1)[b] == s1[k].1@);
                    assert(entries_map(s0)[b] == s0[k].1@);
                }
            }
            assert(entries_map(s1) =~= entries_map(s0).insert(a, r@));
        }
        Ok(())
    }
}

} // verus!
