//! Account records and the overlay's map from address to record.
use vstd::prelude::*;
use crate::assoc::{keys_unique, map_of, lemma_map_of_contains, lemma_map_of_index, lemma_map_of_remove, lemma_map_of_push};
use crate::storage::StorageMap;
use crate::words::{Address, Hash256, Uint256};

verus! {

/// What an account record holds; `None` marks a field that is not resolved yet.
pub ghost struct AccountView {
    pub nonce: Option<Uint256>,
    pub balance: Option<Uint256>,
    pub storage: Option<Map<Hash256, Hash256>>,
    pub code: Option<Seq<u8>>,
}

/// The record with no field resolved.
pub open spec fn unresolved_account() -> AccountView {
    AccountView { nonce: None, balance: None, storage: None, code: None }
}

/// Account information of the overlay. Each field is `None` until it is resolved.
#[derive(Clone, Debug)]
pub struct ForkMemoryAccount {
    /// Account nonce.
    pub nonce: Option<Uint256>,
    /// Account balance.
    pub balance: Option<Uint256>,
    /// Account storage, filled key by key.
    pub storage: Option<StorageMap>,
    /// Account code.
    pub code: Option<Vec<u8>>,
}

impl View for ForkMemoryAccount {
    type V = AccountView;

    open spec fn view(&self) -> AccountView {
        AccountView {
            nonce: self.nonce,
            balance: self.balance,
            storage: match self.storage {
                Some(s) => Some(s@),
                None => None,
            },
            code: match self.code {
                Some(c) => Some(c@),
                None => None,
            },
        }
    }
}

impl ForkMemoryAccount {
    pub open spec fn wf(&self) -> bool {
        match self.storage {
            Some(s) => s.wf(),
            None => true,
        }
    }

    /// The record with no field resolved.
    pub fn unresolved() -> (r: ForkMemoryAccount)
        ensures
            r.wf(),
            r@ == unresolved_account(),
    {
        ForkMemoryAccount { nonce: None, balance: None, storage: None, code: None }
    }
}

impl Default for ForkMemoryAccount {
    fn default() -> (r: ForkMemoryAccount)
        ensures
            r.wf(),
            r@ == unresolved_account(),
    {
        ForkMemoryAccount::unresolved()
    }
}

/// The views of the records of an association list.
pub open spec fn view_entries(s: Seq<(Address, ForkMemoryAccount)>) -> Seq<(Address, AccountView)> {
    s.map_values(|p: (Address, ForkMemoryAccount)| (p.0, p.1@))
}

/// The overlay's records, each address once, in the order they were added.
#[derive(Clone, Debug)]
pub struct AccountMap {
    entries: Vec<(Address, ForkMemoryAccount)>,
}

impl View for AccountMap {
    type V = Map<Address, AccountView>;

    closed spec fn view(&self) -> Map<Address, AccountView> {
        map_of(view_entries(self.entries@))
    }
}

impl AccountMap {
    pub closed spec fn wf(&self) -> bool {
        &&& keys_unique(view_entries(self.entries@))
        &&& forall|i: int| 0 <= i < self.entries@.len() ==> (#[trigger] self.entries@[i]).1.wf()
    }

    pub fn new() -> (r: AccountMap)
        ensures
            r.wf(),
            r@ == Map::<Address, AccountView>::empty(),
    {
        AccountMap { entries: Vec::new() }
    }

    /// The records in the order in which they are kept.
    pub fn entries(&self) -> (r: &Vec<(Address, ForkMemoryAccount)>)
        ensures
            map_of(view_entries(r@)) == self@,
    {
        &self.entries
    }

    fn find(&self, address: &Address) -> (r: Option<usize>)
        requires
            self.wf(),
        ensures
            match r {
                Some(i) => i < self.entries@.len() && self.entries@[i as int].0 == *address,
                None => !self@.contains_key(*address),
            },
    {
        let ghost vs = view_entries(self.entries@);
        let mut i: usize = 0;
        while i < self.entries.len()
            invariant
                vs == view_entries(self.entries@),
                i <= self.entries@.len(),
                forall|j: int| 0 <= j < i ==> vs[j].0 != *address,
            decreases self.entries@.len() - i,
        {
            if self.entries[i].0 == *address {
                return Some(i);
            }
            i = i + 1;
        }
        proof {
            lemma_map_of_contains(vs, *address);
        }
        None
    }

    pub fn contains_key(&self, address: &Address) -> (r: bool)
        requires
            self.wf(),
        ensures
            r == self@.contains_key(*address),
    {
        match self.find(address) {
            Some(i) => {
                proof {
                    lemma_map_of_index(view_entries(self.entries@), i as int);
                }
                true
            },
            None => false,
        }
    }

    pub fn get(&self, address: &Address) -> (r: Option<&ForkMemoryAccount>)
        requires
            self.wf(),
        ensures
            match r {
                Some(a) => self@.contains_key(*address) && self@[*address] == a@ && a.wf(),
                None => !self@.contains_key(*address),
            },
    {
        match self.find(address) {
            Some(i) => {
                proof {
                    lemma_map_of_index(view_entries(self.entries@), i as int);
                }
                Some(&self.entries[i].1)
            },
            None => None,
        }
    }

    /// Takes the record of `address` out of the map.
    pub fn take(&mut self, address: &Address) -> (r: Option<ForkMemoryAccount>)
        requires
            old(self).wf(),
        ensures
            final(self).wf(),
            final(self)@ == old(self)@.remove(*address),
            match r {
                Some(a) => old(self)@.contains_key(*address) && old(self)@[*address] == a@ && a.wf(),
                None => !old(self)@.contains_key(*address),
            },
    {
        match self.find(address) {
            Some(i) => {
                let ghost s = self.entries@;
                proof {
                    lemma_map_of_index(view_entries(s), i as int);
                    lemma_map_of_remove(view_entries(s), i as int);
                    assert(view_entries(s.remove(i as int)) =~= view_entries(s).remove(i as int));
                    assert(s[i as int].1.wf());
                }
                let (_, a) = self.entries.remove(i);
                proof {
                    assert forall|j: int| 0 <= j < self.entries@.len() implies (
                    #[trigger] self.entries@[j]).1.wf() by {
                        if j < i {
                            assert(self.entries@[j] == s[j]);
                        } else {
                            assert(self.entries@[j] == s[j + 1]);
                        }
                    }
                }
                Some(a)
            },
            None => {
                assert(self@ =~= self@.remove(*address));
                None
            },
        }
    }

    pub fn remove(&mut self, address: &Address)
        requires
            old(self).wf(),
        ensures
            final(self).wf(),
            final(self)@ == old(self)@.remove(*address),
    {
        let _ = self.take(address);
    }

    pub fn insert(&mut self, address: Address, account: ForkMemoryAccount)
        requires
            old(self).wf(),
            account.wf(),
        ensures
            final(self).wf(),
            final(self)@ == old(self)@.insert(address, account@),
    {
        self.remove(&address);
        let ghost s = self.entries@;
        proof {
            lemma_map_of_push(view_entries(s), (address, account@));
        }
        self.entries.push((address, account));
        proof {
            assert(view_entries(self.entries@) =~= view_entries(s).push((address, account@)));
            assert forall|j: int| 0 <= j < self.entries@.len() implies (
            #[trigger] self.entries@[j]).1.wf() by {
                if j < s.len() {
                    assert(self.entries@[j] == s[j]);
                }
            }
        }
    }
}

} // verus!
