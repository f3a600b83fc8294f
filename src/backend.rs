//! The overlay backend: reads that prefer the local records and name the remote
//! query to make otherwise, and the commit of a batch of changes.
use vstd::prelude::*;
use crate::account::{AccountMap, AccountView, ForkMemoryAccount, unresolved_account};
use crate::storage::{StorageMap, nonzero_part, merge_updates};
use crate::words::{Address, Hash256, Uint256, half_base, keccak256, keccak256_of, zero_hash};

verus! {

/// Block-level parameters of the execution, fixed for the backend's lifetime.
#[derive(Clone, Debug)]
pub struct MemoryVicinity {
    pub gas_price: Uint256,
    pub origin: Address,
    pub chain_id: Uint256,
    /// Hashes of the most recent blocks, the newest first.
    pub block_hashes: Vec<Hash256>,
    pub block_number: Uint256,
    pub block_coinbase: Address,
    pub block_timestamp: Uint256,
    pub block_difficulty: Uint256,
    pub block_gas_limit: Uint256,
}

/// The point in the remote source's history that a query reads.
#[derive(Clone, Copy, Debug, PartialEq, Eq, Structural)]
pub enum BlockRef {
    /// The newest block.
    Latest,
    /// The newest block accepted as final.
    Finalized,
    /// The newest block considered safe from reorganisation.
    Safe,
    /// The first block.
    Earliest,
    /// The block being built.
    Pending,
    /// The block with this number.
    Number(u64),
}

/// What a remote query asks for.
#[derive(Clone, Copy, Debug, PartialEq, Eq, Structural)]
pub enum Field {
    Balance,
    Nonce,
    Code,
    Storage(Hash256),
}

/// A query to the remote source that a read needs answered before it can finish.
#[derive(Clone, Copy, Debug, PartialEq, Eq, Structural)]
pub struct RemoteQuery {
    pub address: Address,
    pub field: Field,
    pub block: BlockRef,
}

/// Balance and nonce of an account.
#[derive(Clone, Copy, Debug, PartialEq, Eq, Structural)]
pub struct Basic {
    pub balance: Uint256,
    pub nonce: Uint256,
}

/// An event emitted during execution.
#[derive(Clone, Debug)]
pub struct Log {
    pub address: Address,
    pub topics: Vec<Hash256>,
    pub data: Vec<u8>,
}

/// One change of a committed batch.
#[derive(Clone, Debug)]
pub enum Apply {
    /// Sets balance and nonce, optionally the code, and updates storage.
    Modify {
        address: Address,
        basic: Basic,
        code: Option<Vec<u8>>,
        storage: Vec<(Hash256, Hash256)>,
        reset_storage: bool,
    },
    /// Removes the account's record.
    Delete { address: Address },
}

/// The cached value if there is one, else the value fetched from the remote source.
pub open spec fn settle<T>(cached: Option<T>, fetched: Option<T>) -> Option<T> {
    if cached.is_some() {
        cached
    } else {
        fetched
    }
}

pub open spec fn bytes_view(b: Option<Vec<u8>>) -> Option<Seq<u8>> {
    match b {
        Some(v) => Some(v@),
        None => None,
    }
}

/// The record of `address`, or the unresolved record if there is none.
pub open spec fn record_in(state: Map<Address, AccountView>, address: Address) -> AccountView {
    if state.contains_key(address) {
        state[address]
    } else {
        unresolved_account()
    }
}

/// The locally known value of a storage slot.
pub open spec fn cached_slot(rec: AccountView, key: Hash256) -> Option<Hash256> {
    match rec.storage {
        Some(m) => if m.contains_key(key) {
            Some(m[key])
        } else {
            None
        },
        None => None,
    }
}

/// An account with zero balance, zero nonce and empty or unknown code. Emptiness is
/// judged by the values, so a modified account can be empty although its fields are
/// resolved.
pub open spec fn is_empty_account(a: AccountView) -> bool {
    &&& a.balance.is_some() && a.balance.unwrap().value() == 0
    &&& a.nonce.is_some() && a.nonce.unwrap().value() == 0
    &&& (a.code.is_none() || a.code.unwrap().len() == 0)
}

/// The storage of an account after a modification: the old slots (none if
/// `reset`), without zero values, with `updates` merged in.
pub open spec fn storage_after(
    rec: AccountView,
    updates: Seq<(Hash256, Hash256)>,
    reset: bool,
) -> Map<Hash256, Hash256> {
    let base = if reset {
        Map::empty()
    } else {
        match rec.storage {
            Some(m) => m,
            None => Map::empty(),
        }
    };
    merge_updates(nonzero_part(base), updates)
}

/// The record of an account after a modification.
pub open spec fn modified_record(
    rec: AccountView,
    basic: Basic,
    code: Option<Seq<u8>>,
    updates: Seq<(Hash256, Hash256)>,
    reset: bool,
) -> AccountView {
    AccountView {
        balance: Some(basic.balance),
        nonce: Some(basic.nonce),
        code: if code.is_some() {
            code
        } else {
            rec.code
        },
        storage: Some(storage_after(rec, updates, reset)),
    }
}

/// The records after one change.
pub open spec fn apply_entry(state: Map<Address, AccountView>, e: Apply, delete_empty: bool) -> Map<
    Address,
    AccountView,
> {
    match e {
        Apply::Modify { address, basic, code, storage, reset_storage } => {
            let rec = modified_record(
                record_in(state, address),
                basic,
                bytes_view(code),
                storage@,
                reset_storage,
            );
            if delete_empty && is_empty_account(rec) {
                state.remove(address)
            } else {
                state.insert(address, rec)
            }
        },
        Apply::Delete { address } => state.remove(address),
    }
}

/// The records after the changes `es`, in order.
pub open spec fn apply_all(state: Map<Address, AccountView>, es: Seq<Apply>, delete_empty: bool) -> Map<
    Address,
    AccountView,
>
    decreases es.len(),
{
    if es.len() == 0 {
        state
    } else {
        apply_entry(apply_all(state, es.drop_last(), delete_empty), es.last(), delete_empty)
    }
}

/// The hash of block `number` as the context gives it: zero for the current
/// block and later ones, and for blocks older than the window.
pub open spec fn window_hash(v: MemoryVicinity, number: Uint256) -> Hash256 {
    let b = v.block_number.value() as int;
    let n = number.value() as int;
    if n >= b || b - n - 1 >= v.block_hashes@.len() {
        zero_hash()
    } else {
        v.block_hashes@[b - n - 1]
    }
}

/// Whether a record holds zero balance, zero nonce and empty or unknown code.
fn is_empty(a: &ForkMemoryAccount) -> (r: bool)
    ensures
        r == is_empty_account(a@),
{
    let zero_balance = match a.balance {
        Some(b) => b.is_zero(),
        None => false,
    };
    let zero_nonce = match a.nonce {
        Some(n) => n.is_zero(),
        None => false,
    };
    let no_code = match &a.code {
        Some(c) => c.len() == 0,
        None => true,
    };
    zero_balance && zero_nonce && no_code
}

/// The overlay of account records over a remote source pinned to one block.
#[derive(Clone, Debug)]
pub struct ForkMemoryBackend {
    vicinity: MemoryVicinity,
    state: AccountMap,
    logs: Vec<Log>,
    block: BlockRef,
}

impl ForkMemoryBackend {
    pub closed spec fn wf(self) -> bool {
        self.state.wf()
    }

    /// The records, by address.
    pub closed spec fn records(self) -> Map<Address, AccountView> {
        self.state@
    }

    pub closed spec fn spec_vicinity(self) -> MemoryVicinity {
        self.vicinity
    }

    pub closed spec fn spec_logs(self) -> Seq<Log> {
        self.logs@
    }

    /// The block that remote queries read.
    pub closed spec fn spec_block(self) -> BlockRef {
        self.block
    }

    pub open spec fn record(self, address: Address) -> AccountView {
        record_in(self.records(), address)
    }

    pub open spec fn query(self, address: Address, field: Field) -> RemoteQuery {
        RemoteQuery { address, field, block: self.spec_block() }
    }

    pub open spec fn basic_outcome(
        self,
        address: Address,
        fetched_balance: Option<Uint256>,
        fetched_nonce: Option<Uint256>,
    ) -> Result<Basic, RemoteQuery> {
        let b = settle(self.record(address).balance, fetched_balance);
        let n = settle(self.record(address).nonce, fetched_nonce);
        if b.is_none() {
            Err(self.query(address, Field::Balance))
        } else if n.is_none() {
            Err(self.query(address, Field::Nonce))
        } else {
            Ok(Basic { balance: b.unwrap(), nonce: n.unwrap() })
        }
    }

    pub open spec fn resolved_code(self, address: Address, fetched: Option<Seq<u8>>) -> Option<
        Seq<u8>,
    > {
        settle(self.record(address).code, fetched)
    }

    pub open spec fn storage_outcome(
        self,
        address: Address,
        key: Hash256,
        fetched: Option<Hash256>,
    ) -> Result<Hash256, RemoteQuery> {
        match settle(cached_slot(self.record(address), key), fetched) {
            Some(v) => Ok(v),
            None => Err(self.query(address, Field::Storage(key))),
        }
    }

    /// A backend over `state`, whose remote queries read block `block`.
    pub fn new(vicinity: MemoryVicinity, state: AccountMap, block: BlockRef) -> (r: Self)
        requires
            state.wf(),
        ensures
            r.wf(),
            r.records() == state@,
            r.spec_vicinity() == vicinity,
            r.spec_block() == block,
            r.spec_logs() == Seq::<Log>::empty(),
    {
        ForkMemoryBackend { vicinity, state, logs: Vec::new(), block }
    }

    /// The records, for inspection.
    pub fn state(&self) -> (r: &AccountMap)
        requires
            self.wf(),
        ensures
            r.wf(),
            r@ == self.records(),
    {
        &self.state
    }

    /// The events committed so far, in order.
    pub fn logs(&self) -> (r: &Vec<Log>)
        ensures
            r@ == self.spec_logs(),
    {
        &self.logs
    }

    pub fn vicinity(&self) -> (r: &MemoryVicinity)
        ensures
            *r == self.spec_vicinity(),
    {
        &self.vicinity
    }

    /// The block that remote queries read.
    pub fn block(&self) -> (r: BlockRef)
        ensures
            r == self.spec_block(),
    {
        self.block
    }

    fn make_query(&self, address: Address, field: Field) -> (r: RemoteQuery)
        ensures
            r == self.query(address, field),
    {
        RemoteQuery { address, field, block: self.block }
    }

    /// Whether the overlay holds a record for `address`; never asks the remote source.
    pub fn account_exists(&self, address: Address) -> (r: bool)
        requires
            self.wf(),
        ensures
            r == self.records().contains_key(address),
    {
        self.state.contains_key(&address)
    }

    /// Balance and nonce of `address`. A field without a cached value takes the
    /// fetched one; if that is missing too, the query to make is returned.
    pub fn basic(
        &self,
        address: Address,
        fetched_balance: Option<Uint256>,
        fetched_nonce: Option<Uint256>,
    ) -> (r: Result<Basic, RemoteQuery>)
        requires
            self.wf(),
        ensures
            r == self.basic_outcome(address, fetched_balance, fetched_nonce),
    {
        let (cached_balance, cached_nonce) = match self.state.get(&address) {
            Some(acc) => (acc.balance, acc.nonce),
            None => (None, None),
        };
        let balance = match cached_balance {
            Some(b) => b,
            None => match fetched_balance {
                Some(b) => b,
                None => {
                    return Err(self.make_query(address, Field::Balance));
                },
            },
        };
        let nonce = match cached_nonce {
            Some(n) => n,
            None => match fetched_nonce {
                Some(n) => n,
                None => {
                    return Err(self.make_query(address, Field::Nonce));
                },
            },
        };
        Ok(Basic { balance, nonce })
    }

    fn code_ref<'a>(&'a self, address: Address, fetched: &'a Option<Vec<u8>>) -> (r: Option<
        &'a Vec<u8>,
    >)
        requires
            self.wf(),
        ensures
            match r {
                Some(c) => self.resolved_code(address, bytes_view(*fetched)) == Some(c@),
                None => self.resolved_code(address, bytes_view(*fetched)).is_none(),
            },
    {
        match self.state.get(&address) {
            Some(acc) => match &acc.code {
                Some(c) => {
                    return Some(c);
                },
                None => {},
            },
            None => {},
        }
        match fetched {
            Some(c) => Some(c),
            None => None,
        }
    }

    /// The code of `address`: the cached code, else the fetched code, else the
    /// query to make.
    pub fn code(&self, address: Address, fetched: Option<Vec<u8>>) -> (r: Result<Vec<u8>, RemoteQuery>)
        requires
            self.wf(),
        ensures
            match r {
                Ok(c) => self.resolved_code(address, bytes_view(fetched)) == Some(c@),
                Err(q) => self.resolved_code(address, bytes_view(fetched)).is_none() && q
                    == self.query(address, Field::Code),
            },
    {
        match self.code_ref(address, &fetched) {
            Some(c) => {
                let d = c.clone();
                assert(d@ =~= c@);
                Ok(d)
            },
            None => Err(self.make_query(address, Field::Code)),
        }
    }

    /// The length of the code of `address`, resolved as by `code`.
    pub fn code_size(&self, address: Address, fetched: Option<Vec<u8>>) -> (r: Result<
        usize,
        RemoteQuery,
    >)
        requires
            self.wf(),
        ensures
            match r {
                Ok(n) => self.resolved_code(address, bytes_view(fetched)).is_some() && n
                    == self.resolved_code(address, bytes_view(fetched)).unwrap().len(),
                Err(q) => self.resolved_code(address, bytes_view(fetched)).is_none() && q
                    == self.query(address, Field::Code),
            },
    {
        match self.code_ref(address, &fetched) {
            Some(c) => Ok(c.len()),
            None => Err(self.make_query(address, Field::Code)),
        }
    }

    /// The Keccak-256 hash of the code of `address`, resolved as by `code`.
    pub fn code_hash(&self, address: Address, fetched: Option<Vec<u8>>) -> (r: Result<
        Hash256,
        RemoteQuery,
    >)
        requires
            self.wf(),
        ensures
            match r {
                Ok(h) => self.resolved_code(address, bytes_view(fetched)).is_some() && h
                    == keccak256_of(self.resolved_code(address, bytes_view(fetched)).unwrap()),
                Err(q) => self.resolved_code(address, bytes_view(fetched)).is_none() && q
                    == self.query(address, Field::Code),
            },
    {
        match self.code_ref(address, &fetched) {
            Some(c) => Ok(keccak256(c.as_slice())),
            None => Err(self.make_query(address, Field::Code)),
        }
    }

    /// The value of storage slot `key` of `address`: the cached value, else the
    /// fetched one, else the query to make. Like every other field, the slot is
    /// queried at the backend's block.
    pub fn storage(&self, address: Address, key: Hash256, fetched: Option<Hash256>) -> (r: Result<
        Hash256,
        RemoteQuery,
    >)
        requires
            self.wf(),
        ensures
            r == self.storage_outcome(address, key, fetched),
    {
        match self.state.get(&address) {
            Some(acc) => match &acc.storage {
                Some(s) => match s.get(&key) {
                    Some(v) => {
                        return Ok(v);
                    },
                    None => {},
                },
                None => {},
            },
            None => {},
        }
        match fetched {
            Some(v) => Ok(v),
            None => Err(self.make_query(address, Field::Storage(key))),
        }
    }

    /// The hash of block `number`, from the context's window of recent hashes.
    pub fn block_hash(&self, number: Uint256) -> (r: Hash256)
        ensures
            r == window_hash(self.spec_vicinity(), number),
    {
        let v = &self.vicinity;
        if !number.lt(&v.block_number) {
            return Hash256::zero();
        }
        let d = v.block_number.sub_below(&number);
        let len = v.block_hashes.len();
        if d.hi != 0 {
            proof {
                assert(d.hi as nat * half_base() >= half_base()) by (nonlinear_arith)
                    requires
                        d.hi > 0,
                ;
            }
            return Hash256::zero();
        }
        let k = d.lo - 1;
        if k >= len as u128 {
            Hash256::zero()
        } else {
            v.block_hashes[k as usize]
        }
    }

    /// Folds one change into the records.
    fn apply_one(&mut self, e: &Apply, delete_empty: bool)
        requires
            old(self).wf(),
        ensures
            final(self).wf(),
            final(self).records() == apply_entry(old(self).records(), *e, delete_empty),
            final(self).spec_logs() == old(self).spec_logs(),
            final(self).spec_vicinity() == old(self).spec_vicinity(),
            final(self).spec_block() == old(self).spec_block(),
    {
        match e {
            Apply::Modify { address, basic, code, storage, reset_storage } => {
                let previous = self.state.take(address);
                let (old_code, old_storage) = match previous {
                    Some(a) => (a.code, a.storage),
                    None => (None, None),
                };
                let new_code = match code {
                    Some(c) => {
                        let d = c.clone();
                        assert(d@ =~= c@);
                        Some(d)
                    },
                    None => old_code,
                };
                let mut slots = if *reset_storage {
                    StorageMap::new()
                } else {
                    match old_storage {
                        Some(s) => s,
                        None => StorageMap::new(),
                    }
                };
                slots.prune_zeros();
                slots.merge(storage);
                let account = ForkMemoryAccount {
                    nonce: Some(basic.nonce),
                    balance: Some(basic.balance),
                    storage: Some(slots),
                    code: new_code,
                };
                let ghost rec = modified_record(
                    record_in(old(self).records(), *address),
                    *basic,
                    bytes_view(*code),
                    storage@,
                    *reset_storage,
                );
                assert(account@ == rec);
                if delete_empty && is_empty(&account) {
                    assert(self.records() =~= old(self).records().remove(*address));
                } else {
                    self.state.insert(*address, account);
                    assert(self.records() =~= old(self).records().insert(*address, rec));
                }
            },
            Apply::Delete { address } => {
                self.state.remove(address);
            },
        }
    }

    /// Commits a batch: the changes in order, then the events appended to the log.
    /// With `delete_empty`, a modified account left empty loses its record.
    pub fn apply(&mut self, values: Vec<Apply>, logs: Vec<Log>, delete_empty: bool)
        requires
            old(self).wf(),
        ensures
            final(self).wf(),
            final(self).records() == apply_all(old(self).records(), values@, delete_empty),
            final(self).spec_logs() == old(self).spec_logs() + logs@,
            final(self).spec_vicinity() == old(self).spec_vicinity(),
            final(self).spec_block() == old(self).spec_block(),
    {
        let ghost start = self.records();
        let mut i: usize = 0;
        while i < values.len()
            invariant
                self.wf(),
                i <= values@.len(),
                self.records() == apply_all(start, values@.take(i as int), delete_empty),
                self.spec_logs() == old(self).spec_logs(),
                self.spec_vicinity() == old(self).spec_vicinity(),
                self.spec_block() == old(self).spec_block(),
            decreases values@.len() - i,
        {
            proof {
                assert(values@.take(i + 1).drop_last() =~= values@.take(i as int));
            }
            self.apply_one(&values[i], delete_empty);
            i = i + 1;
        }
        assert(values@.take(values@.len() as int) =~= values@);
        let mut logs = logs;
        self.logs.append(&mut logs);
    }

    pub fn gas_price(&self) -> (r: Uint256)
        ensures
            r == self.spec_vicinity().gas_price,
    {
        self.vicinity.gas_price
    }

    pub fn origin(&self) -> (r: Address)
        ensures
            r == self.spec_vicinity().origin,
    {
        self.vicinity.origin
    }

    pub fn block_number(&self) -> (r: Uint256)
        ensures
            r == self.spec_vicinity().block_number,
    {
        self.vicinity.block_number
    }

    pub fn block_coinbase(&self) -> (r: Address)
        ensures
            r == self.spec_vicinity().block_coinbase,
    {
        self.vicinity.block_coinbase
    }

    pub fn block_timestamp(&self) -> (r: Uint256)
        ensures
            r == self.spec_vicinity().block_timestamp,
    {
        self.vicinity.block_timestamp
    }

    pub fn block_difficulty(&self) -> (r: Uint256)
        ensures
            r == self.spec_vicinity().block_difficulty,
    {
        self.vicinity.block_difficulty
    }

    pub fn block_gas_limit(&self) -> (r: Uint256)
        ensures
            r == self.spec_vicinity().block_gas_limit,
    {
        self.vicinity.block_gas_limit
    }

    pub fn chain_id(&self) -> (r: Uint256)
        ensures
            r == self.spec_vicinity().chain_id,
    {
        self.vicinity.chain_id
    }
}

} // verus!
