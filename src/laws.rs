//! Properties of the overlay that relate its reads and its commit.
use vstd::prelude::*;
use crate::account::{AccountView, unresolved_account};
use crate::backend::{
    Apply, Basic, Field, ForkMemoryBackend, MemoryVicinity, RemoteQuery, apply_all, apply_entry, bytes_view,
    cached_slot, is_empty_account, modified_record, record_in, storage_after, window_hash,
};
use crate::storage::{merge_updates, nonzero_part};
use crate::words::{Address, Hash256, Uint256, zero_hash};

verus! {

/// The value of the last update of `key` among `us`, if any updates it.
pub open spec fn last_update(us: Seq<(Hash256, Hash256)>, key: Hash256) -> Option<Hash256>
    decreases us.len(),
{
    if us.len() == 0 {
        None
    } else if us.last().0 == key {
        Some(us.last().1)
    } else {
        last_update(us.drop_last(), key)
    }
}

/// A slot after merging is decided by the last update of its key, or kept as it was
/// when no update names it.
pub proof fn lemma_merge_at(m: Map<Hash256, Hash256>, us: Seq<(Hash256, Hash256)>, key: Hash256)
    ensures
        match last_update(us, key) {
            Some(v) => if v.spec_is_zero() {
                !merge_updates(m, us).contains_key(key)
            } else {
                merge_updates(m, us).contains_key(key) && merge_updates(m, us)[key] == v
            },
            None => merge_updates(m, us).contains_key(key) == m.contains_key(key) && (
            m.contains_key(key) ==> merge_updates(m, us)[key] == m[key]),
        },
    decreases us.len(),
{
    if us.len() > 0 {
        lemma_merge_at(m, us.drop_last(), key);
    }
}

/// Merging into a map without zero values leaves no zero value.
proof fn lemma_merge_keeps_nonzero(m: Map<Hash256, Hash256>, us: Seq<(Hash256, Hash256)>)
    requires
        nonzero_part(m) == m,
    ensures
        nonzero_part(merge_updates(m, us)) == merge_updates(m, us),
{
    let r = merge_updates(m, us);
    assert forall|k: Hash256| r.contains_key(k) implies !r[k].spec_is_zero() by {
        lemma_merge_at(m, us, k);
        if last_update(us, k).is_none() {
            assert(nonzero_part(m).contains_key(k));
        }
    }
    assert(nonzero_part(r) =~= r);
}

/// Merging the same updates a second time changes nothing.
proof fn lemma_merge_twice(m: Map<Hash256, Hash256>, us: Seq<(Hash256, Hash256)>)
    ensures
        merge_updates(merge_updates(m, us), us) == merge_updates(m, us),
{
    let once = merge_updates(m, us);
    let twice = merge_updates(once, us);
    assert forall|k: Hash256| #[trigger] twice.contains_key(k) <==> once.contains_key(k) by {
        lemma_merge_at(m, us, k);
        lemma_merge_at(once, us, k);
    }
    assert forall|k: Hash256| #[trigger] once.contains_key(k) implies twice[k] == once[k] by {
        lemma_merge_at(m, us, k);
        lemma_merge_at(once, us, k);
    }
    assert(twice =~= once);
}

/// Committing the same change twice leaves the records as one commit left them.
pub proof fn lemma_commit_idempotent(
    state: Map<Address, AccountView>,
    e: Apply,
    delete_empty: bool,
)
    ensures
        apply_entry(apply_entry(state, e, delete_empty), e, delete_empty) == apply_entry(
            state,
            e,
            delete_empty,
        ),
{
    match e {
        Apply::Modify { address, basic, code, storage, reset_storage } => {
            let rec0 = record_in(state, address);
            let r1 = modified_record(rec0, basic, bytes_view(code), storage@, reset_storage);
            let once = apply_entry(state, e, delete_empty);
            let rec1 = record_in(once, address);
            let r2 = modified_record(rec1, basic, bytes_view(code), storage@, reset_storage);
            if delete_empty && is_empty_account(r1) {
                assert(rec1 == unresolved_account());
                assert(is_empty_account(r2));
                assert(apply_entry(once, e, delete_empty) =~= once);
            } else {
                assert(rec1 == r1);
                let base = if reset_storage {
                    Map::empty()
                } else {
                    match rec0.storage {
                        Some(m) => m,
                        None => Map::empty(),
                    }
                };
                let s1 = storage_after(rec0, storage@, reset_storage);
                assert(nonzero_part(nonzero_part(base)) =~= nonzero_part(base));
                lemma_merge_keeps_nonzero(nonzero_part(base), storage@);
                lemma_merge_twice(nonzero_part(base), storage@);
                assert(storage_after(rec1, storage@, reset_storage) == s1);
                assert(r2 == r1);
                assert(apply_entry(once, e, delete_empty) =~= once);
            }
        },
        Apply::Delete { address } => {
            assert(state.remove(address).remove(address) =~= state.remove(address));
        },
    }
}

/// An address without a record reads as the unresolved record: every field it is
/// asked for goes to the remote source.
pub proof fn lemma_absent_address_escalates(
    b: ForkMemoryBackend,
    address: Address,
    key: Hash256,
    balance: Uint256,
)
    requires
        !b.records().contains_key(address),
    ensures
        b.record(address) == unresolved_account(),
        b.basic_outcome(address, None, None) == Err::<Basic, _>(b.query(address, Field::Balance)),
        b.basic_outcome(address, Some(balance), None) == Err::<Basic, _>(
            b.query(address, Field::Nonce),
        ),
        b.resolved_code(address, None).is_none(),
        b.storage_outcome(address, key, None) == Err::<Hash256, _>(
            b.query(address, Field::Storage(key)),
        ),
{
}

/// Resolved fields are answered from the record whatever the remote source would
/// return; a storage key that the record lacks still goes to the remote source.
pub proof fn lemma_resolved_fields_stay_local(
    b: ForkMemoryBackend,
    address: Address,
    key: Hash256,
    fetched_balance: Option<Uint256>,
    fetched_nonce: Option<Uint256>,
    fetched_code: Option<Seq<u8>>,
    fetched_slot: Option<Hash256>,
)
    requires
        b.records().contains_key(address),
        b.record(address).balance.is_some(),
        b.record(address).nonce.is_some(),
        b.record(address).code.is_some(),
        b.record(address).storage.is_some(),
    ensures
        b.basic_outcome(address, fetched_balance, fetched_nonce) == Ok::<_, RemoteQuery>(
            Basic {
                balance: b.record(address).balance.unwrap(),
                nonce: b.record(address).nonce.unwrap(),
            },
        ),
        b.resolved_code(address, fetched_code) == b.record(address).code,
        b.record(address).storage.unwrap().contains_key(key) ==> b.storage_outcome(
            address,
            key,
            fetched_slot,
        ) == Ok::<_, RemoteQuery>(b.record(address).storage.unwrap()[key]),
        !b.record(address).storage.unwrap().contains_key(key) ==> b.storage_outcome(
            address,
            key,
            None,
        ) == Err::<Hash256, _>(b.query(address, Field::Storage(key))),
{
}

/// A slot whose last update in a committed change is zero is gone from the record,
/// and reading it goes to the remote source as for a slot never set.
pub proof fn lemma_zero_update_prunes(
    before: ForkMemoryBackend,
    after: ForkMemoryBackend,
    address: Address,
    basic: Basic,
    code: Option<Vec<u8>>,
    storage: Vec<(Hash256, Hash256)>,
    reset_storage: bool,
    delete_empty: bool,
    key: Hash256,
    fetched: Hash256,
)
    requires
        after.records() == apply_all(
            before.records(),
            seq![Apply::Modify { address, basic, code, storage, reset_storage }],
            delete_empty,
        ),
        last_update(storage@, key) == Some(zero_hash()),
    ensures
        cached_slot(after.record(address), key).is_none(),
        after.storage_outcome(address, key, None) == Err::<Hash256, _>(
            after.query(address, Field::Storage(key)),
        ),
        after.storage_outcome(address, key, Some(fetched)) == Ok::<_, RemoteQuery>(
            fetched,
        ),
{
    let e = Apply::Modify { address, basic, code, storage, reset_storage };
    let es = seq![e];
    assert(es.drop_last() =~= Seq::<Apply>::empty());
    assert(es.last() == e);
    let rec0 = record_in(before.records(), address);
    let base = if reset_storage {
        Map::empty()
    } else {
        match rec0.storage {
            Some(m) => m,
            None => Map::empty(),
        }
    };
    lemma_merge_at(nonzero_part(base), storage@, key);
    assert(apply_all(before.records(), es.drop_last(), delete_empty) == before.records());
    assert(after.records() == apply_entry(before.records(), e, delete_empty));
    let rec = modified_record(rec0, basic, bytes_view(code), storage@, reset_storage);
    assert(!storage_after(rec0, storage@, reset_storage).contains_key(key));
    if delete_empty && is_empty_account(rec) {
        assert(!after.records().contains_key(address));
    } else {
        assert(after.records().contains_key(address));
        assert(after.record(address) == rec);
    }
}

/// A reset without updates leaves the record with resolved, empty storage; the
/// record stays unless empty accounts are being deleted.
pub proof fn lemma_reset_clears_storage(
    before: ForkMemoryBackend,
    after: ForkMemoryBackend,
    address: Address,
    basic: Basic,
    code: Option<Vec<u8>>,
    storage: Vec<(Hash256, Hash256)>,
    delete_empty: bool,
)
    requires
        after.records() == apply_all(
            before.records(),
            seq![Apply::Modify { address, basic, code, storage, reset_storage: true }],
            delete_empty,
        ),
        storage@.len() == 0,
    ensures
        !delete_empty ==> after.records().contains_key(address),
        after.records().contains_key(address) ==> after.record(address).storage == Some(
            Map::<Hash256, Hash256>::empty(),
        ),
{
    let e = Apply::Modify { address, basic, code, storage, reset_storage: true };
    let es = seq![e];
    assert(es.drop_last() =~= Seq::<Apply>::empty());
    assert(es.last() == e);
    assert(nonzero_part(Map::<Hash256, Hash256>::empty()) =~= Map::<Hash256, Hash256>::empty());
}

/// A deleted address has no record, and its balance goes to the remote source again.
pub proof fn lemma_delete_forgets(
    before: ForkMemoryBackend,
    after: ForkMemoryBackend,
    address: Address,
    delete_empty: bool,
)
    requires
        after.records() == apply_all(
            before.records(),
            seq![Apply::Delete { address }],
            delete_empty,
        ),
    ensures
        !after.records().contains_key(address),
        after.record(address) == unresolved_account(),
        after.basic_outcome(address, None, None) == Err::<Basic, _>(
            after.query(address, Field::Balance),
        ),
{
    let es = seq![Apply::Delete { address }];
    assert(es.drop_last() =~= Seq::<Apply>::empty());
    assert(es.last() == Apply::Delete { address });
}

/// The window of block hashes: the current block has the zero hash, the block
/// before it the newest stored hash, and a block past the window the zero hash.
pub proof fn lemma_block_hash_window(v: MemoryVicinity, number: Uint256)
    ensures
        number.value() == v.block_number.value() ==> window_hash(v, number) == zero_hash(),
        number.value() + 1 == v.block_number.value() && v.block_hashes@.len() > 0 ==> window_hash(
            v,
            number,
        ) == v.block_hashes@[0],
        number.value() + 1 + v.block_hashes@.len() == v.block_number.value() ==> window_hash(
            v,
            number,
        ) == zero_hash(),
{
}

} // verus!
