use fork_memory::{
    AccountMap, Address, Apply, Basic, BlockRef, Field, ForkMemoryAccount, ForkMemoryBackend,
    Hash256, Log, MemoryVicinity, RemoteQuery, StorageMap, Uint256,
};

fn u(x: u128) -> Uint256 {
    Uint256::from_u128(x)
}

fn h(x: u128) -> Hash256 {
    Hash256 { hi: 0, lo: x }
}

fn addr(x: u128) -> Address {
    Address { hi: 0, lo: x }
}

fn vicinity(block_number: u128, hashes: Vec<Hash256>) -> MemoryVicinity {
    MemoryVicinity {
        gas_price: u(1),
        origin: addr(9),
        chain_id: u(1),
        block_hashes: hashes,
        block_number: u(block_number),
        block_coinbase: addr(8),
        block_timestamp: u(1000),
        block_difficulty: u(0),
        block_gas_limit: u(30_000_000),
    }
}

fn empty_backend(block_number: u128) -> ForkMemoryBackend {
    ForkMemoryBackend::new(vicinity(block_number, vec![]), AccountMap::new(), BlockRef::Number(block_number as u64))
}

fn query(address: Address, field: Field, block: BlockRef) -> RemoteQuery {
    RemoteQuery { address, field, block }
}

fn modify(address: Address, balance: u128, nonce: u128, code: Option<Vec<u8>>, storage: Vec<(Hash256, Hash256)>, reset_storage: bool) -> Apply {
    Apply::Modify { address, basic: Basic { balance: u(balance), nonce: u(nonce) }, code, storage, reset_storage }
}

fn full_account() -> ForkMemoryAccount {
    let mut slots = StorageMap::new();
    slots.insert(h(1), h(11));
    ForkMemoryAccount { nonce: Some(u(4)), balance: Some(u(40)), storage: Some(slots), code: Some(vec![0x60, 0x00]) }
}

#[test]
fn absent_address_escalates_every_field() {
    let b = empty_backend(100);
    let x = addr(1);
    let pin = BlockRef::Number(100);
    assert!(!b.account_exists(x));
    assert_eq!(b.basic(x, None, None), Err(query(x, Field::Balance, pin)));
    assert_eq!(b.basic(x, Some(u(5)), None), Err(query(x, Field::Nonce, pin)));
    assert_eq!(b.code(x, None), Err(query(x, Field::Code, pin)));
    assert_eq!(b.code_size(x, None), Err(query(x, Field::Code, pin)));
    assert_eq!(b.code_hash(x, None), Err(query(x, Field::Code, pin)));
    assert_eq!(b.storage(x, h(3), None), Err(query(x, Field::Storage(h(3)), pin)));
    assert!(!b.account_exists(x));
}

#[test]
fn resolved_record_answers_without_query() {
    let mut state = AccountMap::new();
    state.insert(addr(1), full_account());
    let b = ForkMemoryBackend::new(vicinity(100, vec![]), state, BlockRef::Latest);
    let x = addr(1);
    assert!(b.account_exists(x));
    assert_eq!(b.basic(x, None, None), Ok(Basic { balance: u(40), nonce: u(4) }));
    assert_eq!(b.basic(x, Some(u(7)), Some(u(8))), Ok(Basic { balance: u(40), nonce: u(4) }));
    assert_eq!(b.code(x, None), Ok(vec![0x60, 0x00]));
    assert_eq!(b.code(x, Some(vec![1, 2, 3])), Ok(vec![0x60, 0x00]));
    assert_eq!(b.code_size(x, None), Ok(2));
    assert_eq!(b.storage(x, h(1), None), Ok(h(11)));
    assert_eq!(b.storage(x, h(1), Some(h(99))), Ok(h(11)));
    assert_eq!(b.storage(x, h(2), None), Err(query(x, Field::Storage(h(2)), BlockRef::Latest)));
    assert_eq!(b.storage(x, h(2), Some(h(5))), Ok(h(5)));
}

#[test]
fn unresolved_field_is_fetched_each_time() {
    let mut state = AccountMap::new();
    state.insert(addr(1), ForkMemoryAccount { nonce: Some(u(3)), balance: None, storage: None, code: None });
    let b = ForkMemoryBackend::new(vicinity(100, vec![]), state, BlockRef::Number(100));
    let x = addr(1);
    assert_eq!(b.basic(x, None, None), Err(query(x, Field::Balance, BlockRef::Number(100))));
    assert_eq!(b.basic(x, Some(u(6)), None), Ok(Basic { balance: u(6), nonce: u(3) }));
    assert_eq!(b.basic(x, None, None), Err(query(x, Field::Balance, BlockRef::Number(100))));
}

#[test]
fn commit_twice_is_idempotent() {
    let mut b = empty_backend(100);
    let x = addr(1);
    let e = modify(x, 10, 3, Some(vec![1, 2]), vec![(h(1), h(7)), (h(2), h(0)), (h(1), h(8))], false);
    b.apply(vec![e.clone()], vec![], false);
    let after_one = b.state().get(&x).unwrap().clone();
    b.apply(vec![e], vec![], false);
    let after_two = b.state().get(&x).unwrap().clone();
    assert_eq!(after_one.balance, after_two.balance);
    assert_eq!(after_one.nonce, after_two.nonce);
    assert_eq!(after_one.code, after_two.code);
    let s1 = after_one.storage.unwrap();
    let s2 = after_two.storage.unwrap();
    assert_eq!(s1.entries(), s2.entries());
    assert_eq!(s2.get(&h(1)), Some(h(8)));
    assert_eq!(s2.get(&h(2)), None);
    assert_eq!(s2.len(), 1);
}

#[test]
fn zero_update_removes_slot() {
    let mut b = empty_backend(100);
    let x = addr(1);
    b.apply(vec![modify(x, 1, 1, None, vec![(h(5), h(50))], false)], vec![], false);
    assert_eq!(b.storage(x, h(5), None), Ok(h(50)));
    b.apply(vec![modify(x, 1, 1, None, vec![(h(5), h(0))], false)], vec![], false);
    let slots = b.state().get(&x).unwrap().storage.clone().unwrap();
    assert!(!slots.contains_key(&h(5)));
    assert_eq!(b.storage(x, h(5), None), Err(query(x, Field::Storage(h(5)), BlockRef::Number(100))));
}

#[test]
fn cached_zero_slots_are_pruned_on_commit() {
    let mut slots = StorageMap::new();
    slots.insert(h(1), h(0));
    slots.insert(h(2), h(20));
    let mut state = AccountMap::new();
    state.insert(addr(1), ForkMemoryAccount { nonce: None, balance: None, storage: Some(slots), code: None });
    let mut b = ForkMemoryBackend::new(vicinity(100, vec![]), state, BlockRef::Latest);
    assert_eq!(b.storage(addr(1), h(1), None), Ok(h(0)));
    b.apply(vec![modify(addr(1), 1, 0, None, vec![], false)], vec![], false);
    let s = b.state().get(&addr(1)).unwrap().storage.clone().unwrap();
    assert_eq!(s.len(), 1);
    assert_eq!(s.get(&h(2)), Some(h(20)));
    assert_eq!(b.storage(addr(1), h(1), None), Err(query(addr(1), Field::Storage(h(1)), BlockRef::Latest)));
}

#[test]
fn reset_storage_discards_slots() {
    let mut state = AccountMap::new();
    state.insert(addr(1), full_account());
    let mut b = ForkMemoryBackend::new(vicinity(100, vec![]), state, BlockRef::Latest);
    b.apply(vec![modify(addr(1), 40, 4, None, vec![], true)], vec![], false);
    let acc = b.state().get(&addr(1)).unwrap();
    let s = acc.storage.clone().unwrap();
    assert_eq!(s.len(), 0);
    assert_eq!(acc.code, Some(vec![0x60, 0x00]));
    assert_eq!(b.storage(addr(1), h(1), None), Err(query(addr(1), Field::Storage(h(1)), BlockRef::Latest)));
}

#[test]
fn reset_then_update_keeps_only_new_slots() {
    let mut state = AccountMap::new();
    state.insert(addr(1), full_account());
    let mut b = ForkMemoryBackend::new(vicinity(100, vec![]), state, BlockRef::Latest);
    b.apply(vec![modify(addr(1), 40, 4, None, vec![(h(3), h(33))], true)], vec![], false);
    let s = b.state().get(&addr(1)).unwrap().storage.clone().unwrap();
    assert_eq!(s.entries(), &vec![(h(3), h(33))]);
}

#[test]
fn delete_forgets_record() {
    let mut state = AccountMap::new();
    state.insert(addr(1), full_account());
    let mut b = ForkMemoryBackend::new(vicinity(100, vec![]), state, BlockRef::Number(7));
    b.apply(vec![Apply::Delete { address: addr(1) }], vec![], false);
    assert!(!b.account_exists(addr(1)));
    assert_eq!(b.basic(addr(1), None, None), Err(query(addr(1), Field::Balance, BlockRef::Number(7))));
    assert_eq!(b.basic(addr(1), Some(u(2)), Some(u(3))), Ok(Basic { balance: u(2), nonce: u(3) }));
}

#[test]
fn delete_of_absent_address_changes_nothing() {
    let mut state = AccountMap::new();
    state.insert(addr(1), full_account());
    let mut b = ForkMemoryBackend::new(vicinity(100, vec![]), state, BlockRef::Latest);
    b.apply(vec![Apply::Delete { address: addr(2) }], vec![], true);
    assert!(b.account_exists(addr(1)));
    assert_eq!(b.state().entries().len(), 1);
}

#[test]
fn empty_account_deleted_only_when_asked() {
    let mut b = empty_backend(100);
    b.apply(vec![modify(addr(1), 0, 0, None, vec![], false)], vec![], false);
    assert!(b.account_exists(addr(1)));
    b.apply(vec![modify(addr(1), 0, 0, None, vec![], false)], vec![], true);
    assert!(!b.account_exists(addr(1)));
    b.apply(vec![modify(addr(2), 0, 0, Some(vec![]), vec![(h(1), h(1))], false)], vec![], true);
    assert!(!b.account_exists(addr(2)));
}

#[test]
fn non_empty_account_survives_delete_empty() {
    let mut b = empty_backend(100);
    b.apply(vec![modify(addr(1), 0, 1, None, vec![], false)], vec![], true);
    assert!(b.account_exists(addr(1)));
    b.apply(vec![modify(addr(2), 0, 0, Some(vec![0]), vec![], false)], vec![], true);
    assert!(b.account_exists(addr(2)));
    b.apply(vec![modify(addr(3), 1, 0, None, vec![], false)], vec![], true);
    assert!(b.account_exists(addr(3)));
}

#[test]
fn modify_keeps_code_when_none_given() {
    let mut state = AccountMap::new();
    state.insert(addr(1), full_account());
    let mut b = ForkMemoryBackend::new(vicinity(100, vec![]), state, BlockRef::Latest);
    b.apply(vec![modify(addr(1), 1, 1, None, vec![], false)], vec![], false);
    assert_eq!(b.code(addr(1), None), Ok(vec![0x60, 0x00]));
    b.apply(vec![modify(addr(1), 1, 1, Some(vec![0xff]), vec![], false)], vec![], false);
    assert_eq!(b.code(addr(1), None), Ok(vec![0xff]));
    assert_eq!(b.code_size(addr(1), None), Ok(1));
}

#[test]
fn logs_are_appended_in_order() {
    let mut b = empty_backend(100);
    let l1 = Log { address: addr(1), topics: vec![h(1)], data: vec![1] };
    let l2 = Log { address: addr(2), topics: vec![], data: vec![2, 2] };
    let l3 = Log { address: addr(3), topics: vec![h(3), h(4)], data: vec![] };
    b.apply(vec![], vec![l1, l2], false);
    b.apply(vec![], vec![l3], false);
    let logs = b.logs();
    assert_eq!(logs.len(), 3);
    assert_eq!(logs[0].address, addr(1));
    assert_eq!(logs[1].data, vec![2, 2]);
    assert_eq!(logs[2].topics, vec![h(3), h(4)]);
}

#[test]
fn changes_apply_in_order() {
    let mut b = empty_backend(100);
    b.apply(
        vec![
            modify(addr(1), 5, 1, None, vec![(h(1), h(1))], false),
            Apply::Delete { address: addr(1) },
            modify(addr(1), 6, 2, None, vec![], false),
        ],
        vec![],
        false,
    );
    assert_eq!(b.basic(addr(1), None, None), Ok(Basic { balance: u(6), nonce: u(2) }));
    assert_eq!(b.storage(addr(1), h(1), None), Err(query(addr(1), Field::Storage(h(1)), BlockRef::Number(100))));
}

#[test]
fn block_hash_window_edges() {
    let hashes = vec![h(99), h(98), h(97)];
    let b = ForkMemoryBackend::new(vicinity(100, hashes), AccountMap::new(), BlockRef::Latest);
    assert_eq!(b.block_hash(u(100)), Hash256::zero());
    assert_eq!(b.block_hash(u(150)), Hash256::zero());
    assert_eq!(b.block_hash(u(99)), h(99));
    assert_eq!(b.block_hash(u(98)), h(98));
    assert_eq!(b.block_hash(u(97)), h(97));
    assert_eq!(b.block_hash(u(96)), Hash256::zero());
    assert_eq!(b.block_hash(u(0)), Hash256::zero());
}

#[test]
fn block_hash_with_wide_numbers() {
    let big = Uint256 { hi: 1, lo: 2 };
    let mut v = vicinity(0, vec![h(1), h(2), h(3), h(4)]);
    v.block_number = big;
    let b = ForkMemoryBackend::new(v, AccountMap::new(), BlockRef::Latest);
    assert_eq!(b.block_hash(Uint256 { hi: 1, lo: 1 }), h(1));
    assert_eq!(b.block_hash(Uint256 { hi: 1, lo: 0 }), h(2));
    assert_eq!(b.block_hash(Uint256 { hi: 0, lo: u128::MAX }), h(3));
    assert_eq!(b.block_hash(Uint256 { hi: 0, lo: u128::MAX - 1 }), h(4));
    assert_eq!(b.block_hash(Uint256 { hi: 0, lo: u128::MAX - 2 }), Hash256::zero());
    assert_eq!(b.block_hash(u(5)), Hash256::zero());
    assert_eq!(b.block_hash(big), Hash256::zero());
}

#[test]
fn block_hash_with_empty_window() {
    let b = empty_backend(100);
    assert_eq!(b.block_hash(u(99)), Hash256::zero());
}

#[test]
fn code_hash_of_empty_code_is_keccak_of_nothing() {
    let mut state = AccountMap::new();
    state.insert(addr(1), ForkMemoryAccount { nonce: None, balance: None, storage: None, code: Some(vec![]) });
    let b = ForkMemoryBackend::new(vicinity(100, vec![]), state, BlockRef::Latest);
    let expected = Hash256 { hi: 0xc5d2460186f7233c927e7db2dcc703c0, lo: 0xe500b653ca82273b7bfad8045d85a470 };
    assert_eq!(b.code_hash(addr(1), None), Ok(expected));
    assert_eq!(b.code_size(addr(1), None), Ok(0));
}

#[test]
fn code_hash_of_fetched_code() {
    let b = empty_backend(100);
    // keccak256("abc")
    let expected = Hash256 { hi: 0x4e03657aea45a94fc7d47ba826c8d667, lo: 0xc0d1e6e33a64a036ec44f58fa12d6c45 };
    assert_eq!(b.code_hash(addr(1), Some(b"abc".to_vec())), Ok(expected));
    assert_eq!(b.code_size(addr(1), Some(b"abc".to_vec())), Ok(3));
}

#[test]
fn context_accessors() {
    let b = ForkMemoryBackend::new(vicinity(100, vec![]), AccountMap::new(), BlockRef::Number(90));
    assert_eq!(b.gas_price(), u(1));
    assert_eq!(b.origin(), addr(9));
    assert_eq!(b.chain_id(), u(1));
    assert_eq!(b.block_number(), u(100));
    assert_eq!(b.block_coinbase(), addr(8));
    assert_eq!(b.block_timestamp(), u(1000));
    assert_eq!(b.block_difficulty(), u(0));
    assert_eq!(b.block_gas_limit(), u(30_000_000));
    assert_eq!(b.block(), BlockRef::Number(90));
}

#[test]
fn end_to_end_fork_session() {
    let mut b = empty_backend(100);
    let x = addr(0xabc);
    let pin = BlockRef::Number(100);
    // the remote source answers balance 5 and nonce 2 at block 100
    let first = b.basic(x, None, None);
    assert_eq!(first, Err(query(x, Field::Balance, pin)));
    let second = b.basic(x, Some(u(5)), None);
    assert_eq!(second, Err(query(x, Field::Nonce, pin)));
    assert_eq!(b.basic(x, Some(u(5)), Some(u(2))), Ok(Basic { balance: u(5), nonce: u(2) }));
    b.apply(vec![modify(x, 10, 3, None, vec![(h(1), h(7))], false)], vec![], false);
    assert_eq!(b.basic(x, None, None), Ok(Basic { balance: u(10), nonce: u(3) }));
    assert_eq!(b.storage(x, h(1), None), Ok(h(7)));
}

#[test]
fn uint256_order_and_difference() {
    let a = Uint256 { hi: 1, lo: 0 };
    let c = Uint256 { hi: 0, lo: u128::MAX };
    assert!(c.lt(&a));
    assert!(!a.lt(&c));
    assert!(!a.lt(&a));
    assert_eq!(a.sub_below(&c), u(1));
    assert_eq!(Uint256 { hi: 3, lo: 5 }.sub_below(&Uint256 { hi: 1, lo: 7 }), Uint256 { hi: 1, lo: u128::MAX - 1 });
    assert!(Uint256::zero().is_zero());
    assert!(!u(1).is_zero());
}

#[test]
fn storage_map_operations() {
    let mut s = StorageMap::new();
    s.insert(h(1), h(10));
    s.insert(h(2), h(0));
    s.insert(h(1), h(11));
    assert_eq!(s.len(), 2);
    assert_eq!(s.get(&h(1)), Some(h(11)));
    s.prune_zeros();
    assert_eq!(s.len(), 1);
    s.merge(&vec![(h(3), h(30)), (h(1), h(0)), (h(3), h(31))]);
    assert_eq!(s.entries(), &vec![(h(3), h(31))]);
    s.remove(&h(3));
    assert_eq!(s.len(), 0);
}

#[test]
fn account_map_operations() {
    let mut m = AccountMap::new();
    m.insert(addr(1), ForkMemoryAccount::default());
    m.insert(addr(2), full_account());
    m.insert(addr(1), full_account());
    assert_eq!(m.entries().len(), 2);
    assert!(m.contains_key(&addr(1)));
    assert_eq!(m.get(&addr(1)).unwrap().balance, Some(u(40)));
    let taken = m.take(&addr(2)).unwrap();
    assert_eq!(taken.nonce, Some(u(4)));
    assert!(!m.contains_key(&addr(2)));
    m.remove(&addr(1));
    assert!(m.get(&addr(1)).is_none());
}
