//! A hybrid account-state view for a virtual-machine backend: a local overlay of
//! account records over a read-only remote source pinned to one block.
pub mod assoc;
pub mod words;
pub mod storage;
pub mod account;
pub mod backend;
pub mod laws;

pub use account::{AccountMap, ForkMemoryAccount};
pub use backend::{Apply, Basic, BlockRef, Field, ForkMemoryBackend, Log, MemoryVicinity, RemoteQuery};
pub use storage::StorageMap;
pub use words::{Address, Hash256, Uint256};
