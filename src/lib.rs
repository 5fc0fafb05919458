//! Relaying Bitcoin block headers into a remote chain's light client: the
//! header codec, the endianness-aware hash type, the anti-flooding submission
//! protocol, an in-memory light client, and the relay driver.
pub mod account_id;
pub mod driver;
pub mod error;
pub mod hash;
pub mod header;
pub mod issuing;
pub mod memory;
pub mod submission;

pub use error::Error;
pub use hash::H256Le;
pub use account_id::{AccountId32, FromSs58Error};
pub use header::RawBlockHeader;
pub use issuing::{Issuing, RandomDelay};
pub use memory::MemoryRelay;
