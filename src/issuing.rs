use vstd::prelude::*;
use crate::error::Error;

verus! {

/// A wait applied before a header is submitted, so that independent relayers
/// that saw the same header do not all submit it at once.
pub trait RandomDelay {
    /// Whether a wait seeded with `seed` may end with `r`; each policy says
    /// which of its outcomes are possible.
    spec fn waited(&self, seed: Seq<u8>, r: Result<(), Error>) -> bool;

    /// Waits for a time drawn from `seed`. Returns `Err(Error::Cancelled)` when a
    /// shutdown signal ends the wait.
    fn delay(&self, seed: &[u8; 32]) -> (r: Result<(), Error>)
        ensures
            self.waited(seed@, r),
    ;
}

/// The operations of a Bitcoin light client kept on a remote chain.
pub trait Issuing {
    /// Whether the light client holds a best block, that is a non-zero best hash.
    fn is_initialized(&self) -> Result<bool, Error>;

    /// Seeds the light client with a trusted header at `height`.
    fn initialize(&mut self, header: Vec<u8>, height: u32) -> Result<(), Error>;

    /// Waits on `random_delay`, then submits `header` unless the light client
    /// already stores it.
    fn submit_block_header<D: RandomDelay>(&mut self, header: Vec<u8>, random_delay: &D) -> Result<
        (),
        Error,
    >;

    /// Submits `headers` in one operation, in the order given.
    fn submit_block_header_batch(&mut self, headers: Vec<Vec<u8>>) -> Result<(), Error>;

    /// The height of the light client's chain tip.
    fn get_best_height(&self) -> Result<u32, Error>;

    /// The little-endian hash of the block stored at `height`.
    fn get_block_hash(&self, height: u32) -> Result<Vec<u8>, Error>;

    /// Whether the block with little-endian hash `hash_le` is stored at a
    /// non-zero height.
    fn is_block_stored(&self, hash_le: Vec<u8>) -> Result<bool, Error>;
}

} // verus!
