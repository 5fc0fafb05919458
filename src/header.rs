use vstd::prelude::*;
use crate::hash::H256Le;

verus! {

/// Double SHA-256 of `b`, in the byte order the digest is produced in.
pub uninterp spec fn sha256d_of(b: Seq<u8>) -> Seq<u8>;

/// Single SHA-256 of `b`.
pub uninterp spec fn sha256_of(b: Seq<u8>) -> Seq<u8>;

/// Length of a serialized Bitcoin block header.
pub const HEADER_LEN: usize = 80;

/// Relies on bitcoin's `sha256d::Hash::hash`: the double SHA-256 digest of `b`,
/// whose natural byte order is the little-endian order of a block hash.
#[verifier::external_body]
fn double_sha256(b: &[u8]) -> (r: [u8; 32])
    ensures
        r@ == sha256d_of(b@),
{
    bitcoin::hashes::Hash::to_byte_array(<bitcoin::hashes::sha256d::Hash as bitcoin::hashes::Hash>::hash(b))
}

/// Relies on bitcoin's `sha256::Hash::hash`: the SHA-256 digest of `b`.
#[verifier::external_body]
fn single_sha256(b: &[u8]) -> (r: [u8; 32])
    ensures
        r@ == sha256_of(b@),
{
    bitcoin::hashes::Hash::to_byte_array(<bitcoin::hashes::sha256::Hash as bitcoin::hashes::Hash>::hash(b))
}

/// A serialized Bitcoin block header. Its hash is always derived from the
/// bytes, never kept beside them.
#[derive(Clone, Debug)]
pub struct RawBlockHeader(pub Vec<u8>);

impl View for RawBlockHeader {
    type V = Seq<u8>;

    open spec fn view(&self) -> Seq<u8> {
        self.0@
    }
}

/// Whether `b` has the length of a block header.
pub open spec fn is_header(b: Seq<u8>) -> bool {
    b.len() == HEADER_LEN
}

/// The seed of the submission delay for header bytes `b`.
pub open spec fn delay_seed_of(b: Seq<u8>) -> Seq<u8> {
    sha256_of(b)
}

/// The block hash of header bytes `b`.
pub fn hash_of_bytes(b: &[u8]) -> (r: H256Le)
    ensures
        r@ == sha256d_of(b@),
{
    H256Le { content: double_sha256(b) }
}

impl RawBlockHeader {
    pub fn new(bytes: Vec<u8>) -> (r: RawBlockHeader)
        ensures
            r@ == bytes@,
    {
        RawBlockHeader(bytes)
    }

    /// Whether the bytes have the length of a block header.
    pub fn is_valid(&self) -> (r: bool)
        ensures
            r == is_header(self@),
    {
        self.0.len() == HEADER_LEN
    }

    /// The block hash, recomputed from the bytes.
    pub fn hash(&self) -> (r: H256Le)
        ensures
            r@ == sha256d_of(self@),
    {
        hash_of_bytes(self.0.as_slice())
    }

    /// The seed handed to the random delay before this header is submitted:
    /// the SHA-256 of the header bytes.
    pub fn delay_seed(&self) -> (r: [u8; 32])
        ensures
            r@ == delay_seed_of(self@),
    {
        single_sha256(self.0.as_slice())
    }
}

/// The delay seed depends on the header bytes alone: equal bytes give equal seeds.
pub proof fn lemma_delay_seed_deterministic(a: Seq<u8>, b: Seq<u8>)
    requires
        a == b,
    ensures
        delay_seed_of(a) == delay_seed_of(b),
{
}

} // verus!
