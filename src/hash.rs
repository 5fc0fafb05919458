use vstd::prelude::*;

verus! {

/// The lowercase hexadecimal digits, by value.
pub open spec fn hex_digits() -> Seq<char> {
    seq!['0', '1', '2', '3', '4', '5', '6', '7', '8', '9', 'a', 'b', 'c', 'd', 'e', 'f']
}

/// Lowercase hexadecimal text of `b`: two digits per byte, high nibble first.
pub open spec fn hex_lower(b: Seq<u8>) -> Seq<char>
    decreases b.len(),
{
    if b.len() == 0 {
        Seq::empty()
    } else {
        let last = b.last();
        hex_lower(b.drop_last()) + seq![hex_digits()[(last / 16) as int], hex_digits()[(last % 16) as int]]
    }
}

/// `b` read back to front.
pub open spec fn reversed(b: Seq<u8>) -> Seq<u8> {
    Seq::new(b.len(), |i: int| b[b.len() - 1 - i])
}

/// Whether every byte of `b` is zero.
pub open spec fn all_zero(b: Seq<u8>) -> bool {
    forall|i: int| 0 <= i < b.len() ==> b[i] == 0
}

/// Relies on hex::encode: lowercase digits, two per byte, high nibble first.
#[verifier::external_body]
fn hex_encode(b: &[u8]) -> (r: String)
    ensures
        r@ == hex_lower(b@),
{
    hex::encode(b)
}

/// Relies on hex::decode: text made of two hex digits per byte decodes back to
/// those bytes; anything else is an error.
#[verifier::external_body]
fn hex_decode(s: &str) -> (r: Result<Vec<u8>, hex::FromHexError>)
    ensures
        forall|b: Seq<u8>| #[trigger] hex_lower(b) == s@ ==> (r is Ok && r->Ok_0@ == b),
{
    hex::decode(s)
}

/// The error type of hex's `decode`, carried opaquely.
#[verifier::external_type_specification]
#[verifier::external_body]
pub struct ExFromHexError(hex::FromHexError);

/// A 32-byte block hash held in little-endian order, the order in which the
/// light client keys its storage. Big-endian forms are produced and read only
/// through the conversions below.
#[derive(Clone, Copy, Debug)]
pub struct H256Le {
    pub content: [u8; 32],
}

impl View for H256Le {
    type V = Seq<u8>;

    /// The little-endian bytes.
    open spec fn view(&self) -> Seq<u8> {
        self.content@
    }
}

fn copy_bytes(b: &[u8], reverse: bool) -> (r: [u8; 32])
    requires
        b@.len() == 32,
    ensures
        r@ == (if reverse { reversed(b@) } else { b@ }),
{
    let mut a: [u8; 32] = [0u8; 32];
    let mut i: usize = 0;
    while i < 32
        invariant
            0 <= i <= 32,
            b@.len() == 32,
            a@.len() == 32,
            forall|j: int|
                0 <= j < i ==> a@[j] == (if reverse { b@[31 - j] } else { b@[j] }),
        decreases 32 - i,
    {
        if reverse {
            a[i] = b[31 - i];
        } else {
            a[i] = b[i];
        }
        i = i + 1;
    }
    if reverse {
        assert(a@ =~= reversed(b@));
    } else {
        assert(a@ =~= b@);
    }
    a
}

impl H256Le {
    /// The all-zero hash, which the light client reports before it is initialized.
    pub fn zero() -> (r: H256Le)
        ensures
            r@ == Seq::new(32, |i: int| 0u8),
            all_zero(r@),
    {
        let r = H256Le { content: [0u8; 32] };
        assert(r@ =~= Seq::new(32, |i: int| 0u8));
        r
    }

    /// Takes bytes that are already in little-endian order.
    pub fn from_bytes_le(b: &[u8]) -> (r: H256Le)
        requires
            b@.len() == 32,
        ensures
            r@ == b@,
    {
        H256Le { content: copy_bytes(b, false) }
    }

    /// Takes bytes in big-endian (display) order.
    pub fn from_bytes_be(b: &[u8]) -> (r: H256Le)
        requires
            b@.len() == 32,
        ensures
            r@ == reversed(b@),
    {
        H256Le { content: copy_bytes(b, true) }
    }

    pub fn to_bytes_le(&self) -> (r: [u8; 32])
        ensures
            r@ == self@,
    {
        self.content
    }

    pub fn to_bytes_be(&self) -> (r: [u8; 32])
        ensures
            r@ == reversed(self@),
    {
        copy_bytes(&self.content, true)
    }

    pub fn is_zero(&self) -> (r: bool)
        ensures
            r == all_zero(self@),
    {
        let mut i: usize = 0;
        while i < 32
            invariant
                0 <= i <= 32,
                self@.len() == 32,
                forall|j: int| 0 <= j < i ==> self@[j] == 0,
            decreases 32 - i,
        {
            if self.content[i] != 0 {
                return false;
            }
            i = i + 1;
        }
        true
    }

    /// Lowercase hex of the little-endian bytes.
    pub fn to_hex_le(&self) -> (r: String)
        ensures
            r@ == hex_lower(self@),
    {
        hex_encode(&self.content)
    }

    /// Lowercase hex of the big-endian bytes, the form used for display.
    pub fn to_hex_be(&self) -> (r: String)
        ensures
            r@ == hex_lower(reversed(self@)),
    {
        let be = self.to_bytes_be();
        hex_encode(&be)
    }

    /// Whether two hashes hold the same bytes.
    pub fn same_as(&self, other: &H256Le) -> (r: bool)
        ensures
            r == (self@ == other@),
    {
        let mut i: usize = 0;
        while i < 32
            invariant
                0 <= i <= 32,
                self@.len() == 32,
                other@.len() == 32,
                forall|j: int| 0 <= j < i ==> self@[j] == other@[j],
            decreases 32 - i,
        {
            if self.content[i] != other.content[i] {
                return false;
            }
            i = i + 1;
        }
        assert(self@ =~= other@);
        true
    }
}

/// The storage key for little-endian hash bytes; anything but 32 bytes is a
/// decoding failure.
pub fn block_key(hash_le: &[u8]) -> (r: Result<H256Le, crate::error::Error>)
    ensures
        hash_le@.len() == 32 ==> r is Ok && r->Ok_0@ == hash_le@,
        hash_le@.len() != 32 ==> r == Err::<H256Le, crate::error::Error>(
            crate::error::Error::DecodeFailure,
        ),
{
    if hash_le.len() != 32 {
        return Err(crate::error::Error::DecodeFailure);
    }
    Ok(H256Le::from_bytes_le(hash_le))
}

/// Whether a header recorded at `height` counts as stored: height zero is
/// what the light client reports for a hash it does not hold.
pub fn recorded_as_stored(height: u32) -> (r: bool)
    ensures
        r == (height > 0),
{
    height > 0
}

/// Reads back the little-endian bytes of `h` through its hex text, as a hash
/// fetched from the remote chain is read.
pub fn decode_hex_le(h: &H256Le) -> (r: Result<Vec<u8>, crate::error::Error>)
    ensures
        r is Ok,
        r->Ok_0@ == h@,
{
    let text = h.to_hex_le();
    match hex_decode(text.as_str()) {
        Ok(v) => Ok(v),
        Err(_) => Err(crate::error::Error::DecodeFailure),
    }
}

} // verus!
