use vstd::prelude::*;
use vstd::string::StringSliceAdditionalSpecFns;

verus! {

/// The SS58 address type this library writes.
pub const SS58_PREFIX: u16 = 42;

/// BLAKE2b with a 64-byte digest.
pub uninterp spec fn blake2b512_of(b: Seq<u8>) -> Seq<u8>;

/// Base58 text (Bitcoin alphabet) of `b`.
pub uninterp spec fn base58_of(b: Seq<u8>) -> Seq<char>;

/// The bytes that base58 text `s` decodes to, or `None` where it is not base58.
pub uninterp spec fn base58_decoded(s: Seq<char>) -> Option<Seq<u8>>;

/// Relies on blake2's `Blake2b512` through `Digest::digest`: the 64-byte
/// BLAKE2b digest of `b`.
#[verifier::external_body]
fn blake2b512(b: &[u8]) -> (r: Vec<u8>)
    ensures
        r@ == blake2b512_of(b@),
        r@.len() == 64,
{
    <blake2::Blake2b512 as blake2::Digest>::digest(b).to_vec()
}

/// Relies on base58's `ToBase58::to_base58` for byte slices.
#[verifier::external_body]
fn to_base58(b: &[u8]) -> (r: String)
    ensures
        r@ == base58_of(b@),
{
    base58::ToBase58::to_base58(b)
}

/// Longest text, in bytes, that base58's decoder takes: it decodes into a
/// 132-byte buffer, and more leading '1's than that overrun it.
pub const MAX_BASE58_TEXT: usize = 132;

/// Whether byte `b` is a digit of the base58 (Bitcoin) alphabet.
pub open spec fn is_base58_byte(b: u8) -> bool {
    (49 <= b <= 57) || (65 <= b <= 72) || (74 <= b <= 78) || (80 <= b <= 90) || (97 <= b <= 107)
        || (109 <= b <= 122)
}

/// Whether every byte of `b` is a base58 digit.
pub open spec fn is_base58_text(b: Seq<u8>) -> bool {
    forall|i: int| 0 <= i < b.len() ==> is_base58_byte(#[trigger] b[i])
}

/// The byte of the base58 digit '1', which stands for a leading zero byte.
pub const BASE58_ZERO: u8 = 49;

/// Relies on base58's `FromBase58::from_base58` for strings. It refuses text
/// with a byte outside the alphabet. It stays within its 132-byte buffer for
/// text of at most `MAX_BASE58_TEXT` bytes (each digit adds less than a byte
/// to the value, each leading '1' one zero byte) and for text that does not
/// start with '1' (no leading zero bytes are asked for).
#[verifier::external_body]
fn from_base58(s: &str) -> (r: Result<Vec<u8>, base58::FromBase58Error>)
    requires
        s.spec_bytes().len() <= MAX_BASE58_TEXT || s.spec_bytes()[0] != BASE58_ZERO,
    ensures
        match r {
            Ok(v) => base58_decoded(s@) == Some(v@),
            Err(_) => base58_decoded(s@) is None,
        },
        !is_base58_text(s.spec_bytes()) ==> r is Err,
{
    base58::FromBase58::from_base58(s)
}

/// The error type of base58's `FromBase58::from_base58`, carried opaquely.
#[verifier::external_type_specification]
#[verifier::external_body]
pub struct ExFromBase58Error(base58::FromBase58Error);

/// Why text could not be read as an SS58 address.
#[derive(Clone, Copy, Debug, PartialEq, Eq, Structural)]
pub enum FromSs58Error {
    BadBase58,
    BadLength,
    InvalidChecksum,
    InvalidPrefix,
}

/// The ASCII bytes of "SS58PRE", hashed ahead of an address's payload.
pub open spec fn ss58_context() -> Seq<u8> {
    seq![83u8, 83u8, 53u8, 56u8, 80u8, 82u8, 69u8]
}

/// The checksum hash of an address payload.
pub open spec fn ss58_hash(data: Seq<u8>) -> Seq<u8> {
    blake2b512_of(ss58_context() + data)
}

/// The leading bytes that encode address type `ident`, whose upper two bits are
/// ignored.
pub open spec fn prefix_bytes(ident: u16) -> Seq<u8> {
    let id = ident & 0x3fff;
    if id < 64 {
        seq![id as u8]
    } else {
        seq![(((id & 0xfc) as u8) >> 2u8) | 0x40u8, ((id >> 8u16) as u8) | (((id & 3) as u8) << 6u8)]
    }
}

/// The bytes that an address of `key` with type `ident` encodes: prefix, key,
/// and the first two bytes of the checksum hash.
pub open spec fn ss58_bytes(ident: u16, key: Seq<u8>) -> Seq<u8> {
    let payload = prefix_bytes(ident) + key;
    payload + ss58_hash(payload).subrange(0, 2)
}

/// What address bytes `data` read as: the key, or why they are refused. The
/// address type is read for its length only.
pub open spec fn ss58_key_of(data: Seq<u8>) -> Result<Seq<u8>, FromSs58Error> {
    if data.len() < 2 {
        Err(FromSs58Error::BadLength)
    } else if data[0] >= 128 {
        Err(FromSs58Error::InvalidPrefix)
    } else {
        let plen: int = if data[0] < 64 { 1 } else { 2 };
        if data.len() != plen + 34 {
            Err(FromSs58Error::BadLength)
        } else if data.subrange(plen + 32, plen + 34) != ss58_hash(data.subrange(0, plen + 32)).subrange(0, 2) {
            Err(FromSs58Error::InvalidChecksum)
        } else {
            Ok(data.subrange(plen, plen + 32))
        }
    }
}

/// What SS58 text `s` reads as. Text with a byte outside the base58 alphabet
/// is `BadBase58`. Text longer than `MAX_BASE58_TEXT` bytes that starts with
/// '1' is `BadLength`: it stands for more leading zero bytes, or more bytes in
/// all, than an address holds.
pub open spec fn ss58_decode(s: &str) -> Result<Seq<u8>, FromSs58Error> {
    let b = s.spec_bytes();
    if !is_base58_text(b) {
        Err(FromSs58Error::BadBase58)
    } else if b.len() > MAX_BASE58_TEXT && b[0] == BASE58_ZERO {
        Err(FromSs58Error::BadLength)
    } else {
        match base58_decoded(s@) {
            None => Err(FromSs58Error::BadBase58),
            Some(data) => ss58_key_of(data),
        }
    }
}

/// Whether every byte of `b` is a base58 digit.
pub fn base58_text(b: &[u8]) -> (r: bool)
    ensures
        r == is_base58_text(b@),
{
    let mut i: usize = 0;
    while i < b.len()
        invariant
            0 <= i <= b@.len(),
            forall|j: int| 0 <= j < i ==> is_base58_byte(#[trigger] b@[j]),
        decreases b@.len() - i,
    {
        let c = b[i];
        if !((49 <= c && c <= 57) || (65 <= c && c <= 72) || (74 <= c && c <= 78) || (80 <= c && c
            <= 90) || (97 <= c && c <= 107) || (109 <= c && c <= 122)) {
            return false;
        }
        i = i + 1;
    }
    true
}

/// The encoding of address type `ident`.
pub fn ss58_prefix_bytes(ident: u16) -> (r: Vec<u8>)
    ensures
        r@ == prefix_bytes(ident),
{
    let id: u16 = ident & 0x3fff;
    let mut v: Vec<u8> = Vec::new();
    if id < 64 {
        v.push(id as u8);
    } else {
        let first: u8 = (((id & 0xfc) as u8) >> 2u8) | 0x40u8;
        let second: u8 = ((id >> 8u16) as u8) | (((id & 3) as u8) << 6u8);
        v.push(first);
        v.push(second);
    }
    assert(v@ =~= prefix_bytes(ident));
    v
}

fn ss58hash(data: &[u8]) -> (r: Vec<u8>)
    ensures
        r@ == ss58_hash(data@),
        r@.len() == 64,
{
    let mut input: Vec<u8> = vec![83u8, 83u8, 53u8, 56u8, 80u8, 82u8, 69u8];
    let mut i: usize = 0;
    while i < data.len()
        invariant
            0 <= i <= data@.len(),
            input@ == ss58_context() + data@.subrange(0, i as int),
        decreases data@.len() - i,
    {
        input.push(data[i]);
        i = i + 1;
        assert(input@ =~= ss58_context() + data@.subrange(0, i as int));
    }
    assert(data@.subrange(0, data@.len() as int) =~= data@);
    blake2b512(input.as_slice())
}

/// A 32-byte account identifier.
#[derive(Clone, Copy, Debug, PartialEq, Eq, Hash, PartialOrd, Ord, Default)]
pub struct AccountId32(pub [u8; 32]);

impl View for AccountId32 {
    type V = Seq<u8>;

    open spec fn view(&self) -> Seq<u8> {
        self.0@
    }
}

impl AccountId32 {
    pub fn new(value: [u8; 32]) -> (r: AccountId32)
        ensures
            r@ == value@,
    {
        AccountId32(value)
    }

    /// The SS58 address of this key, with address type `SS58_PREFIX`.
    pub fn to_ss58check(&self) -> (r: String)
        ensures
            r@ == base58_of(ss58_bytes(SS58_PREFIX, self@)),
            ss58_hash(prefix_bytes(SS58_PREFIX) + self@).len() == 64,
    {
        let mut v = ss58_prefix_bytes(SS58_PREFIX);
        let ghost pre = v@;
        let mut i: usize = 0;
        while i < 32
            invariant
                0 <= i <= 32,
                pre == prefix_bytes(SS58_PREFIX),
                v@ == pre + self@.subrange(0, i as int),
            decreases 32 - i,
        {
            v.push(self.0[i]);
            i = i + 1;
            assert(v@ =~= pre + self@.subrange(0, i as int));
        }
        assert(self@.subrange(0, 32) =~= self@);
        let r = ss58hash(v.as_slice());
        let ghost payload = v@;
        v.push(r[0]);
        v.push(r[1]);
        assert(v@ =~= payload + ss58_hash(payload).subrange(0, 2));
        to_base58(v.as_slice())
    }

    /// Reads the key out of decoded address bytes.
    pub fn from_ss58_bytes(data: &[u8]) -> (r: Result<AccountId32, FromSs58Error>)
        ensures
            match r {
                Ok(a) => ss58_key_of(data@) == Ok::<Seq<u8>, FromSs58Error>(a@),
                Err(e) => ss58_key_of(data@) == Err::<Seq<u8>, FromSs58Error>(e),
            },
    {
        if data.len() < 2 {
            return Err(FromSs58Error::BadLength);
        }
        let prefix_len: usize = if data[0] < 64 {
            1
        } else if data[0] < 128 {
            2
        } else {
            return Err(FromSs58Error::InvalidPrefix);
        };
        if data.len() != prefix_len + 34 {
            return Err(FromSs58Error::BadLength);
        }
        let body: Vec<u8> = slice_to_vec(data, prefix_len + 32);
        let hash = ss58hash(body.as_slice());
        if data[prefix_len + 32] != hash[0] || data[prefix_len + 33] != hash[1] {
            proof {
                let c = data@.subrange(prefix_len + 32, prefix_len + 34);
                let h = ss58_hash(data@.subrange(0, prefix_len + 32)).subrange(0, 2);
                assert(c[0] != h[0] || c[1] != h[1]);
            }
            return Err(FromSs58Error::InvalidChecksum);
        }
        proof {
            assert(data@.subrange(prefix_len + 32, prefix_len + 34) =~= ss58_hash(
                data@.subrange(0, prefix_len + 32),
            ).subrange(0, 2));
        }
        let mut key: [u8; 32] = [0u8; 32];
        let mut i: usize = 0;
        while i < 32
            invariant
                0 <= i <= 32,
                data@.len() == prefix_len + 34,
                prefix_len <= 2,
                key@.len() == 32,
                forall|j: int| 0 <= j < i ==> key@[j] == data@[prefix_len + j],
            decreases 32 - i,
        {
            key[i] = data[prefix_len + i];
            i = i + 1;
        }
        assert(key@ =~= data@.subrange(prefix_len as int, prefix_len + 32));
        Ok(AccountId32(key))
    }

    /// Reads an SS58 address.
    pub fn from_ss58check(s: &str) -> (r: Result<AccountId32, FromSs58Error>)
        ensures
            match r {
                Ok(a) => ss58_decode(s) == Ok::<Seq<u8>, FromSs58Error>(a@),
                Err(e) => ss58_decode(s) == Err::<Seq<u8>, FromSs58Error>(e),
            },
    {
        let b = s.as_bytes();
        if !base58_text(b) {
            return Err(FromSs58Error::BadBase58);
        }
        if b.len() > MAX_BASE58_TEXT && b[0] == BASE58_ZERO {
            return Err(FromSs58Error::BadLength);
        }
        match from_base58(s) {
            Ok(data) => AccountId32::from_ss58_bytes(data.as_slice()),
            Err(_) => Err(FromSs58Error::BadBase58),
        }
    }
}

impl std::str::FromStr for AccountId32 {
    type Err = FromSs58Error;

    fn from_str(s: &str) -> (r: Result<AccountId32, FromSs58Error>)
        ensures
            match r {
                Ok(a) => ss58_decode(s) == Ok::<Seq<u8>, FromSs58Error>(a@),
                Err(e) => ss58_decode(s) == Err::<Seq<u8>, FromSs58Error>(e),
            },
    {
        AccountId32::from_ss58check(s)
    }
}

impl From<[u8; 32]> for AccountId32 {
    fn from(x: [u8; 32]) -> AccountId32 {
        AccountId32(x)
    }
}

impl vstd::std_specs::convert::FromSpecImpl<[u8; 32]> for AccountId32 {
    open spec fn obeys_from_spec() -> bool {
        true
    }

    open spec fn from_spec(x: [u8; 32]) -> AccountId32 {
        AccountId32(x)
    }
}

fn slice_to_vec(data: &[u8], n: usize) -> (r: Vec<u8>)
    requires
        n <= data@.len(),
    ensures
        r@ == data@.subrange(0, n as int),
{
    let mut v: Vec<u8> = Vec::new();
    let mut i: usize = 0;
    while i < n
        invariant
            0 <= i <= n,
            n <= data@.len(),
            v@ == data@.subrange(0, i as int),
        decreases n - i,
    {
        v.push(data[i]);
        i = i + 1;
        assert(v@ =~= data@.subrange(0, i as int));
    }
    v
}

} // verus!
