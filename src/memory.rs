use vstd::prelude::*;
use crate::error::Error;
use crate::hash::{all_zero, block_key, decode_hex_le, H256Le};
use crate::header::{delay_seed_of, is_header, sha256d_of, RawBlockHeader, HEADER_LEN};
use crate::issuing::{Issuing, RandomDelay};
use crate::submission::{SubmitAction, SubmitSession};

verus! {

/// Largest block height the light client can hold.
pub const MAX_HEIGHT: u64 = 0xFFFF_FFFF;

/// What the light client holds: the hashes of its chain, the first of them at
/// height `start`, and the number of write operations it has received.
pub struct RelayView {
    pub start: nat,
    pub chain: Seq<Seq<u8>>,
    pub writes: nat,
}

/// The all-zero hash, reported as the best hash before initialization.
pub open spec fn zero_hash() -> Seq<u8> {
    Seq::new(32, |i: int| 0u8)
}

/// Whether the light client takes `b` as a header: it has a header's length, and
/// its hash is not the all-zero value that marks an uninitialized client.
pub open spec fn accepts_header(b: Seq<u8>) -> bool {
    is_header(b) && !all_zero(sha256d_of(b))
}

/// The hashes of a sequence of headers, in order.
pub open spec fn hashes_of(headers: Seq<Seq<u8>>) -> Seq<Seq<u8>> {
    headers.map_values(|b: Seq<u8>| sha256d_of(b))
}

impl RelayView {
    pub open spec fn initialized(self) -> bool {
        self.chain.len() > 0
    }

    pub open spec fn best_height(self) -> nat {
        if self.initialized() {
            (self.start + self.chain.len() - 1) as nat
        } else {
            0
        }
    }

    pub open spec fn best_hash(self) -> Seq<u8> {
        if self.initialized() {
            self.chain.last()
        } else {
            zero_hash()
        }
    }

    /// Whether the block with hash `h` is stored at a non-zero height.
    pub open spec fn stored(self, h: Seq<u8>) -> bool {
        exists|i: int| 0 <= i < self.chain.len() && self.chain[i] == h && self.start + i > 0
    }

    /// The hash at `height`, if the chain reaches it.
    pub open spec fn block_hash(self, height: nat) -> Option<Seq<u8>> {
        if self.start <= height < self.start + self.chain.len() {
            Some(self.chain[height - self.start])
        } else {
            None
        }
    }

    /// One more write counted, the count saturating at `u64::MAX`.
    pub open spec fn with_write(self) -> RelayView {
        RelayView {
            writes: if self.writes < u64::MAX { self.writes + 1 } else { self.writes },
            ..self
        }
    }

    /// `h` added as the new tip; a hash the chain already holds is a no-op.
    pub open spec fn appended(self, h: Seq<u8>) -> RelayView {
        if self.chain.contains(h) {
            self
        } else {
            RelayView { chain: self.chain.push(h), ..self }
        }
    }

    /// Each of `hs` appended in turn.
    pub open spec fn appended_all(self, hs: Seq<Seq<u8>>) -> RelayView
        decreases hs.len(),
    {
        if hs.len() == 0 {
            self
        } else {
            self.appended_all(hs.drop_last()).appended(hs.last())
        }
    }
}

/// The light client after `initialize(header, height)`, or `None` where it
/// refuses: it is already initialized, or it does not take the header.
pub open spec fn initialize_outcome(v: RelayView, header: Seq<u8>, height: nat) -> Option<RelayView> {
    if !v.initialized() && accepts_header(header) {
        Some(RelayView { start: height, chain: seq![sha256d_of(header)], writes: v.writes }.with_write())
    } else {
        None
    }
}

/// The light client after it receives `header`, or `None` where it refuses:
/// it is not initialized, it does not take the header, or the new tip's
/// height would not fit.
pub open spec fn store_outcome(v: RelayView, header: Seq<u8>) -> Option<RelayView> {
    let next = v.appended(sha256d_of(header));
    if v.initialized() && accepts_header(header) && next.best_height() <= MAX_HEIGHT {
        Some(next.with_write())
    } else {
        None
    }
}

/// The light client after it receives `headers` in one operation, or `None`
/// where it refuses the whole batch.
pub open spec fn batch_outcome(v: RelayView, headers: Seq<Seq<u8>>) -> Option<RelayView> {
    let next = v.appended_all(hashes_of(headers));
    if v.initialized() && (forall|i: int| 0 <= i < headers.len() ==> accepts_header(#[trigger] headers[i]))
        && next.best_height() <= MAX_HEIGHT {
        Some(next.with_write())
    } else {
        None
    }
}

/// The state a successful single-header submission leaves: untouched where the
/// recheck found the header stored, else the state after the write.
pub open spec fn submitted(v: RelayView, header: Seq<u8>, w: RelayView) -> bool {
    if v.stored(sha256d_of(header)) {
        w == v
    } else {
        store_outcome(v, header) == Some(w)
    }
}

/// The result and the light client after a submission whose delay ended with
/// `waited`: a failed delay changes nothing; a stored header succeeds without a
/// write; otherwise the header is written, or refused with nothing changed.
pub open spec fn after_delay_outcome(v: RelayView, header: Seq<u8>, waited: Result<(), Error>) -> (
    Result<(), Error>,
    RelayView,
) {
    match waited {
        Err(e) => (Err(e), v),
        Ok(()) => if v.stored(sha256d_of(header)) {
            (Ok(()), v)
        } else {
            match store_outcome(v, header) {
                Some(w) => (Ok(()), w),
                None => (Err(Error::RemoteRejected), v),
            }
        },
    }
}

proof fn lemma_appended_all_start(v: RelayView, hs: Seq<Seq<u8>>)
    ensures
        v.appended_all(hs).start == v.start,
        v.appended_all(hs).writes == v.writes,
        v.appended_all(hs).chain.len() >= v.chain.len(),
        v.appended_all(hs).chain.subrange(0, v.chain.len() as int) == v.chain,
    decreases hs.len(),
{
    if hs.len() > 0 {
        lemma_appended_all_start(v, hs.drop_last());
        let w = v.appended_all(hs.drop_last());
        if !w.chain.contains(hs.last()) {
            assert(w.chain.push(hs.last()).subrange(0, v.chain.len() as int) =~= w.chain.subrange(
                0,
                v.chain.len() as int,
            ));
        }
    }
}

proof fn lemma_appended_all_prefix(v: RelayView, hs: Seq<Seq<u8>>, k: int)
    requires
        0 <= k <= hs.len(),
    ensures
        v.appended_all(hs).chain.len() >= v.appended_all(hs.subrange(0, k)).chain.len(),
    decreases hs.len() - k,
{
    if k < hs.len() {
        lemma_appended_all_prefix(v, hs, k + 1);
        let t = hs.subrange(0, k + 1);
        assert(t.drop_last() =~= hs.subrange(0, k));
    } else {
        assert(hs.subrange(0, k) =~= hs);
    }
}

/// A header that a successful submission leaves on the light client counts as
/// stored, so a second submission of it whose delay ends normally succeeds and
/// changes nothing, its write count included. The one header this does not
/// hold for is a checkpoint seeded at height zero, which never counts as stored.
pub proof fn lemma_resubmission_writes_nothing(v: RelayView, header: Seq<u8>, w: RelayView)
    requires
        submitted(v, header, w),
        !(v.start == 0 && v.initialized() && v.chain[0] == sha256d_of(header)),
    ensures
        w.stored(sha256d_of(header)),
        after_delay_outcome(w, header, Ok(())) == (Ok::<(), Error>(()), w),
{
    let h = sha256d_of(header);
    if !v.stored(h) {
        if v.chain.contains(h) {
            let i = choose|i: int| 0 <= i < v.chain.len() && v.chain[i] == h;
            assert(v.start + i > 0);
        } else {
            let i = v.chain.len() as int;
            assert(w.chain[i] == h);
            assert(w.start + i > 0);
        }
    }
}

/// `is_initialized` is false exactly on the all-zero best hash, and a
/// successful initialization makes it true.
pub proof fn lemma_initialize_makes_initialized(v: RelayView, header: Seq<u8>, height: nat)
    requires
        initialize_outcome(v, header, height) is Some,
    ensures
        !all_zero(initialize_outcome(v, header, height)->Some_0.best_hash()),
        all_zero(v.best_hash()),
{
    let w = initialize_outcome(v, header, height)->Some_0;
    assert(w.chain.last() == sha256d_of(header));
}

/// A batch of `n` headers that the light client does not yet hold, with
/// distinct hashes, advances the best height by exactly `n`.
pub proof fn lemma_batch_advances_height(v: RelayView, headers: Seq<Seq<u8>>)
    requires
        batch_outcome(v, headers) is Some,
        forall|i: int, j: int|
            0 <= i < j < headers.len() ==> sha256d_of(#[trigger] headers[i]) != sha256d_of(
                #[trigger] headers[j],
            ),
        forall|i: int| 0 <= i < headers.len() ==> !v.chain.contains(sha256d_of(#[trigger] headers[i])),
    ensures
        batch_outcome(v, headers)->Some_0.best_height() == v.best_height() + headers.len(),
{
    let hs = hashes_of(headers);
    assert forall|i: int, j: int| 0 <= i < j < hs.len() implies hs[i] != hs[j] by {
        assert(sha256d_of(headers[i]) != sha256d_of(headers[j]));
    }
    assert forall|i: int| 0 <= i < hs.len() implies !v.chain.contains(#[trigger] hs[i]) by {
        assert(!v.chain.contains(sha256d_of(headers[i])));
    }
    lemma_appended_all_fresh(v, hs);
    lemma_appended_all_start(v, hs);
    assert(hs.len() == headers.len());
}

proof fn lemma_appended_all_fresh(v: RelayView, hs: Seq<Seq<u8>>)
    requires
        forall|i: int, j: int| 0 <= i < j < hs.len() ==> hs[i] != hs[j],
        forall|i: int| 0 <= i < hs.len() ==> !v.chain.contains(#[trigger] hs[i]),
    ensures
        v.appended_all(hs).chain == v.chain + hs,
    decreases hs.len(),
{
    if hs.len() > 0 {
        let p = hs.drop_last();
        lemma_appended_all_fresh(v, p);
        let c = v.chain + p;
        assert(!c.contains(hs.last())) by {
            if c.contains(hs.last()) {
                let k = choose|k: int| 0 <= k < c.len() && c[k] == hs.last();
                if k < v.chain.len() {
                    assert(v.chain.contains(hs[hs.len() - 1]));
                } else {
                    assert(hs[k - v.chain.len()] == hs[hs.len() - 1]);
                }
            }
        }
        assert(c.push(hs.last()) =~= v.chain + hs);
    }
}

/// A header submitted as the new tip at height `k` is what the light client
/// then reports at height `k`.
pub proof fn lemma_block_hash_round_trip(v: RelayView, header: Seq<u8>, w: RelayView)
    requires
        store_outcome(v, header) == Some(w),
        !v.chain.contains(sha256d_of(header)),
    ensures
        w.best_height() == v.best_height() + 1,
        w.block_hash(w.best_height()) == Some(sha256d_of(header)),
{
}

} // verus!

verus! {

/// A light client held in memory, with the behaviour of the remote one: it
/// refuses what the remote chain refuses, treats a known header as a no-op,
/// and counts the write operations it receives.
pub struct MemoryRelay {
    start: u32,
    chain: Vec<H256Le>,
    writes: u64,
}

impl View for MemoryRelay {
    type V = RelayView;

    closed spec fn view(&self) -> RelayView {
        RelayView {
            start: self.start as nat,
            chain: self.chain@.map_values(|h: H256Le| h@),
            writes: self.writes as nat,
        }
    }
}

impl MemoryRelay {
    #[verifier::type_invariant]
    spec fn inv(self) -> bool {
        &&& self.chain.len() > 0 ==> self.start + self.chain.len() - 1 <= MAX_HEIGHT
        &&& forall|i: int| 0 <= i < self.chain.len() ==> !all_zero(#[trigger] self.chain@[i]@)
    }

    /// An uninitialized light client.
    pub fn new() -> (r: MemoryRelay)
        ensures
            r@ == (RelayView { start: 0, chain: Seq::empty(), writes: 0 }),
    {
        let r = MemoryRelay { start: 0, chain: Vec::new(), writes: 0 };
        assert(r@.chain =~= Seq::<Seq<u8>>::empty());
        r
    }

    /// The number of write operations received.
    pub fn writes(&self) -> (r: u64)
        ensures
            r == self@.writes,
    {
        self.writes
    }

    fn count_write(&mut self)
        ensures
            final(self)@ == old(self)@.with_write(),
    {
        proof {
            use_type_invariant(&*self);
        }
        if self.writes < u64::MAX {
            self.writes = self.writes + 1;
        }
        assert(self@.chain =~= old(self)@.chain);
    }

    fn knows(&self, h: &H256Le) -> (r: bool)
        ensures
            r == self@.chain.contains(h@),
    {
        let mut i: usize = 0;
        while i < self.chain.len()
            invariant
                0 <= i <= self.chain.len(),
                forall|j: int| 0 <= j < i ==> self@.chain[j] != h@,
            decreases self.chain.len() - i,
        {
            if self.chain[i].same_as(h) {
                assert(self@.chain[i as int] == h@);
                return true;
            }
            i = i + 1;
        }
        false
    }

    fn stored_at_nonzero(&self, h: &H256Le) -> (r: bool)
        ensures
            r == self@.stored(h@),
    {
        let mut i: usize = 0;
        while i < self.chain.len()
            invariant
                0 <= i <= self.chain.len(),
                forall|j: int| 0 <= j < i ==> !(self@.chain[j] == h@ && self@.start + j > 0),
            decreases self.chain.len() - i,
        {
            if self.chain[i].same_as(h) && (self.start > 0 || i > 0) {
                assert(self@.chain[i as int] == h@);
                return true;
            }
            i = i + 1;
        }
        false
    }

    fn push_hash(&mut self, h: H256Le)
        requires
            !all_zero(h@),
            old(self).start + old(self).chain.len() <= MAX_HEIGHT,
        ensures
            final(self)@ == (RelayView { chain: old(self)@.chain.push(h@), ..old(self)@ }),
    {
        proof {
            use_type_invariant(&*self);
        }
        let mut c: Vec<H256Le> = Vec::new();
        std::mem::swap(&mut self.chain, &mut c);
        c.push(h);
        std::mem::swap(&mut self.chain, &mut c);
        assert(self@.chain =~= old(self)@.chain.push(h@));
    }

    /// The part of a submission after its delay, which ended with `waited`:
    /// recheck whether the header is stored, and write it only if not.
    pub fn submit_after_delay(&mut self, header: Vec<u8>, waited: Result<(), Error>) -> (r: Result<
        (),
        Error,
    >)
        ensures
            (r, final(self)@) == after_delay_outcome(old(self)@, header@, waited),
    {
        let hdr = RawBlockHeader(header);
        let (mut session, _seed) = SubmitSession::new(&hdr);
        let hash_le = match session.after_delay(waited) {
            SubmitAction::CheckStored(h) => h,
            SubmitAction::Done(out) => return out,
            SubmitAction::Store => return Err(Error::RemoteRejected),
        };
        let stored = self.stored_at_nonzero(&H256Le { content: hash_le });
        match session.after_recheck(Ok(stored)) {
            SubmitAction::Store => {},
            SubmitAction::Done(out) => return out,
            SubmitAction::CheckStored(_) => return Err(Error::RemoteRejected),
        }
        let outcome = self.store_one(hdr.0.as_slice());
        match session.after_store(outcome) {
            SubmitAction::Done(out) => out,
            _ => Err(Error::RemoteRejected),
        }
    }

    /// The remote write of one header.
    fn store_one(&mut self, b: &[u8]) -> (r: Result<(), Error>)
        ensures
            match store_outcome(old(self)@, b@) {
                Some(w) => r == Ok::<(), Error>(()) && final(self)@ == w,
                None => r == Err::<(), Error>(Error::RemoteRejected) && final(self)@ == old(self)@,
            },
    {
        proof {
            use_type_invariant(&*self);
        }
        if self.chain.len() == 0 || b.len() != HEADER_LEN {
            return Err(Error::RemoteRejected);
        }
        let h = crate::header::hash_of_bytes(b);
        if h.is_zero() {
            return Err(Error::RemoteRejected);
        }
        if !self.knows(&h) {
            if (self.start as u64) + (self.chain.len() as u64) > MAX_HEIGHT {
                return Err(Error::RemoteRejected);
            }
            self.push_hash(h);
        }
        self.count_write();
        Ok(())
    }
}

impl Issuing for MemoryRelay {
    fn is_initialized(&self) -> (r: Result<bool, Error>)
        ensures
            r == Ok::<bool, Error>(!all_zero(self@.best_hash())),
            r == Ok::<bool, Error>(self@.initialized()),
    {
        proof {
            use_type_invariant(self);
        }
        if self.chain.len() == 0 {
            let z = H256Le::zero();
            assert(z@ =~= zero_hash());
            return Ok(!z.is_zero());
        }
        let best = self.chain[self.chain.len() - 1];
        assert(best@ == self@.chain.last());
        Ok(!best.is_zero())
    }

    fn initialize(&mut self, header: Vec<u8>, height: u32) -> (r: Result<(), Error>)
        ensures
            match initialize_outcome(old(self)@, header@, height as nat) {
                Some(w) => r == Ok::<(), Error>(()) && final(self)@ == w,
                None => r == Err::<(), Error>(Error::RemoteRejected) && final(self)@ == old(self)@,
            },
    {
        proof {
            use_type_invariant(&*self);
        }
        if self.chain.len() != 0 || header.len() != HEADER_LEN {
            return Err(Error::RemoteRejected);
        }
        let h = crate::header::hash_of_bytes(header.as_slice());
        if h.is_zero() {
            return Err(Error::RemoteRejected);
        }
        self.start = height;
        self.push_hash(h);
        self.count_write();
        assert(self@.chain =~= seq![sha256d_of(header@)]);
        Ok(())
    }

    fn submit_block_header<D: RandomDelay>(&mut self, header: Vec<u8>, random_delay: &D) -> (r:
        Result<(), Error>)
        ensures
            exists|waited: Result<(), Error>|
                random_delay.waited(delay_seed_of(header@), waited) && after_delay_outcome(
                    old(self)@,
                    header@,
                    waited,
                ) == (r, final(self)@),
            r is Ok ==> submitted(old(self)@, header@, final(self)@),
            r is Err ==> final(self)@ == old(self)@,
            old(self)@.stored(sha256d_of(header@)) ==> final(self)@ == old(self)@,
            !old(self)@.stored(sha256d_of(header@)) && store_outcome(old(self)@, header@) is None
                ==> r is Err,
    {
        let hdr = RawBlockHeader(header);
        let seed = hdr.delay_seed();
        let waited = random_delay.delay(&seed);
        let r = self.submit_after_delay(hdr.0, waited);
        proof {
            assert(after_delay_outcome(old(self)@, header@, waited) == (r, self@));
        }
        r
    }

    fn submit_block_header_batch(&mut self, headers: Vec<Vec<u8>>) -> (r: Result<(), Error>)
        ensures
            match batch_outcome(old(self)@, headers@.map_values(|b: Vec<u8>| b@)) {
                Some(w) => r == Ok::<(), Error>(()) && final(self)@ == w,
                None => r == Err::<(), Error>(Error::RemoteRejected) && final(self)@ == old(self)@,
            },
    {
        proof {
            use_type_invariant(&*self);
        }
        let ghost hv = headers@.map_values(|b: Vec<u8>| b@);
        let ghost hs = hashes_of(hv);
        let ghost v0 = self@;
        if self.chain.len() == 0 {
            return Err(Error::RemoteRejected);
        }
        let mut hashes: Vec<H256Le> = Vec::new();
        let mut i: usize = 0;
        while i < headers.len()
            invariant
                0 <= i <= headers.len(),
                hv == headers@.map_values(|b: Vec<u8>| b@),
                hs == hashes_of(hv),
                hashes@.len() == i,
                forall|j: int| 0 <= j < i ==> (#[trigger] hashes@[j])@ == hs[j],
                forall|j: int| 0 <= j < i ==> accepts_header(#[trigger] hv[j]),
            decreases headers.len() - i,
        {
            if headers[i].len() != HEADER_LEN {
                assert(!accepts_header(hv[i as int]));
                return Err(Error::RemoteRejected);
            }
            let h = crate::header::hash_of_bytes(headers[i].as_slice());
            if h.is_zero() {
                assert(!accepts_header(hv[i as int]));
                return Err(Error::RemoteRejected);
            }
            hashes.push(h);
            i = i + 1;
        }
        let old_len = self.chain.len();
        let mut k: usize = 0;
        while k < hashes.len()
            invariant
                0 <= k <= hashes.len(),
                hashes@.len() == hs.len(),
                forall|j: int| 0 <= j < hashes@.len() ==> (#[trigger] hashes@[j])@ == hs[j],
                forall|j: int| 0 <= j < hv.len() ==> accepts_header(#[trigger] hv[j]),
                hs == hashes_of(hv),
                hv == headers@.map_values(|b: Vec<u8>| b@),
                v0 == old(self)@,
                v0.initialized(),
                old_len == v0.chain.len(),
                self@ == v0.appended_all(hs.subrange(0, k as int)),
            decreases hashes.len() - k,
        {
            proof {
                use_type_invariant(&*self);
                let t = hs.subrange(0, k as int + 1);
                assert(t.drop_last() =~= hs.subrange(0, k as int));
                lemma_appended_all_start(v0, hs.subrange(0, k as int));
            }
            let h = hashes[k];
            if !self.knows(&h) {
                if (self.start as u64) + (self.chain.len() as u64) > MAX_HEIGHT {
                    proof {
                        lemma_appended_all_prefix(v0, hs, k as int + 1);
                        lemma_appended_all_start(v0, hs);
                        let t = hs.subrange(0, k as int + 1);
                        assert(t.last() == hs[k as int]);
                        assert(hashes@[k as int]@ == hs[k as int]);
                        assert(v0.appended_all(t).chain.len() == self@.chain.len() + 1);
                        assert(v0.appended_all(hs).best_height() > MAX_HEIGHT);
                        assert(batch_outcome(v0, hv) is None);
                    }
                    let mut c: Vec<H256Le> = Vec::new();
                    std::mem::swap(&mut self.chain, &mut c);
                    c.truncate(old_len);
                    std::mem::swap(&mut self.chain, &mut c);
                    proof {
                        assert(self@.chain =~= v0.chain);
                        assert(self@ == v0);
                    }
                    return Err(Error::RemoteRejected);
                }
                proof {
                    assert(!all_zero(hs[k as int]));
                }
                self.push_hash(h);
            }
            k = k + 1;
        }
        proof {
            use_type_invariant(&*self);
            assert(hs.subrange(0, hs.len() as int) =~= hs);
        }
        self.count_write();
        Ok(())
    }

    fn get_best_height(&self) -> (r: Result<u32, Error>)
        ensures
            r is Ok && r->Ok_0 == self@.best_height(),
    {
        proof {
            use_type_invariant(self);
        }
        if self.chain.len() == 0 {
            return Ok(0);
        }
        Ok((self.start as u64 + self.chain.len() as u64 - 1) as u32)
    }

    fn get_block_hash(&self, height: u32) -> (r: Result<Vec<u8>, Error>)
        ensures
            r is Ok ==> r->Ok_0@.len() == 32,
            match self@.block_hash(height as nat) {
                Some(h) => r is Ok && r->Ok_0@ == h,
                None => r == Err::<Vec<u8>, Error>(Error::RemoteRejected),
            },
    {
        proof {
            use_type_invariant(self);
        }
        if height < self.start || (height - self.start) as usize >= self.chain.len() {
            return Err(Error::RemoteRejected);
        }
        let h = self.chain[(height - self.start) as usize];
        decode_hex_le(&h)
    }

    fn is_block_stored(&self, hash_le: Vec<u8>) -> (r: Result<bool, Error>)
        ensures
            hash_le@.len() == 32 ==> r == Ok::<bool, Error>(self@.stored(hash_le@)),
            hash_le@.len() != 32 ==> r == Err::<bool, Error>(Error::DecodeFailure),
    {
        let h = block_key(hash_le.as_slice())?;
        Ok(self.stored_at_nonzero(&h))
    }
}

} // verus!
