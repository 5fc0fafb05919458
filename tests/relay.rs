use std::cell::RefCell;

use btc_relay::driver::{DriverAction, OutcomeDecision, RelayDriver, RelayState};
use btc_relay::hash::{block_key, decode_hex_le, recorded_as_stored};
use btc_relay::submission::{SubmitAction, SubmitPhase, SubmitSession};
use btc_relay::{Error, H256Le, Issuing, MemoryRelay, RandomDelay, RawBlockHeader};

const GENESIS_HEADER: &str = "0100000000000000000000000000000000000000000000000000000000000000000000003ba3edfd7a7b12b27ac72c3e67768f617fc81bc3888a51323a9fb8aa4b1e5e4a29ab5f49ffff001d1dac2b7c";
const GENESIS_HASH_BE: &str = "000000000019d6689c085ae165831e934ff763ae46a2a6c172b3f1b60a8ce26f";

struct NoDelay;

impl RandomDelay for NoDelay {
    fn waited(&self, _seed: vstd::seq::Seq<u8>, r: Result<(), Error>) -> bool {
        r.is_ok()
    }

    fn delay(&self, _seed: &[u8; 32]) -> Result<(), Error> {
        Ok(())
    }
}

struct CancelledDelay;

impl RandomDelay for CancelledDelay {
    fn waited(&self, _seed: vstd::seq::Seq<u8>, r: Result<(), Error>) -> bool {
        r == Err(Error::Cancelled)
    }

    fn delay(&self, _seed: &[u8; 32]) -> Result<(), Error> {
        Err(Error::Cancelled)
    }
}

/// Records each seed it is handed.
struct RecordingDelay {
    seeds: RefCell<Vec<[u8; 32]>>,
}

impl RandomDelay for RecordingDelay {
    fn waited(&self, _seed: vstd::seq::Seq<u8>, r: Result<(), Error>) -> bool {
        r.is_ok()
    }

    fn delay(&self, seed: &[u8; 32]) -> Result<(), Error> {
        self.seeds.borrow_mut().push(*seed);
        Ok(())
    }
}

fn header(n: u32) -> Vec<u8> {
    let mut h = vec![0u8; 80];
    h[0] = 1;
    h[76..80].copy_from_slice(&n.to_le_bytes());
    h[68..72].copy_from_slice(&(n.wrapping_mul(2654435761)).to_le_bytes());
    h
}

fn hash_le(b: &[u8]) -> Vec<u8> {
    RawBlockHeader::new(b.to_vec()).hash().to_bytes_le().to_vec()
}

fn initialized_relay(height: u32) -> MemoryRelay {
    let mut relay = MemoryRelay::new();
    relay.initialize(header(0), height).unwrap();
    relay
}

#[test]
fn genesis_header_hash() {
    let h = RawBlockHeader::new(hex::decode(GENESIS_HEADER).unwrap());
    assert!(h.is_valid());
    assert_eq!(h.hash().to_hex_be(), GENESIS_HASH_BE);
    let mut le = hex::decode(GENESIS_HASH_BE).unwrap();
    le.reverse();
    assert_eq!(h.hash().to_hex_le(), hex::encode(&le));
}

#[test]
fn hash_endianness_conversions() {
    let mut be = [0u8; 32];
    for (i, b) in be.iter_mut().enumerate() {
        *b = i as u8;
    }
    let h = H256Le::from_bytes_be(&be);
    let mut le = be;
    le.reverse();
    assert_eq!(h.to_bytes_le(), le);
    assert_eq!(h.to_bytes_be(), be);
    assert_eq!(H256Le::from_bytes_le(&le).to_bytes_be(), be);
    assert!(H256Le::zero().is_zero());
    assert!(!h.is_zero());
    assert_eq!(decode_hex_le(&h).unwrap(), le.to_vec());
}

#[test]
fn delay_seed_is_sha256_of_header() {
    let h = RawBlockHeader::new(hex::decode(GENESIS_HEADER).unwrap());
    assert_eq!(
        hex::encode(h.delay_seed()),
        hex::encode(bitcoin::hashes::Hash::to_byte_array(
            <bitcoin::hashes::sha256::Hash as bitcoin::hashes::Hash>::hash(&h.0)
        ))
    );
    assert_ne!(h.delay_seed(), h.hash().to_bytes_le());
}

#[test]
fn same_header_gives_same_seed() {
    let mut a = initialized_relay(10);
    let mut b = initialized_relay(10);
    let da = RecordingDelay { seeds: RefCell::new(vec![]) };
    let db = RecordingDelay { seeds: RefCell::new(vec![]) };
    a.submit_block_header(header(7), &da).unwrap();
    b.submit_block_header(header(7), &db).unwrap();
    b.submit_block_header(header(8), &db).unwrap();
    let sa = da.seeds.borrow();
    let sb = db.seeds.borrow();
    assert_eq!(sa[0], sb[0]);
    assert_ne!(sb[0], sb[1]);
    assert_eq!(sa[0], RawBlockHeader::new(header(7)).delay_seed());
}

#[test]
fn is_initialized_follows_best_hash() {
    let mut relay = MemoryRelay::new();
    assert_eq!(relay.is_initialized(), Ok(false));
    assert_eq!(relay.get_best_height(), Ok(0));
    relay.initialize(header(0), 100).unwrap();
    assert_eq!(relay.is_initialized(), Ok(true));
    assert_eq!(relay.get_best_height(), Ok(100));
}

#[test]
fn initialize_twice_is_rejected() {
    let mut relay = initialized_relay(5);
    assert_eq!(relay.initialize(header(1), 6), Err(Error::RemoteRejected));
    assert_eq!(relay.get_best_height(), Ok(5));
}

#[test]
fn malformed_header_is_rejected() {
    let mut relay = MemoryRelay::new();
    assert_eq!(relay.initialize(vec![1u8; 79], 0), Err(Error::RemoteRejected));
    let mut relay = initialized_relay(5);
    assert_eq!(
        relay.submit_block_header(vec![1u8; 81], &NoDelay),
        Err(Error::RemoteRejected)
    );
    assert_eq!(relay.writes(), 1);
}

#[test]
fn submit_before_initialize_is_rejected() {
    let mut relay = MemoryRelay::new();
    assert_eq!(relay.submit_block_header(header(1), &NoDelay), Err(Error::RemoteRejected));
    assert_eq!(relay.submit_block_header_batch(vec![header(1)]), Err(Error::RemoteRejected));
    assert_eq!(relay.writes(), 0);
}

#[test]
fn second_submission_issues_no_write() {
    let mut relay = initialized_relay(10);
    assert_eq!(relay.writes(), 1);
    relay.submit_block_header(header(1), &NoDelay).unwrap();
    assert_eq!(relay.writes(), 2);
    assert_eq!(relay.get_best_height(), Ok(11));
    relay.submit_block_header(header(1), &NoDelay).unwrap();
    assert_eq!(relay.writes(), 2);
    assert_eq!(relay.get_best_height(), Ok(11));
}

#[test]
fn batch_advances_height_by_its_length() {
    let mut relay = initialized_relay(99);
    let batch: Vec<Vec<u8>> = (100..=150).map(header).collect();
    relay.submit_block_header_batch(batch).unwrap();
    assert_eq!(relay.get_best_height(), Ok(150));
    assert_eq!(relay.writes(), 2);
    assert_eq!(relay.get_block_hash(120), Ok(hash_le(&header(120))));
}

#[test]
fn empty_batch_keeps_height() {
    let mut relay = initialized_relay(3);
    relay.submit_block_header_batch(vec![]).unwrap();
    assert_eq!(relay.get_best_height(), Ok(3));
}

#[test]
fn batch_with_bad_header_changes_nothing() {
    let mut relay = initialized_relay(3);
    let batch = vec![header(4), vec![0u8; 10], header(5)];
    assert_eq!(relay.submit_block_header_batch(batch), Err(Error::RemoteRejected));
    assert_eq!(relay.get_best_height(), Ok(3));
    assert_eq!(relay.writes(), 1);
}

#[test]
fn height_at_the_largest_value() {
    let mut relay = initialized_relay(u32::MAX - 1);
    relay.submit_block_header(header(1), &NoDelay).unwrap();
    assert_eq!(relay.get_best_height(), Ok(u32::MAX));
    assert_eq!(relay.submit_block_header(header(2), &NoDelay), Err(Error::RemoteRejected));
    let mut relay = initialized_relay(u32::MAX - 2);
    let batch = vec![header(1), header(2), header(3)];
    assert_eq!(relay.submit_block_header_batch(batch), Err(Error::RemoteRejected));
    assert_eq!(relay.get_best_height(), Ok(u32::MAX - 2));
}

#[test]
fn block_hash_round_trip() {
    let mut relay = initialized_relay(41);
    relay.submit_block_header(header(42), &NoDelay).unwrap();
    assert_eq!(relay.get_best_height(), Ok(42));
    assert_eq!(relay.get_block_hash(42), Ok(hash_le(&header(42))));
    assert_eq!(relay.get_block_hash(41), Ok(hash_le(&header(0))));
    assert_eq!(relay.get_block_hash(43), Err(Error::RemoteRejected));
    assert_eq!(relay.get_block_hash(40), Err(Error::RemoteRejected));
}

#[test]
fn is_block_stored_needs_nonzero_height() {
    let relay = initialized_relay(0);
    assert_eq!(relay.is_block_stored(hash_le(&header(0))), Ok(false));
    let relay = initialized_relay(1);
    assert_eq!(relay.is_block_stored(hash_le(&header(0))), Ok(true));
    assert_eq!(relay.is_block_stored(hash_le(&header(9))), Ok(false));
    assert_eq!(relay.is_block_stored(vec![0u8; 31]), Err(Error::DecodeFailure));
}

#[test]
fn racing_relayer_finds_header_stored() {
    // both relayers saw header 11; A's delay ended first and A submitted it
    let mut shared = initialized_relay(10);
    shared.submit_block_header(header(11), &NoDelay).unwrap();
    let writes_after_a = shared.writes();
    // B's delay ends later; its recheck finds the header and it writes nothing
    let b_delay = RecordingDelay { seeds: RefCell::new(vec![]) };
    assert_eq!(shared.submit_block_header(header(11), &b_delay), Ok(()));
    assert_eq!(shared.writes(), writes_after_a);
    assert_eq!(shared.get_best_height(), Ok(11));
    assert_eq!(b_delay.seeds.borrow().len(), 1);
}

#[test]
fn cancelled_delay_abandons_submission() {
    let mut relay = initialized_relay(10);
    assert_eq!(
        relay.submit_block_header(header(11), &CancelledDelay),
        Err(Error::Cancelled)
    );
    assert_eq!(relay.writes(), 1);
    assert_eq!(relay.get_best_height(), Ok(10));
    let mut driver = RelayDriver::new(6);
    assert_eq!(driver.plan(true, 10, 11), DriverAction::SubmitSingle { height: 11 });
    assert_eq!(driver.on_outcome(Err(Error::Cancelled)), OutcomeDecision::Exit);
    assert_eq!(driver.state(), RelayState::Stopped);
    assert_eq!(driver.plan(true, 10, 11), DriverAction::Exit);
}

#[test]
fn driver_catches_up_then_tracks_tip() {
    let mut driver = RelayDriver::new(6);
    assert_eq!(driver.plan(false, 0, 150), DriverAction::Initialize);
    assert_eq!(driver.state(), RelayState::Uninitialized);
    assert_eq!(driver.plan(true, 99, 150), DriverAction::SubmitBatch { from: 100, to: 150 });
    assert_eq!(driver.state(), RelayState::CatchingUp);
    assert_eq!(driver.on_outcome(Ok(())), OutcomeDecision::Continue);
    assert_eq!(driver.plan(true, 150, 150), DriverAction::Idle);
    assert_eq!(driver.state(), RelayState::TrackingTip);
    assert_eq!(driver.plan(true, 150, 151), DriverAction::SubmitSingle { height: 151 });
    // a large gap does not send it back by itself
    assert_eq!(driver.plan(true, 150, 400), DriverAction::SubmitSingle { height: 151 });
    assert_eq!(driver.state(), RelayState::TrackingTip);
    driver.enter_catching_up();
    assert_eq!(driver.plan(true, 150, 400), DriverAction::SubmitBatch { from: 151, to: 400 });
}

#[test]
fn driver_surfaces_remote_failures() {
    let mut driver = RelayDriver::new(6);
    driver.plan(true, 10, 12);
    assert_eq!(
        driver.on_outcome(Err(Error::RemoteRejected)),
        OutcomeDecision::Surface(Error::RemoteRejected)
    );
    assert_eq!(driver.state(), RelayState::TrackingTip);
    // a gap of exactly the margin is tracked, one above it is batched
    let mut d = RelayDriver::new(6);
    assert_eq!(d.plan(true, 10, 16), DriverAction::SubmitSingle { height: 11 });
    let mut d = RelayDriver::new(6);
    assert_eq!(d.plan(true, 10, 17), DriverAction::SubmitBatch { from: 11, to: 17 });
}

#[test]
fn session_steps() {
    let h = RawBlockHeader::new(header(3));
    let (mut s, seed) = SubmitSession::new(&h);
    assert_eq!(seed, h.delay_seed());
    assert_eq!(s.phase(), SubmitPhase::Waiting);
    match s.after_delay(Ok(())) {
        SubmitAction::CheckStored(x) => assert_eq!(x, h.hash().to_bytes_le()),
        other => panic!("unexpected {:?}", other),
    }
    assert!(matches!(s.after_recheck(Ok(false)), SubmitAction::Store));
    assert!(matches!(
        s.after_store(Err(Error::RemoteRejected)),
        SubmitAction::Done(Err(Error::RemoteRejected))
    ));
    assert_eq!(s.phase(), SubmitPhase::Finished);

    let (mut s, _) = SubmitSession::new(&h);
    assert!(matches!(s.after_delay(Err(Error::Cancelled)), SubmitAction::Done(Err(Error::Cancelled))));
    let (mut s, _) = SubmitSession::new(&h);
    s.after_delay(Ok(()));
    assert!(matches!(s.after_recheck(Ok(true)), SubmitAction::Done(Ok(()))));
    let (mut s, _) = SubmitSession::new(&h);
    s.after_delay(Ok(()));
    assert!(matches!(
        s.after_recheck(Err(Error::RemoteRejected)),
        SubmitAction::Done(Err(Error::RemoteRejected))
    ));
}

#[test]
fn submit_after_delay_outcomes() {
    let mut relay = initialized_relay(10);
    assert_eq!(relay.submit_after_delay(header(11), Err(Error::Cancelled)), Err(Error::Cancelled));
    assert_eq!(relay.writes(), 1);
    assert_eq!(relay.submit_after_delay(header(11), Ok(())), Ok(()));
    assert_eq!(relay.writes(), 2);
    assert_eq!(relay.get_best_height(), Ok(11));
    // the loser of a race: already stored, success with no write
    assert_eq!(relay.submit_after_delay(header(11), Ok(())), Ok(()));
    assert_eq!(relay.writes(), 2);
    assert_eq!(relay.submit_after_delay(vec![7u8; 12], Ok(())), Err(Error::RemoteRejected));
    assert_eq!(relay.writes(), 2);
}

#[test]
fn block_hash_is_a_stored_key() {
    let mut relay = initialized_relay(20);
    relay.submit_block_header(header(21), &NoDelay).unwrap();
    let h = relay.get_block_hash(21).unwrap();
    assert_eq!(h.len(), 32);
    assert_eq!(relay.is_block_stored(h), Ok(true));
}

#[test]
fn block_key_and_recorded_height() {
    assert_eq!(block_key(&[1u8; 31]).unwrap_err(), Error::DecodeFailure);
    assert_eq!(block_key(&[1u8; 32]).unwrap().to_bytes_le(), [1u8; 32]);
    assert!(!recorded_as_stored(0));
    assert!(recorded_as_stored(1));
}
