use rust_chrdev::buffer::{IoError, UserBuffer};
use rust_chrdev::driver::{AllocationError, DeviceDriver};
use rust_chrdev::payload::{PAYLOAD, PAYLOAD_LEN};
use rust_chrdev::registry::{NodeRegistry, RegistrationError};
use rust_chrdev::session::SessionState;
use rust_chrdev::shared::SharedState;

fn open(shared: &mut SharedState) -> SessionState {
    let r: Result<SessionState, AllocationError> = DeviceDriver::open(shared);
    r.expect("open succeeds")
}

#[test]
fn payload_is_crab_greeting_with_nul() {
    let expected = "\u{1F980} Hello from rust\n\0".as_bytes();
    assert_eq!(&PAYLOAD[..], expected);
    assert_eq!(PAYLOAD_LEN, 22);
    assert_eq!(PAYLOAD.len(), PAYLOAD_LEN);
    assert_eq!(PAYLOAD[PAYLOAD_LEN - 1], 0);
}

#[test]
fn first_adequate_read_delivers_payload_then_nothing() {
    let mut shared = SharedState::new();
    let mut s = open(&mut shared);
    let mut buf = UserBuffer::new(100);
    assert_eq!(DeviceDriver::read(&mut s, &mut buf, 0), Ok(PAYLOAD_LEN));
    assert_eq!(buf.contents_slice(), &PAYLOAD[..]);
    assert_eq!(buf.len(), 100 - PAYLOAD_LEN);
    assert!(s.is_drained());
    for cap in [0usize, 1, 10, PAYLOAD_LEN, 4096] {
        let mut again = UserBuffer::new(cap);
        assert_eq!(DeviceDriver::read(&mut s, &mut again, 0), Ok(0));
        assert!(again.contents_slice().is_empty());
        assert_eq!(again.len(), cap);
    }
    assert_eq!(s.read_cursor(), PAYLOAD_LEN);
}

#[test]
fn small_buffer_leaves_session_fresh_and_retry_succeeds() {
    let mut shared = SharedState::new();
    let mut s = open(&mut shared);
    let mut small = UserBuffer::new(PAYLOAD_LEN - 1);
    assert_eq!(DeviceDriver::read(&mut s, &mut small, 0), Ok(0));
    assert!(small.contents_slice().is_empty());
    assert_eq!(s.read_cursor(), 0);
    assert!(!s.is_drained());
    let mut big = UserBuffer::new(PAYLOAD_LEN);
    assert_eq!(DeviceDriver::read(&mut s, &mut big, 0), Ok(PAYLOAD_LEN));
    assert_eq!(big.contents_slice(), &PAYLOAD[..]);
    assert_eq!(big.len(), 0);
}

#[test]
fn two_sessions_are_isolated() {
    let mut shared = SharedState::new();
    let mut a = open(&mut shared);
    let mut b = open(&mut shared);
    let mut ba = UserBuffer::new(64);
    assert_eq!(DeviceDriver::read(&mut a, &mut ba, 0), Ok(PAYLOAD_LEN));
    assert_eq!(b.read_cursor(), 0);
    let mut ba2 = UserBuffer::new(64);
    assert_eq!(DeviceDriver::read(&mut a, &mut ba2, 0), Ok(0));
    let mut bb = UserBuffer::new(64);
    assert_eq!(DeviceDriver::read(&mut b, &mut bb, 0), Ok(PAYLOAD_LEN));
    assert_eq!(ba.contents_slice(), &PAYLOAD[..]);
    assert_eq!(bb.contents_slice(), &PAYLOAD[..]);
    assert_eq!(shared.open_count(), 2);
}

#[test]
fn two_sessions_isolated_other_order() {
    let mut shared = SharedState::new();
    let mut a = open(&mut shared);
    let mut b = open(&mut shared);
    let mut bb = UserBuffer::new(PAYLOAD_LEN);
    assert_eq!(DeviceDriver::read(&mut b, &mut bb, 0), Ok(PAYLOAD_LEN));
    let mut small = UserBuffer::new(3);
    assert_eq!(DeviceDriver::read(&mut a, &mut small, 0), Ok(0));
    let mut ba = UserBuffer::new(PAYLOAD_LEN);
    assert_eq!(DeviceDriver::read(&mut a, &mut ba, 0), Ok(PAYLOAD_LEN));
    assert_eq!(ba.contents_slice(), bb.contents_slice());
}

#[test]
fn read_scenario_with_payload_length() {
    let mut shared = SharedState::new();
    let mut a = open(&mut shared);
    let mut b10 = UserBuffer::new(10);
    assert_eq!(DeviceDriver::read(&mut a, &mut b10, 0), Ok(0));
    assert_eq!(a.read_cursor(), 0);
    // one byte short of the message
    let mut b21 = UserBuffer::new(21);
    assert_eq!(DeviceDriver::read(&mut a, &mut b21, 0), Ok(0));
    assert_eq!(a.read_cursor(), 0);
    let mut full = UserBuffer::new(PAYLOAD_LEN);
    assert_eq!(DeviceDriver::read(&mut a, &mut full, 0), Ok(PAYLOAD_LEN));
    assert_eq!(full.contents_slice(), &PAYLOAD[..]);
    assert_eq!(a.read_cursor(), PAYLOAD_LEN);
    let mut again = UserBuffer::new(PAYLOAD_LEN);
    assert_eq!(DeviceDriver::read(&mut a, &mut again, 0), Ok(0));
}

#[test]
fn three_opens_count_one_two_three() {
    let mut shared = SharedState::new();
    let mut seen = vec![shared.increment_and_get(), shared.increment_and_get(), shared.increment_and_get()];
    seen.sort();
    assert_eq!(seen, vec![1, 2, 3]);
    assert_eq!(shared.open_count(), 3);
}

#[test]
fn opens_on_a_driver_are_counted() {
    let mut registry = NodeRegistry::new(4);
    let mut d = DeviceDriver::initialize(&mut registry, b"rust_mydev").expect("registers");
    assert_eq!(d.open_count(), 0);
    for k in 1..=3u64 {
        let s = d.open_session().expect("open succeeds");
        assert_eq!(s.read_cursor(), 0);
        assert_eq!(d.open_count(), k);
    }
}

#[test]
fn counter_hands_out_one_to_n() {
    let mut shared = SharedState::new();
    let got: Vec<u64> = (0..50).map(|_| shared.increment_and_get()).collect();
    let want: Vec<u64> = (1..=50).collect();
    assert_eq!(got, want);
}

#[test]
fn reads_do_not_touch_the_counter() {
    let mut shared = SharedState::new();
    let mut s = open(&mut shared);
    let mut buf = UserBuffer::new(64);
    let _ = DeviceDriver::read(&mut s, &mut buf, 0);
    let _ = DeviceDriver::read(&mut s, &mut buf, 0);
    assert_eq!(shared.open_count(), 1);
}

#[test]
fn offset_is_ignored() {
    let mut shared = SharedState::new();
    let mut s = open(&mut shared);
    let mut buf = UserBuffer::new(PAYLOAD_LEN);
    assert_eq!(DeviceDriver::read(&mut s, &mut buf, 7), Ok(PAYLOAD_LEN));
    assert_eq!(buf.contents_slice(), &PAYLOAD[..]);
}

#[test]
fn failed_write_keeps_session_fresh() {
    let mut shared = SharedState::new();
    let mut s = open(&mut shared);
    let mut bad = UserBuffer::unwritable(PAYLOAD_LEN);
    assert_eq!(DeviceDriver::read(&mut s, &mut bad, 0), Err(IoError));
    assert!(bad.contents_slice().is_empty());
    assert_eq!(s.read_cursor(), 0);
    let mut good = UserBuffer::new(PAYLOAD_LEN);
    assert_eq!(DeviceDriver::read(&mut s, &mut good, 0), Ok(PAYLOAD_LEN));
}

#[test]
fn unwritable_small_buffer_reads_zero() {
    let mut shared = SharedState::new();
    let mut s = open(&mut shared);
    let mut bad = UserBuffer::unwritable(4);
    assert_eq!(DeviceDriver::read(&mut s, &mut bad, 0), Ok(0));
}

#[test]
fn initialize_with_taken_name_fails_without_side_effects() {
    let mut registry = NodeRegistry::new(4);
    let d = DeviceDriver::initialize(&mut registry, b"rust_mydev").expect("registers");
    assert_eq!(d.node_name(), b"rust_mydev");
    assert_eq!(registry.len(), 1);
    let again = DeviceDriver::initialize(&mut registry, b"rust_mydev");
    assert!(matches!(again, Err(RegistrationError::NameInUse)));
    assert_eq!(registry.len(), 1);
    assert!(registry.is_registered(b"rust_mydev"));
}

#[test]
fn initialize_rejected_when_registry_full() {
    let mut registry = NodeRegistry::new(1);
    let _d = DeviceDriver::initialize(&mut registry, b"first").expect("registers");
    let r = DeviceDriver::initialize(&mut registry, b"second");
    assert!(matches!(r, Err(RegistrationError::Rejected)));
    assert!(!registry.is_registered(b"second"));
    assert_eq!(registry.len(), 1);
}

#[test]
fn teardown_releases_the_name() {
    let mut registry = NodeRegistry::new(2);
    let d = DeviceDriver::initialize(&mut registry, b"rust_mydev").expect("registers");
    let other = DeviceDriver::initialize(&mut registry, b"other").expect("registers");
    d.teardown(&mut registry);
    assert!(!registry.is_registered(b"rust_mydev"));
    assert!(registry.is_registered(b"other"));
    let d2 = DeviceDriver::initialize(&mut registry, b"rust_mydev").expect("registers again");
    assert_eq!(d2.open_count(), 0);
    other.teardown(&mut registry);
    d2.teardown(&mut registry);
    assert_eq!(registry.len(), 0);
}

#[test]
fn session_outlives_driver_teardown() {
    let mut registry = NodeRegistry::new(1);
    let mut d = DeviceDriver::initialize(&mut registry, b"rust_mydev").expect("registers");
    let mut s = d.open_session().expect("open succeeds");
    d.teardown(&mut registry);
    let mut buf = UserBuffer::new(PAYLOAD_LEN);
    assert_eq!(DeviceDriver::read(&mut s, &mut buf, 0), Ok(PAYLOAD_LEN));
}

#[test]
fn names_differing_in_one_byte_are_distinct() {
    let mut registry = NodeRegistry::new(3);
    assert_eq!(registry.register(b"dev0"), Ok(()));
    assert_eq!(registry.register(b"dev1"), Ok(()));
    assert_eq!(registry.register(b"dev"), Ok(()));
    assert_eq!(registry.register(b"dev1"), Err(RegistrationError::NameInUse));
    registry.deregister(b"missing");
    assert_eq!(registry.len(), 3);
}

#[test]
fn buffer_write_is_all_or_nothing() {
    let mut buf = UserBuffer::new(3);
    assert_eq!(buf.write_slice(&[1, 2, 3, 4]), Err(IoError));
    assert!(buf.contents_slice().is_empty());
    assert_eq!(buf.write_slice(&[1, 2]), Ok(()));
    assert_eq!(buf.write_slice(&[3]), Ok(()));
    assert_eq!(buf.contents_slice(), &[1, 2, 3][..]);
    assert_eq!(buf.len(), 0);
    assert!(buf.is_writable());
}
