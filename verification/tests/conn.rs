use latency_server::conn::{stamp_bytes, Conn, WriteOutcome, PACKET_SIZE, STAMP_SIZE};
use latency_server::error::ServerError;

#[test]
fn new_conn_is_writable_and_unwritten() {
    let conn = Conn::new(250, 7);
    assert_eq!(conn.id(), 7);
    assert_eq!(conn.period(), 250);
    assert!(conn.is_writable());
    assert_eq!(conn.last_write(), None);
    assert_eq!(conn.packet().len(), PACKET_SIZE);
    assert!(conn.packet().iter().all(|b| *b == 0));
    assert_eq!(STAMP_SIZE, 8);
}

#[test]
fn first_write_is_due_at_once() {
    let conn = Conn::new(u64::MAX, 0);
    assert!(conn.is_due(0));
    assert!(conn.is_due(u64::MAX));
}

#[test]
fn due_exactly_after_one_period() {
    let mut conn = Conn::new(100, 0);
    assert!(conn.begin_write(40));
    assert_eq!(conn.complete_write(40, WriteOutcome::Written), Ok(true));
    assert_eq!(conn.last_write(), Some(40));
    assert!(!conn.is_due(40));
    assert!(!conn.is_due(139));
    assert!(conn.is_due(140));
    assert!(conn.is_due(u64::MAX));
    assert!(!conn.is_due(39));
    assert!(!conn.is_due(0));
}

#[test]
fn stamp_is_little_endian_in_first_eight_bytes() {
    let mut conn = Conn::new(0, 0);
    assert!(conn.begin_write(1));
    assert_eq!(&conn.packet()[..8], &[1, 0, 0, 0, 0, 0, 0, 0]);
    assert_eq!(conn.complete_write(1, WriteOutcome::Written), Ok(true));
    assert!(conn.begin_write(0xfedc_ba98_7654_3210));
    assert_eq!(&conn.packet()[..8], &[0x10, 0x32, 0x54, 0x76, 0x98, 0xba, 0xdc, 0xfe]);
    assert!(conn.packet()[8..].iter().all(|b| *b == 0));
    assert!(conn.begin_write(u64::MAX));
    assert_eq!(&conn.packet()[..8], &[0xff; 8]);
    assert_eq!(conn.packet()[8], 0);
}

#[test]
fn begin_write_leaves_record_alone_when_not_due() {
    let mut conn = Conn::new(1000, 3);
    assert!(conn.begin_write(77));
    assert_eq!(conn.complete_write(77, WriteOutcome::Written), Ok(true));
    assert!(!conn.begin_write(78));
    assert_eq!(&conn.packet()[..8], &77u64.to_le_bytes());
    assert_eq!(conn.last_write(), Some(77));
    assert!(conn.is_writable());
    assert_eq!(conn.id(), 3);
}

#[test]
fn begin_write_does_not_start_a_period() {
    let mut conn = Conn::new(1000, 0);
    assert!(conn.begin_write(10));
    assert_eq!(conn.last_write(), None);
    assert!(conn.begin_write(11));
    assert_eq!(&conn.packet()[..8], &11u64.to_le_bytes());
}

#[test]
fn would_block_marks_blocked_and_keeps_last_write() {
    let mut conn = Conn::new(10, 0);
    assert!(conn.begin_write(5));
    assert_eq!(conn.complete_write(5, WriteOutcome::Written), Ok(true));
    assert!(conn.begin_write(20));
    assert_eq!(conn.complete_write(20, WriteOutcome::WouldBlock), Ok(true));
    assert!(!conn.is_writable());
    assert_eq!(conn.last_write(), Some(5));
    assert!(!conn.is_due(1_000));
    assert!(!conn.begin_write(1_000));
    conn.set_writable();
    assert!(conn.is_writable());
    assert!(conn.is_due(1_000));
}

#[test]
fn end_of_stream_and_reset_close_the_connection() {
    let mut conn = Conn::new(10, 0);
    assert_eq!(conn.complete_write(1, WriteOutcome::UnexpectedEof), Ok(false));
    assert_eq!(conn.complete_write(1, WriteOutcome::ConnectionReset), Ok(false));
    assert_eq!(conn.last_write(), None);
    assert!(conn.is_writable());
}

#[test]
fn other_write_error_is_fatal() {
    let mut conn = Conn::new(10, 0);
    assert_eq!(conn.complete_write(1, WriteOutcome::Failed), Err(ServerError::Io));
    assert_eq!(conn.last_write(), None);
    assert!(conn.is_writable());
}

#[test]
fn consecutive_writes_carry_non_decreasing_stamps() {
    let mut conn = Conn::new(3, 0);
    let mut stamps = Vec::new();
    for now in [10u64, 11, 12, 13, 13, 16, 20, 21, 23, 23, 26] {
        if conn.begin_write(now) {
            let mut first = [0u8; 8];
            first.copy_from_slice(&conn.packet()[..8]);
            stamps.push(u64::from_le_bytes(first));
            assert_eq!(conn.complete_write(now, WriteOutcome::Written), Ok(true));
        }
    }
    assert_eq!(stamps, vec![10, 13, 16, 20, 23, 26]);
    assert!(stamps.windows(2).all(|w| w[0] <= w[1]));
}

#[test]
fn stamp_bytes_are_little_endian() {
    assert_eq!(stamp_bytes(0), [0u8; 8]);
    assert_eq!(stamp_bytes(1), [1, 0, 0, 0, 0, 0, 0, 0]);
    assert_eq!(stamp_bytes(0x0102_0304_0506_0708), [8, 7, 6, 5, 4, 3, 2, 1]);
    assert_eq!(stamp_bytes(u64::MAX), [0xff; 8]);
    for x in [255u64, 256, 65_535, 1 << 32, 1_000_000_000, 0x8000_0000_0000_0000] {
        assert_eq!(stamp_bytes(x), x.to_le_bytes());
    }
}
