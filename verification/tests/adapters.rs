//! Tests for the blocking adapter layer over the mock full-duplex bus.

use spi_hal::blocking::spi::Transfer;
use spi_hal::blocking::spi::Write;
use spi_hal::blocking::spi::WriteIter;
use spi_hal::mock::MockError;
use spi_hal::mock::MockSpi;
use spi_hal::spi::SpiEvent;

#[test]
fn transfer_round_trip_echo() {
    let mut spi = MockSpi::echo();
    let mut buf = vec![0x41u8, 0x42, 0x43];
    let r = spi.try_transfer(&mut buf);
    assert_eq!(r, Ok(()));
    assert_eq!(buf, vec![0x41u8, 0x42, 0x43]);
    assert_eq!(
        *spi.history(),
        vec![
            SpiEvent::Sent(0x41u8),
            SpiEvent::Recvd(0x41),
            SpiEvent::Sent(0x42),
            SpiEvent::Recvd(0x42),
            SpiEvent::Sent(0x43),
            SpiEvent::Recvd(0x43),
        ]
    );
}

#[test]
fn transfer_empty_buffer() {
    let mut spi = MockSpi::echo();
    let mut buf: Vec<u8> = vec![];
    assert_eq!(spi.try_transfer(&mut buf), Ok(()));
    assert!(buf.is_empty());
    assert!(spi.history().is_empty());
}

#[test]
fn transfer_sequential_ordering_tagged() {
    let mut spi = MockSpi::tagged();
    let mut buf = vec![9u8; 5];
    assert_eq!(spi.try_transfer(&mut buf), Ok(()));
    assert_eq!(buf, vec![0u8, 1, 2, 3, 4]);
}

#[test]
fn write_drains_one_read_per_send() {
    let mut spi = MockSpi::echo();
    let buf = vec![5u8, 6];
    assert_eq!(spi.try_write(&buf), Ok(()));
    let sends = spi
        .history()
        .iter()
        .filter(|e| matches!(e, SpiEvent::Sent(_)))
        .count();
    let reads = spi
        .history()
        .iter()
        .filter(|e| matches!(e, SpiEvent::Recvd(_)))
        .count();
    assert_eq!(sends, 2);
    assert_eq!(reads, 2);
    assert_eq!(
        *spi.history(),
        vec![
            SpiEvent::Sent(5u8),
            SpiEvent::Recvd(5),
            SpiEvent::Sent(6),
            SpiEvent::Recvd(6),
        ]
    );
}

#[test]
fn write_iter_consumes_in_order() {
    let mut spi = MockSpi::echo();
    let words = vec![1u8, 2, 3];
    assert_eq!(spi.try_write_iter(words), Ok(()));
    assert_eq!(
        *spi.history(),
        vec![
            SpiEvent::Sent(1u8),
            SpiEvent::Recvd(1),
            SpiEvent::Sent(2),
            SpiEvent::Recvd(2),
            SpiEvent::Sent(3),
            SpiEvent::Recvd(3),
        ]
    );
}

#[test]
fn transfer_send_failure_aborts() {
    // Sends number 0 and 1 succeed; send number 2 fails.
    let mut spi = MockSpi::new(false, Some(2), None);
    let mut buf = vec![9u8, 9, 9, 9];
    let r = spi.try_transfer(&mut buf);
    assert_eq!(r, Err(MockError));
    // Positions before the failure hold the received tags; later positions
    // are untouched.
    assert_eq!(buf, vec![0u8, 1, 9, 9]);
    // No event for any position past the failing one reached the bus.
    assert_eq!(
        *spi.history(),
        vec![
            SpiEvent::Sent(9u8),
            SpiEvent::Recvd(0),
            SpiEvent::Sent(9),
            SpiEvent::Recvd(1),
        ]
    );
}

#[test]
fn transfer_read_failure_aborts_after_send() {
    // Read number 0 succeeds; read number 1 fails.
    let mut spi = MockSpi::new(false, None, Some(1));
    let mut buf = vec![7u8, 7, 7];
    let r = spi.try_transfer(&mut buf);
    assert_eq!(r, Err(MockError));
    // The failing position was sent but not overwritten.
    assert_eq!(buf, vec![0u8, 7, 7]);
    assert_eq!(
        *spi.history(),
        vec![SpiEvent::Sent(7u8), SpiEvent::Recvd(0), SpiEvent::Sent(7)]
    );
}

#[test]
fn write_send_failure_aborts() {
    let mut spi = MockSpi::new(true, Some(1), None);
    let buf = vec![3u8, 4, 5];
    assert_eq!(spi.try_write(&buf), Err(MockError));
    assert_eq!(
        *spi.history(),
        vec![SpiEvent::Sent(3u8), SpiEvent::Recvd(3)]
    );
}

#[test]
fn write_iter_read_failure_aborts() {
    let mut spi = MockSpi::new(true, None, Some(0));
    let words = vec![8u8, 9];
    assert_eq!(spi.try_write_iter(words), Err(MockError));
    // The first send happened; its read failed, so nothing more followed.
    assert_eq!(*spi.history(), vec![SpiEvent::Sent(8u8)]);
}

#[test]
fn tag_counter_wraps_at_word_size() {
    let mut spi = MockSpi::tagged();
    let mut buf = vec![0u8; 257];
    assert_eq!(spi.try_transfer(&mut buf), Ok(()));
    assert_eq!(buf[255], 255u8);
    assert_eq!(buf[256], 0u8);
}
