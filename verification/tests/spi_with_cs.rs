//! Tests for the chip-select-managed wrapper and the digital pin layer.

use spi_hal::blocking::spi::Transfer;
use spi_hal::blocking::spi::Write;
use spi_hal::blocking::spi::WriteIter;
use spi_hal::blocking::spi_with_cs::SpiWithCs;
use spi_hal::blocking::spi_with_cs::SpiWithCsErr;
use spi_hal::digital::InputPin;
use spi_hal::digital::OutputPin;
use spi_hal::digital::PinEvent;
use spi_hal::digital::StatefulOutputPin;
use spi_hal::digital::ToggleableOutputPin;
use spi_hal::mock::MockError;
use spi_hal::mock::MockPin;
use spi_hal::mock::MockSpi;
use spi_hal::spi::SpiEvent;

#[test]
fn cs_bracketing_success() {
    let mut dev: SpiWithCs<MockSpi, MockError, MockPin, MockError> =
        SpiWithCs::new(MockSpi::echo(), MockPin::new());
    let mut buf = vec![0x10u8, 0x20];
    let r = dev.try_transfer(&mut buf);
    assert_eq!(r, Ok(()));
    // The bus operation's result is handed back unchanged: echo round-trip.
    assert_eq!(buf, vec![0x10u8, 0x20]);
    let (spi, pin) = dev.inner();
    assert_eq!(*pin.history(), vec![PinEvent::Low, PinEvent::High]);
    assert_eq!(
        *spi.history(),
        vec![
            SpiEvent::Sent(0x10u8),
            SpiEvent::Recvd(0x10),
            SpiEvent::Sent(0x20),
            SpiEvent::Recvd(0x20),
        ]
    );
}

#[test]
fn cs_bus_failure_still_deasserts() {
    // Every send fails: the bus operation aborts at once.
    let mut dev: SpiWithCs<MockSpi, MockError, MockPin, MockError> =
        SpiWithCs::new(MockSpi::new(true, Some(0), None), MockPin::new());
    let mut buf = vec![1u8, 2];
    let r = dev.try_transfer(&mut buf);
    // The bus error is reported, not masked by the successful deassert.
    assert_eq!(r, Err(SpiWithCsErr::Spi(MockError)));
    let (spi, pin) = dev.inner();
    // set_high was still invoked after the failure.
    assert_eq!(*pin.history(), vec![PinEvent::Low, PinEvent::High]);
    assert!(spi.history().is_empty());
    assert_eq!(buf, vec![1u8, 2]);
}

#[test]
fn cs_assert_failure_skips_bus_op() {
    let mut dev: SpiWithCs<MockSpi, MockError, MockPin, MockError> =
        SpiWithCs::new(MockSpi::echo(), MockPin::failing_low());
    let mut buf = vec![1u8, 2, 3];
    let r = dev.try_transfer(&mut buf);
    assert_eq!(r, Err(SpiWithCsErr::Pin(MockError)));
    let (spi, pin) = dev.inner();
    // The bus received zero calls and the pin recorded nothing.
    assert!(spi.history().is_empty());
    assert!(pin.history().is_empty());
    assert_eq!(buf, vec![1u8, 2, 3]);
}

#[test]
fn cs_deassert_failure_overrides_bus_success() {
    let mut dev: SpiWithCs<MockSpi, MockError, MockPin, MockError> =
        SpiWithCs::new(MockSpi::echo(), MockPin::failing_high());
    let mut buf = vec![0x55u8];
    let r = dev.try_transfer(&mut buf);
    // The deassert failure takes precedence over the completed transfer.
    assert_eq!(r, Err(SpiWithCsErr::Pin(MockError)));
    let (spi, pin) = dev.inner();
    // The bus operation did run in full before the deassert was attempted.
    assert_eq!(
        *spi.history(),
        vec![SpiEvent::Sent(0x55u8), SpiEvent::Recvd(0x55)]
    );
    assert_eq!(*pin.history(), vec![PinEvent::Low]);
    assert_eq!(buf, vec![0x55u8]);
}

#[test]
fn cs_write_brackets_and_drains() {
    let mut dev: SpiWithCs<MockSpi, MockError, MockPin, MockError> =
        SpiWithCs::new(MockSpi::echo(), MockPin::new());
    let buf = vec![7u8, 8];
    assert_eq!(dev.try_write(&buf), Ok(()));
    let (spi, pin) = dev.inner();
    assert_eq!(*pin.history(), vec![PinEvent::Low, PinEvent::High]);
    assert_eq!(
        *spi.history(),
        vec![
            SpiEvent::Sent(7u8),
            SpiEvent::Recvd(7),
            SpiEvent::Sent(8),
            SpiEvent::Recvd(8),
        ]
    );
}

#[test]
fn cs_write_iter_brackets() {
    let mut dev: SpiWithCs<MockSpi, MockError, MockPin, MockError> =
        SpiWithCs::new(MockSpi::echo(), MockPin::new());
    assert_eq!(dev.try_write_iter(vec![9u8]), Ok(()));
    let (spi, pin) = dev.inner();
    assert_eq!(*pin.history(), vec![PinEvent::Low, PinEvent::High]);
    assert_eq!(
        *spi.history(),
        vec![SpiEvent::Sent(9u8), SpiEvent::Recvd(9)]
    );
}

#[test]
fn cs_write_assert_failure_skips_bus_op() {
    let mut dev: SpiWithCs<MockSpi, MockError, MockPin, MockError> =
        SpiWithCs::new(MockSpi::echo(), MockPin::failing_low());
    assert_eq!(dev.try_write(&vec![1u8]), Err(SpiWithCsErr::Pin(MockError)));
    let (spi, pin) = dev.inner();
    assert!(spi.history().is_empty());
    assert!(pin.history().is_empty());
}

#[test]
fn inner_returns_the_wrapped_handles() {
    let mut dev: SpiWithCs<MockSpi, MockError, MockPin, MockError> =
        SpiWithCs::new(MockSpi::echo(), MockPin::new());
    let (spi, pin) = dev.inner();
    assert!(spi.history().is_empty());
    // Driving the pin through the reference bypasses the managed-CS
    // guarantee but works.
    assert_eq!(pin.set_high(), Ok(()));
    let (_, pin_again) = dev.inner();
    assert_eq!(*pin_again.history(), vec![PinEvent::High]);
}

#[test]
fn output_pin_latches_and_records() {
    let mut pin = MockPin::new();
    assert_eq!(pin.set_high(), Ok(()));
    assert_eq!(pin.set_low(), Ok(()));
    assert_eq!(pin.set_low(), Ok(()));
    assert_eq!(
        *pin.history(),
        vec![PinEvent::High, PinEvent::Low, PinEvent::Low]
    );
    assert_eq!(pin.is_set_low(), Ok(true));
    assert_eq!(pin.is_set_high(), Ok(false));
}

#[test]
fn failing_pin_records_nothing() {
    let mut pin = MockPin::failing_low();
    assert_eq!(pin.set_low(), Err(MockError));
    assert!(pin.history().is_empty());
    assert_eq!(pin.set_high(), Ok(()));
    assert_eq!(*pin.history(), vec![PinEvent::High]);
}

#[test]
fn toggle_flips_the_latched_state() {
    let mut pin = MockPin::new();
    assert_eq!(pin.toggle(), Ok(()));
    assert_eq!(pin.is_set_high(), Ok(true));
    assert_eq!(pin.toggle(), Ok(()));
    assert_eq!(pin.is_set_low(), Ok(true));
    assert_eq!(*pin.history(), vec![PinEvent::High, PinEvent::Low]);
}

#[test]
fn input_pin_reads_latched_state() {
    let mut pin = MockPin::new();
    assert_eq!(pin.is_high(), Ok(false));
    assert_eq!(pin.is_low(), Ok(true));
    assert_eq!(pin.set_high(), Ok(()));
    assert_eq!(pin.is_high(), Ok(true));
}
