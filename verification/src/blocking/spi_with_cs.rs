//! `SpiWithCs`: wraps a bulk bus capability together with an output-pin
//! capability so that every bus operation is bracketed by chip-select
//! assertion and deassertion, with unified cross-domain error reporting.
//!
//! Two limits of the contracts here are worth naming.  The history model
//! records events, not error values: the contracts pin down which domain
//! failed, and the bodies move the underlying error value into the variant
//! unchanged, but no clause can state that the carried payload is the very
//! value the bus or pin produced.  And in the failure direction, "`Ok`
//! exactly when all three steps succeed" cannot be forced for a generic
//! inner bus: the bus capability's own contract leaves open an error
//! reported after a complete exchange (it may itself be a managed wrapper
//! whose deassert failed), so the `Err(Spi(_))` clauses admit a complete
//! history.  The success direction is owed: collaborators that cannot fail
//! yield `Ok`, and a pin that cannot fail rules the pin error domain out.

use core::marker::PhantomData;

use vstd::prelude::*;

use crate::blocking::spi::drained_all;
use crate::blocking::spi::drained_prefix;
use crate::blocking::spi::drained_some;
use crate::blocking::spi::exchange_log;
use crate::blocking::spi::aborted_exchange;
use crate::blocking::spi::partial_exchange;
use crate::blocking::spi::ManagedCs;
use crate::blocking::spi::Transfer;
use crate::blocking::spi::Write;
use crate::blocking::spi::WriteIter;
use crate::digital::OutputPin;
use crate::digital::PinEvent;
use crate::spi::BusHistory;
use crate::spi::SpiEvent;

verus! {

/// Wraps a blocking bus capability with chip-select pin management.
///
/// The wrapper owns one bus handle and one pin handle for its entire
/// lifetime; that ownership is what lets it guarantee
/// assert-operation-deassert bracketing without external interference.  It
/// cannot detect a second handle on the same physical chip-select line:
/// keeping the line exclusive is a documented caller obligation.
pub struct SpiWithCs<Spi, SpiError, Pin, PinError> {
    spi: Spi,
    cs: Pin,
    _spi_err: PhantomData<SpiError>,
    _pin_err: PhantomData<PinError>,
}

/// Unified error over the two independent failure domains of a chip-select
/// managed operation, carrying the original error value unchanged.
#[derive(Clone, Debug, PartialEq)]
pub enum SpiWithCsErr<SpiError, PinError> {
    /// Underlying SPI error.
    Spi(SpiError),
    /// Underlying pin error.
    Pin(PinError),
}

/// Chip-select management is automatic: do not wrap a `SpiWithCs` again.
impl<Spi, SpiError, Pin, PinError> ManagedCs for SpiWithCs<Spi, SpiError, Pin, PinError> {}

impl<Spi, SpiError, Pin, PinError> SpiWithCs<Spi, SpiError, Pin, PinError> {
    /// The wrapped bus handle.
    pub closed spec fn bus(&self) -> Spi {
        self.spi
    }

    /// The wrapped chip-select pin handle.
    pub closed spec fn pin(&self) -> Pin {
        self.cs
    }
}

impl<Spi, SpiError, Pin, PinError> SpiWithCs<Spi, SpiError, Pin, PinError> where
    Pin: OutputPin<Error = PinError>,
 {
    /// Create a new `SpiWithCs` wrapper with the provided bus and pin,
    /// taking ownership of both.
    ///
    /// `cs` must be the only handle on its physical chip-select line — two
    /// wrappers over the same physical pin would race, which this layer
    /// cannot detect.  Do not hand in a bus that already carries the
    /// [`ManagedCs`] capability: the chip select would toggle twice per
    /// operation.
    pub fn new(spi: Spi, cs: Pin) -> (r: Self)
        ensures
            r.bus() == spi,
            r.pin() == cs,
    {
        Self { spi, cs, _spi_err: PhantomData, _pin_err: PhantomData }
    }

    /// Fetch references to the inner bus and pin.
    ///
    /// Note that using these directly bypasses the [`ManagedCs`] guarantee
    /// of this wrapper.
    pub fn inner(&mut self) -> ((bus, pin): (&mut Spi, &mut Pin))
        ensures
            *bus == old(self).bus(),
            *pin == old(self).pin(),
            final(self).bus() == *final(bus),
            final(self).pin() == *final(pin),
    {
        (&mut self.spi, &mut self.cs)
    }
}

impl<Spi, SpiError, Pin, PinError> BusHistory<u8> for SpiWithCs<Spi, SpiError, Pin, PinError> where
    Spi: BusHistory<u8>,
    Pin: OutputPin<Error = PinError>,
 {
    /// The wrapper's bus history is the history of the wrapped bus.
    open spec fn bus_log(&self) -> Seq<SpiEvent<u8>> {
        self.bus().bus_log()
    }

    /// The composed capability never fails exactly when neither the
    /// wrapped bus nor the chip-select pin can fail.
    open spec fn infallible(&self) -> bool {
        self.bus().infallible() && self.pin().infallible()
    }

    /// The composed capability echoes exactly when the wrapped bus does.
    open spec fn echoes(&self) -> bool {
        self.bus().echoes()
    }

    /// The composed capability replies by read position exactly when the
    /// wrapped bus does.
    open spec fn tagged(&self) -> bool {
        self.bus().tagged()
    }

    /// The wrapped bus's reply for the n-th read.
    open spec fn tag_of(&self, n: nat) -> u8 {
        self.bus().tag_of(n)
    }
}

impl<Spi, SpiError, Pin, PinError> Transfer<u8> for SpiWithCs<Spi, SpiError, Pin, PinError> where
    Spi: Transfer<u8, Error = SpiError>,
    Pin: OutputPin<Error = PinError>,
 {
    type Error = SpiWithCsErr<SpiError, PinError>;

    /// Attempt an SPI transfer with automated chip-select assert/deassert.
    ///
    /// Protocol: assert chip select (drive low); on failure abort with the
    /// pin error before any bus operation.  Perform the transfer and capture
    /// its outcome.  Deassert chip select (drive high) unconditionally; a
    /// deassert failure takes precedence over the captured bus outcome.
    /// Otherwise report the captured bus outcome unchanged.
    fn try_transfer(&mut self, data: &mut Vec<u8>) -> (r: Result<
        (),
        SpiWithCsErr<SpiError, PinError>,
    >)
        ensures
            final(data)@.len() == old(data)@.len(),
            old(self).pin().infallible() ==> ({
                &&& final(self).pin().pin_log() == old(self).pin().pin_log().push(
                    PinEvent::Low,
                ).push(PinEvent::High)
                &&& final(self).pin().infallible()
                &&& !(r matches Err(SpiWithCsErr::Pin(_)))
            }),
            r is Ok ==> ({
                &&& final(self).pin().pin_log() == old(self).pin().pin_log().push(
                    PinEvent::Low,
                ).push(PinEvent::High)
                &&& final(self).bus().bus_log() == old(self).bus().bus_log() + exchange_log(
                    old(data)@,
                    final(data)@,
                )
            }),
            r matches Err(SpiWithCsErr::Spi(_)) ==> ({
                &&& final(self).pin().pin_log() == old(self).pin().pin_log().push(
                    PinEvent::Low,
                ).push(PinEvent::High)
                &&& aborted_exchange(
                    old(self).bus().bus_log(),
                    final(self).bus().bus_log(),
                    old(data)@,
                    final(data)@,
                )
            }),
            r matches Err(SpiWithCsErr::Pin(_)) ==> ({
                ||| ({
                    &&& final(self).pin().pin_log() == old(self).pin().pin_log()
                    &&& final(self).bus().bus_log() == old(self).bus().bus_log()
                    &&& final(data)@ == old(data)@
                })
                ||| ({
                    &&& final(self).pin().pin_log() == old(self).pin().pin_log().push(
                        PinEvent::Low,
                    )
                    &&& aborted_exchange(
                        old(self).bus().bus_log(),
                        final(self).bus().bus_log(),
                        old(data)@,
                        final(data)@,
                    )
                })
            }),
    {
        match self.cs.set_low() {
            Ok(u) => {},
            Err(e) => {
                proof {
                    assert(self.bus().bus_log() =~= old(self).bus().bus_log() + exchange_log(
                        old(data)@.take(0),
                        old(data)@.take(0),
                    ));
                    assert(partial_exchange(
                        old(self).bus().bus_log(),
                        self.bus().bus_log(),
                        old(data)@,
                        data@,
                        0,
                    ));
                    assert(aborted_exchange(
                        old(self).bus().bus_log(),
                        self.bus().bus_log(),
                        old(data)@,
                        data@,
                    ));
                }
                return Err(SpiWithCsErr::Pin(e));
            },
        }
        let spi_res = self.spi.try_transfer(data);
        proof {
            if spi_res is Ok {
                assert(old(data)@.skip(old(data)@.len() as int) =~= data@.skip(
                    old(data)@.len() as int,
                ));
                assert(data@.take(old(data)@.len() as int) =~= data@);
                assert(old(data)@.take(old(data)@.len() as int) =~= old(data)@);
                assert(partial_exchange(
                    old(self).bus().bus_log(),
                    self.bus().bus_log(),
                    old(data)@,
                    data@,
                    old(data)@.len() as int,
                ));
            }
            assert(aborted_exchange(
                old(self).bus().bus_log(),
                self.bus().bus_log(),
                old(data)@,
                data@,
            ));
        }
        match self.cs.set_high() {
            Ok(u) => {},
            Err(e) => {
                proof {
                    assert(aborted_exchange(
                        old(self).bus().bus_log(),
                        self.bus().bus_log(),
                        old(data)@,
                        data@,
                    ));
                }
                return Err(SpiWithCsErr::Pin(e));
            },
        }
        proof {
            assert(aborted_exchange(
                old(self).bus().bus_log(),
                self.bus().bus_log(),
                old(data)@,
                data@,
            ));
        }
        match spi_res {
            Ok(u) => Ok(()),
            Err(e) => Err(SpiWithCsErr::Spi(e)),
        }
    }
}

impl<Spi, SpiError, Pin, PinError> Write<u8> for SpiWithCs<Spi, SpiError, Pin, PinError> where
    Spi: Write<u8, Error = SpiError>,
    Pin: OutputPin<Error = PinError>,
 {
    type Error = SpiWithCsErr<SpiError, PinError>;

    /// Attempt an SPI write with automated chip-select assert/deassert.
    ///
    /// Protocol: assert chip select (drive low); on failure abort with the
    /// pin error before any bus operation.  Perform the write and capture
    /// its outcome.  Deassert chip select (drive high) unconditionally; a
    /// deassert failure takes precedence over the captured bus outcome.
    /// Otherwise report the captured bus outcome unchanged.
    fn try_write(&mut self, data: &Vec<u8>) -> (r: Result<
        (),
        SpiWithCsErr<SpiError, PinError>,
    >)
        ensures
            old(self).pin().infallible() ==> ({
                &&& final(self).pin().pin_log() == old(self).pin().pin_log().push(
                    PinEvent::Low,
                ).push(PinEvent::High)
                &&& final(self).pin().infallible()
                &&& !(r matches Err(SpiWithCsErr::Pin(_)))
            }),
            r is Ok ==> ({
                &&& final(self).pin().pin_log() == old(self).pin().pin_log().push(
                    PinEvent::Low,
                ).push(PinEvent::High)
                &&& drained_all(old(self).bus().bus_log(), final(self).bus().bus_log(), data@)
            }),
            r matches Err(SpiWithCsErr::Spi(_)) ==> ({
                &&& final(self).pin().pin_log() == old(self).pin().pin_log().push(
                    PinEvent::Low,
                ).push(PinEvent::High)
                &&& drained_some(old(self).bus().bus_log(), final(self).bus().bus_log(), data@)
            }),
            r matches Err(SpiWithCsErr::Pin(_)) ==> ({
                ||| ({
                    &&& final(self).pin().pin_log() == old(self).pin().pin_log()
                    &&& final(self).bus().bus_log() == old(self).bus().bus_log()
                })
                ||| ({
                    &&& final(self).pin().pin_log() == old(self).pin().pin_log().push(
                        PinEvent::Low,
                    )
                    &&& drained_some(old(self).bus().bus_log(), final(self).bus().bus_log(), data@)
                })
            }),
    {
        match self.cs.set_low() {
            Ok(u) => {},
            Err(e) => {
                proof {
                    assert(exchange_log(data@.take(0), Seq::<u8>::empty())
                        =~= Seq::<SpiEvent<u8>>::empty());
                    assert(self.bus().bus_log() =~= old(self).bus().bus_log() + exchange_log(
                        data@.take(0),
                        Seq::<u8>::empty(),
                    ));
                    assert(drained_prefix(
                        old(self).bus().bus_log(),
                        self.bus().bus_log(),
                        data@,
                        Seq::<u8>::empty(),
                        0,
                    ));
                    assert(drained_some(old(self).bus().bus_log(), self.bus().bus_log(), data@));
                }
                return Err(SpiWithCsErr::Pin(e));
            },
        }
        let spi_res = self.spi.try_write(data);
        proof {
            if spi_res is Ok {
                let recvd0 = choose|recvd: Seq<u8>|
                    recvd.len() == data@.len() && self.bus().bus_log() == old(self).bus().bus_log()
                        + exchange_log(data@, recvd);
                assert(data@.take(data@.len() as int) =~= data@);
                assert(drained_prefix(
                    old(self).bus().bus_log(),
                    self.bus().bus_log(),
                    data@,
                    recvd0,
                    data@.len() as int,
                ));
                assert(drained_all(old(self).bus().bus_log(), self.bus().bus_log(), data@));
            }
            assert(drained_some(old(self).bus().bus_log(), self.bus().bus_log(), data@));
        }
        match self.cs.set_high() {
            Ok(u) => {},
            Err(e) => {
                proof {
                    assert(drained_some(old(self).bus().bus_log(), self.bus().bus_log(), data@));
                }
                return Err(SpiWithCsErr::Pin(e));
            },
        }
        proof {
            if spi_res is Ok {
                assert(drained_all(old(self).bus().bus_log(), self.bus().bus_log(), data@));
            }
            assert(drained_some(old(self).bus().bus_log(), self.bus().bus_log(), data@));
        }
        match spi_res {
            Ok(u) => Ok(()),
            Err(e) => Err(SpiWithCsErr::Spi(e)),
        }
    }
}

impl<Spi, SpiError, Pin, PinError> WriteIter<u8> for SpiWithCs<Spi, SpiError, Pin, PinError> where
    Spi: WriteIter<u8, Error = SpiError>,
    Pin: OutputPin<Error = PinError>,
 {
    type Error = SpiWithCsErr<SpiError, PinError>;

    /// Attempt a sequence-consuming SPI write with automated chip-select
    /// assert/deassert.
    ///
    /// Protocol: assert chip select (drive low); on failure abort with the
    /// pin error before any bus operation.  Perform the write and capture
    /// its outcome.  Deassert chip select (drive high) unconditionally; a
    /// deassert failure takes precedence over the captured bus outcome.
    /// Otherwise report the captured bus outcome unchanged.
    fn try_write_iter(&mut self, data: Vec<u8>) -> (r: Result<
        (),
        SpiWithCsErr<SpiError, PinError>,
    >)
        ensures
            old(self).pin().infallible() ==> ({
                &&& final(self).pin().pin_log() == old(self).pin().pin_log().push(
                    PinEvent::Low,
                ).push(PinEvent::High)
                &&& final(self).pin().infallible()
                &&& !(r matches Err(SpiWithCsErr::Pin(_)))
            }),
            r is Ok ==> ({
                &&& final(self).pin().pin_log() == old(self).pin().pin_log().push(
                    PinEvent::Low,
                ).push(PinEvent::High)
                &&& drained_all(old(self).bus().bus_log(), final(self).bus().bus_log(), data@)
            }),
            r matches Err(SpiWithCsErr::Spi(_)) ==> ({
                &&& final(self).pin().pin_log() == old(self).pin().pin_log().push(
                    PinEvent::Low,
                ).push(PinEvent::High)
                &&& drained_some(old(self).bus().bus_log(), final(self).bus().bus_log(), data@)
            }),
            r matches Err(SpiWithCsErr::Pin(_)) ==> ({
                ||| ({
                    &&& final(self).pin().pin_log() == old(self).pin().pin_log()
                    &&& final(self).bus().bus_log() == old(self).bus().bus_log()
                })
                ||| ({
                    &&& final(self).pin().pin_log() == old(self).pin().pin_log().push(
                        PinEvent::Low,
                    )
                    &&& drained_some(old(self).bus().bus_log(), final(self).bus().bus_log(), data@)
                })
            }),
    {
        let ghost words0 = data@;
        match self.cs.set_low() {
            Ok(u) => {},
            Err(e) => {
                proof {
                    assert(exchange_log(words0.take(0), Seq::<u8>::empty())
                        =~= Seq::<SpiEvent<u8>>::empty());
                    assert(self.bus().bus_log() =~= old(self).bus().bus_log() + exchange_log(
                        words0.take(0),
                        Seq::<u8>::empty(),
                    ));
                    assert(drained_prefix(
                        old(self).bus().bus_log(),
                        self.bus().bus_log(),
                        words0,
                        Seq::<u8>::empty(),
                        0,
                    ));
                    assert(drained_some(old(self).bus().bus_log(), self.bus().bus_log(), words0));
                }
                return Err(SpiWithCsErr::Pin(e));
            },
        }
        let spi_res = self.spi.try_write_iter(data);
        proof {
            if spi_res is Ok {
                let recvd0 = choose|recvd: Seq<u8>|
                    recvd.len() == words0.len() && self.bus().bus_log() == old(self).bus().bus_log()
                        + exchange_log(words0, recvd);
                assert(words0.take(words0.len() as int) =~= words0);
                assert(drained_prefix(
                    old(self).bus().bus_log(),
                    self.bus().bus_log(),
                    words0,
                    recvd0,
                    words0.len() as int,
                ));
                assert(drained_all(old(self).bus().bus_log(), self.bus().bus_log(), words0));
            }
            assert(drained_some(old(self).bus().bus_log(), self.bus().bus_log(), words0));
        }
        match self.cs.set_high() {
            Ok(u) => {},
            Err(e) => {
                proof {
                    assert(drained_some(old(self).bus().bus_log(), self.bus().bus_log(), words0));
                }
                return Err(SpiWithCsErr::Pin(e));
            },
        }
        proof {
            if spi_res is Ok {
                assert(drained_all(old(self).bus().bus_log(), self.bus().bus_log(), words0));
            }
            assert(drained_some(old(self).bus().bus_log(), self.bus().bus_log(), words0));
        }
        match spi_res {
            Ok(u) => Ok(()),
            Err(e) => Err(SpiWithCsErr::Spi(e)),
        }
    }
}

} // verus!
