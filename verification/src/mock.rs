//! In-memory implementations of the bus and pin capabilities.
//!
//! A `MockSpi` answers reads either by echoing the last sent word or with
//! position tags, and a `MockPin` latches its drive state; both record the
//! history their models are defined over and can be told to start failing,
//! so a driver — or this crate's own test suite — can exercise every
//! success and failure path without hardware.

use vstd::prelude::*;

use crate::digital::is_driven_high;
use crate::digital::toggleable;
use crate::digital::InputPin;
use crate::digital::OutputPin;
use crate::digital::PinEvent;
use crate::digital::StatefulOutputPin;
use crate::spi::count_recvs;
use crate::spi::BusHistory;
use crate::spi::FullDuplex;
use crate::spi::SpiEvent;

verus! {

/// The error either mock raises once it is told to fail.
#[derive(Clone, Copy, Debug, PartialEq, Eq)]
pub struct MockError;

/// An in-memory full-duplex bus.
///
/// In echo mode a read that follows a send returns that send's word (and
/// zero otherwise); in tagged mode reads return position tags counting up
/// from zero, wrapping at the word size.  A budget of `Some(n)` lets the
/// next `n` operations of that kind succeed and fails every later one;
/// `None` never fails.
pub struct MockSpi {
    echo: bool,
    send_budget: Option<usize>,
    read_budget: Option<usize>,
    log: Vec<SpiEvent<u8>>,
}

impl MockSpi {
    /// Echo mode: a read following a send returns the sent word.
    pub closed spec fn echoing(&self) -> bool {
        self.echo
    }

    /// Sends that will still succeed before sends start failing; `None`
    /// means sends never fail.
    pub closed spec fn sends_left(&self) -> Option<usize> {
        self.send_budget
    }

    /// Reads that will still succeed before reads start failing; `None`
    /// means reads never fail.
    pub closed spec fn reads_left(&self) -> Option<usize> {
        self.read_budget
    }

}

impl BusHistory<u8> for MockSpi {
    /// The recorded event history.
    closed spec fn bus_log(&self) -> Seq<SpiEvent<u8>> {
        self.log@
    }

    /// The bus never fails exactly when neither budget is set.
    closed spec fn infallible(&self) -> bool {
        self.send_budget is None && self.read_budget is None
    }

    /// The bus echoes exactly when built in echo mode.
    closed spec fn echoes(&self) -> bool {
        self.echo
    }

    /// The bus replies by read position exactly when not in echo mode.
    closed spec fn tagged(&self) -> bool {
        !self.echo
    }

    /// The n-th read answers with n, wrapped at the word size.
    closed spec fn tag_of(&self, n: nat) -> u8 {
        (n % 256) as u8
    }
}

impl FullDuplex<u8> for MockSpi {
    type Error = MockError;

    /// Records the word as sent; fails exactly when the send budget is
    /// exhausted, leaving the bus untouched.
    fn try_send(&mut self, word: u8) -> (r: Result<(), MockError>)
        ensures
            r is Ok <==> old(self).sends_left() != Some(0usize),
            r is Err ==> *final(self) == *old(self),
            r is Ok ==> ({
                &&& final(self).echoing() == old(self).echoing()
                &&& final(self).reads_left() == old(self).reads_left()
                &&& final(self).sends_left() == (match old(self).sends_left() {
                    Some(n) => Some((n - 1) as usize),
                    None => None,
                })
            }),
    {
        match self.send_budget {
            Some(n) => {
                if n == 0 {
                    return Err(MockError);
                }
                self.send_budget = Some(n - 1);
            },
            None => {},
        }
        self.log.push(SpiEvent::Sent(word));
        Ok(())
    }

    /// Answers with the word of the last recorded send (or zero when the
    /// last event is not a send) in echo mode, and with the number of reads
    /// recorded so far (wrapped at the word size) otherwise; fails exactly
    /// when the read budget is exhausted, leaving the bus untouched.
    fn try_read(&mut self) -> (r: Result<u8, MockError>)
        ensures
            r is Ok <==> old(self).reads_left() != Some(0usize),
            r is Err ==> *final(self) == *old(self),
            r matches Ok(w) ==> ({
                &&& old(self).echoing() ==> w == (if old(self).bus_log().len() > 0 && old(
                    self,
                ).bus_log().last() is Sent {
                    old(self).bus_log().last()->Sent_0
                } else {
                    0u8
                })
                &&& final(self).echoing() == old(self).echoing()
                &&& final(self).sends_left() == old(self).sends_left()
                &&& final(self).reads_left() == (match old(self).reads_left() {
                    Some(n) => Some((n - 1) as usize),
                    None => None,
                })
            }),
    {
        match self.read_budget {
            Some(n) => {
                if n == 0 {
                    return Err(MockError);
                }
                self.read_budget = Some(n - 1);
            },
            None => {},
        }
        let w: u8;
        if self.echo {
            if self.log.len() == 0 {
                w = 0;
            } else {
                w = match self.log[self.log.len() - 1] {
                    SpiEvent::Sent(p) => p,
                    SpiEvent::Recvd(_) => 0,
                };
            }
        } else {
            let mut c: u8 = 0;
            let mut j: usize = 0;
            while j < self.log.len()
                invariant
                    j <= self.log@.len(),
                    c as nat == count_recvs(self.log@.take(j as int)) % 256,
                decreases self.log@.len() - j,
            {
                let ghost pre = self.log@.take(j as int);
                match self.log[j] {
                    SpiEvent::Recvd(_) => {
                        c = if c == 255 {
                            0
                        } else {
                            c + 1
                        };
                    },
                    SpiEvent::Sent(_) => {},
                }
                proof {
                    assert(self.log@.take(j + 1 as int).drop_last() =~= pre);
                    assert(self.log@.take(j + 1 as int).last() == self.log@[j as int]);
                }
                j += 1;
            }
            proof {
                assert(self.log@.take(self.log@.len() as int) =~= self.log@);
            }
            w = c;
        }
        self.log.push(SpiEvent::Recvd(w));
        Ok(w)
    }
}

/// A `MockSpi` gets the default bulk operations of the blocking adapter
/// layer.
impl crate::blocking::transfer::Default<u8> for MockSpi {}

impl crate::blocking::write::Default<u8> for MockSpi {}

impl crate::blocking::write_iter::Default<u8> for MockSpi {}

impl MockSpi {
    /// A bus with the given reply mode and failure budgets and an empty
    /// history.
    pub fn new(echo: bool, send_budget: Option<usize>, read_budget: Option<usize>) -> (r: MockSpi)
        ensures
            r.bus_log() == Seq::<SpiEvent<u8>>::empty(),
            r.infallible() == (send_budget is None && read_budget is None),
            r.echoes() == echo,
            r.echoing() == echo,
            r.tagged() == !echo,
            r.sends_left() == send_budget,
            r.reads_left() == read_budget,
            forall|n: nat| r.tag_of(n) == ((n % 256) as u8),
    {
        MockSpi { echo, send_budget, read_budget, log: Vec::new() }
    }

    /// A bus that echoes every sent word straight back and never fails.
    pub fn echo() -> (r: MockSpi)
        ensures
            r.bus_log() == Seq::<SpiEvent<u8>>::empty(),
            r.infallible(),
            r.echoes(),
            r.sends_left() is None,
            r.reads_left() is None,
    {
        MockSpi::new(true, None, None)
    }

    /// A bus that answers the i-th read with tag i and never fails.
    pub fn tagged() -> (r: MockSpi)
        ensures
            r.bus_log() == Seq::<SpiEvent<u8>>::empty(),
            r.infallible(),
            !r.echoing(),
            r.tagged(),
            r.sends_left() is None,
            r.reads_left() is None,
            forall|n: nat| r.tag_of(n) == ((n % 256) as u8),
    {
        MockSpi::new(false, None, None)
    }

    /// The recorded history of bus events, oldest first.
    pub fn history(&self) -> (r: &Vec<SpiEvent<u8>>)
        ensures
            r@ == self.bus_log(),
    {
        &self.log
    }
}

/// An in-memory output pin that records every successful drive operation;
/// its latched drive state is the state that history leaves the pin in.
/// It can be told to fail all drives in one direction, and reads back its
/// latched state, also as an input pin.
pub struct MockPin {
    fail_low: bool,
    fail_high: bool,
    log: Vec<PinEvent>,
}

impl MockPin {
    /// Whether every `set_low` fails.
    pub closed spec fn fails_low(&self) -> bool {
        self.fail_low
    }

    /// Whether every `set_high` fails.
    pub closed spec fn fails_high(&self) -> bool {
        self.fail_high
    }
}

impl OutputPin for MockPin {
    type Error = MockError;

    /// The recorded drive history.
    closed spec fn pin_log(&self) -> Seq<PinEvent> {
        self.log@
    }

    /// The pin never fails exactly when neither drive is told to fail.
    closed spec fn infallible(&self) -> bool {
        !self.fail_low && !self.fail_high
    }

    /// Records the low drive; fails exactly when told to, leaving the pin
    /// untouched.
    fn set_low(&mut self) -> (r: Result<(), MockError>)
        ensures
            r is Ok <==> !old(self).fails_low(),
            r is Err ==> *final(self) == *old(self),
            r is Ok ==> !final(self).drive_high() && final(self).fails_low() == old(
                self,
            ).fails_low() && final(self).fails_high() == old(self).fails_high(),
    {
        if self.fail_low {
            return Err(MockError);
        }
        self.log.push(PinEvent::Low);
        Ok(())
    }

    /// Records the high drive; fails exactly when told to, leaving the pin
    /// untouched.
    fn set_high(&mut self) -> (r: Result<(), MockError>)
        ensures
            r is Ok <==> !old(self).fails_high(),
            r is Err ==> *final(self) == *old(self),
            r is Ok ==> final(self).drive_high() && final(self).fails_low() == old(
                self,
            ).fails_low() && final(self).fails_high() == old(self).fails_high(),
    {
        if self.fail_high {
            return Err(MockError);
        }
        self.log.push(PinEvent::High);
        Ok(())
    }
}

impl StatefulOutputPin for MockPin {
    type Error = MockError;

    /// The state the recorded drive history leaves the pin in.
    closed spec fn drive_high(&self) -> bool {
        is_driven_high(self.log@)
    }

    /// The read-backs never fail.
    open spec fn read_infallible(&self) -> bool {
        true
    }

    /// Never fails: reports the latched state.
    fn is_set_high(&self) -> (r: Result<bool, MockError>)
        ensures
            r == Ok::<bool, MockError>(self.drive_high()),
    {
        if self.log.len() == 0 {
            Ok(false)
        } else {
            match self.log[self.log.len() - 1] {
                PinEvent::High => Ok(true),
                PinEvent::Low => Ok(false),
            }
        }
    }

    /// Never fails: reports the latched state.
    fn is_set_low(&self) -> (r: Result<bool, MockError>)
        ensures
            r == Ok::<bool, MockError>(!self.drive_high()),
    {
        if self.log.len() == 0 {
            Ok(true)
        } else {
            match self.log[self.log.len() - 1] {
                PinEvent::High => Ok(false),
                PinEvent::Low => Ok(true),
            }
        }
    }
}

/// A `MockPin` can read and write its drive state, so it gets the software
/// `toggle()`.
impl toggleable::Default for MockPin {
    proof fn drive_tracks_history(&self) {
    }
}

/// Reads back the latched drive state, standing in for a probe on the
/// physical line.
impl InputPin for MockPin {
    type Error = MockError;

    /// Never fails: reads back the latched drive state.
    fn is_high(&self) -> (r: Result<bool, MockError>)
        ensures
            r == Ok::<bool, MockError>(self.drive_high()),
    {
        self.is_set_high()
    }

    /// Never fails: reads back the latched drive state.
    fn is_low(&self) -> (r: Result<bool, MockError>)
        ensures
            r == Ok::<bool, MockError>(!self.drive_high()),
    {
        self.is_set_low()
    }
}

impl MockPin {
    /// A pin with an empty history (so latched low) that never fails.
    pub fn new() -> (r: MockPin)
        ensures
            r.pin_log() == Seq::<PinEvent>::empty(),
            !r.drive_high(),
            r.infallible(),
            r.read_infallible(),
            !r.fails_low(),
            !r.fails_high(),
    {
        MockPin { fail_low: false, fail_high: false, log: Vec::new() }
    }

    /// A pin whose `set_low` always fails; `set_high` still succeeds.
    pub fn failing_low() -> (r: MockPin)
        ensures
            r.pin_log() == Seq::<PinEvent>::empty(),
            !r.drive_high(),
            !r.infallible(),
            r.read_infallible(),
            r.fails_low(),
            !r.fails_high(),
    {
        MockPin { fail_low: true, fail_high: false, log: Vec::new() }
    }

    /// A pin whose `set_high` always fails; `set_low` still succeeds.
    pub fn failing_high() -> (r: MockPin)
        ensures
            r.pin_log() == Seq::<PinEvent>::empty(),
            !r.drive_high(),
            !r.infallible(),
            r.read_infallible(),
            !r.fails_low(),
            r.fails_high(),
    {
        MockPin { fail_low: false, fail_high: true, log: Vec::new() }
    }

    /// The recorded history of drive events, oldest first.
    pub fn history(&self) -> (r: &Vec<PinEvent>)
        ensures
            r@ == self.pin_log(),
    {
        &self.log
    }
}

} // verus!
