//! Digital I/O: fallible output- and input-pin capabilities.

use vstd::prelude::*;

pub mod toggleable;

verus! {

/// One drive operation recorded on an output pin.
#[derive(Clone, Copy, Debug, PartialEq, Eq)]
pub enum PinEvent {
    /// The pin was driven low.
    Low,
    /// The pin was driven high.
    High,
}

/// The drive mode a history of drive operations leaves a pin in: high
/// exactly when the last recorded operation drove high.  A pin with an
/// empty history counts as driven low.
pub open spec fn is_driven_high(log: Seq<PinEvent>) -> bool {
    log.len() > 0 && log.last() is High
}

/// Single digital push-pull output pin.
///
/// External collaborator: a board-support crate implements it for one
/// physical pin.  Its model is the history of drive operations performed on
/// the pin, which an implementation defines through [`OutputPin::pin_log`].
///
/// *NOTE* the actual electrical state of the pin may not match the driven
/// state, e.g. due to external electrical sources; the model records what was
/// driven, not what a probe would read.
pub trait OutputPin: Sized {
    /// An enumeration of pin errors.
    type Error;

    /// The history of drive operations performed on this pin, oldest first.
    spec fn pin_log(&self) -> Seq<PinEvent>;

    /// Whether this pin can never fail to drive: an implementation whose
    /// drives always succeed declares it, and the contracts below then owe
    /// success.  A pin that can fail simply defines this as `false`.
    spec fn infallible(&self) -> bool;

    /// Drives the pin low.
    ///
    /// On success exactly one `Low` event is recorded; a failed drive
    /// records nothing.
    fn set_low(&mut self) -> (r: Result<(), Self::Error>)
        ensures
            r is Ok ==> final(self).pin_log() == old(self).pin_log().push(PinEvent::Low),
            r is Err ==> final(self).pin_log() == old(self).pin_log(),
            old(self).infallible() ==> r is Ok && final(self).infallible(),
    ;

    /// Drives the pin high.
    ///
    /// On success exactly one `High` event is recorded; a failed drive
    /// records nothing.
    fn set_high(&mut self) -> (r: Result<(), Self::Error>)
        ensures
            r is Ok ==> final(self).pin_log() == old(self).pin_log().push(PinEvent::High),
            r is Err ==> final(self).pin_log() == old(self).pin_log(),
            old(self).infallible() ==> r is Ok && final(self).infallible(),
    ;
}

/// Push-pull output pin that can read back its own drive mode.
///
/// The read-back reports the latched drive state, modeled by
/// [`StatefulOutputPin::drive_high`]; it does *not* read the electrical
/// state of the pin.
pub trait StatefulOutputPin: Sized {
    /// An enumeration of pin errors.
    type Error;

    /// The currently latched drive mode: `true` when the pin is set to drive
    /// high.
    spec fn drive_high(&self) -> bool;

    /// Whether the read-backs can never fail: an implementation whose
    /// read-backs always succeed declares it, and they then owe success.
    spec fn read_infallible(&self) -> bool;

    /// Is the pin in drive high mode?
    fn is_set_high(&self) -> (r: Result<bool, Self::Error>)
        ensures
            r matches Ok(b) ==> b == self.drive_high(),
            self.read_infallible() ==> r is Ok,
    ;

    /// Is the pin in drive low mode?
    fn is_set_low(&self) -> (r: Result<bool, Self::Error>)
        ensures
            r matches Ok(b) ==> b == !self.drive_high(),
            self.read_infallible() ==> r is Ok,
    ;
}

/// Output pin that can be toggled.
///
/// See [`toggleable`] for a software implementation supplied automatically
/// when both [`OutputPin`] and [`StatefulOutputPin`] are implemented;
/// otherwise, implement this using hardware mechanisms.
pub trait ToggleableOutputPin: Sized {
    /// An enumeration of pin errors.
    type Error;

    /// Toggle pin output.
    fn toggle(&mut self) -> Result<(), Self::Error>;
}

/// Single digital input pin.
///
/// The electrical level of an input pin is determined outside this layer, so
/// no contract constrains the values read; two reads in a row may disagree.
pub trait InputPin: Sized {
    /// An enumeration of pin errors.
    type Error;

    /// Is the input pin high?
    fn is_high(&self) -> Result<bool, Self::Error>;

    /// Is the input pin low?
    fn is_low(&self) -> Result<bool, Self::Error>;
}

} // verus!
