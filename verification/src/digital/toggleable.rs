//! Software-driven `toggle()` for pins that can read back their drive mode.

use vstd::prelude::*;

use crate::digital::is_driven_high;
use crate::digital::OutputPin;
use crate::digital::PinEvent;
use crate::digital::StatefulOutputPin;
use crate::digital::ToggleableOutputPin;

verus! {

/// Opt-in marker for the software `toggle()` implementation.
///
/// If a pin can read **and** write its own drive mode, it is toggleable by
/// software: declaring this capability supplies
/// [`ToggleableOutputPin`] automatically.  The write and read-back halves
/// must share one error type, and the implementor proves that its two
/// models cohere: the latched drive mode it reads back is the state its
/// recorded drive history leaves the pin in.
pub trait Default: OutputPin + StatefulOutputPin<Error = <Self as OutputPin>::Error> {
    /// Coherence obligation on the implementor: the latched drive mode of
    /// [`StatefulOutputPin`] is the mode the recorded drive history of
    /// [`OutputPin`] establishes (low before any operation).
    proof fn drive_tracks_history(&self)
        ensures
            self.drive_high() == is_driven_high(self.pin_log()),
    ;
}

impl<P: Default> ToggleableOutputPin for P {
    type Error = <P as OutputPin>::Error;

    /// Toggle pin output: read the latched drive mode back and drive the
    /// opposite level.
    ///
    /// On success exactly one drive event is recorded, `High` when the pin
    /// was latched low and `Low` when it was latched high, and the latched
    /// drive mode is the opposite of the old one — two successful toggles
    /// restore it; on failure nothing is recorded.  A pin whose drives and
    /// read-backs cannot fail is owed success.
    fn toggle(&mut self) -> (r: Result<(), <P as OutputPin>::Error>)
        ensures
            r is Ok ==> final(self).pin_log() == old(self).pin_log().push(
                (if old(self).drive_high() { PinEvent::Low } else { PinEvent::High })),
            r is Ok ==> final(self).drive_high() == !old(self).drive_high(),
            r is Err ==> final(self).pin_log() == old(self).pin_log(),
            old(self).infallible() && old(self).read_infallible() ==> r is Ok,
            r is Ok && old(self).infallible() ==> final(self).infallible(),
    {
        let low = match self.is_set_low() {
            Ok(b) => b,
            Err(e) => {
                return Err(e);
            },
        };
        let r = if low {
            self.set_high()
        } else {
            self.set_low()
        };
        proof {
            if r is Ok {
                self.drive_tracks_history();
            }
        }
        r
    }
}

} // verus!
