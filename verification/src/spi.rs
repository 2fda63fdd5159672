//! Serial Peripheral Interface: the single-word full-duplex primitive and
//! the event-history model shared by every bus capability.

use vstd::prelude::*;

verus! {

/// One event observed on a full-duplex bus: a word pushed out to the slave,
/// or a word pulled in from it.
#[derive(Clone, Copy, Debug, PartialEq, Eq)]
pub enum SpiEvent<W> {
    /// A word was sent to the slave.
    Sent(W),
    /// A word was received from the slave.
    Recvd(W),
}

/// Number of `Sent` events in a bus history.
pub open spec fn count_sends<W>(log: Seq<SpiEvent<W>>) -> nat
    decreases log.len(),
{
    if log.len() == 0 {
        0
    } else {
        count_sends(log.drop_last()) + (if log.last() is Sent {
            1nat
        } else {
            0nat
        })
    }
}

/// Number of `Recvd` events in a bus history.
pub open spec fn count_recvs<W>(log: Seq<SpiEvent<W>>) -> nat
    decreases log.len(),
{
    if log.len() == 0 {
        0
    } else {
        count_recvs(log.drop_last()) + (if log.last() is Recvd {
            1nat
        } else {
            0nat
        })
    }
}

/// The model every bus capability of this crate is specified against: the
/// history of single-word events that crossed the bus, oldest first.
///
/// An implementation chooses what its history is (a hardware peripheral
/// typically has no observable one; a test double records it); the contracts
/// of the bus traits then pin down exactly how each operation extends it.
pub trait BusHistory<W> {
    /// The history of single-word events performed on this bus, oldest first.
    spec fn bus_log(&self) -> Seq<SpiEvent<W>>;

    /// Whether this bus can never fail: an implementation whose operations
    /// always succeed declares it, and the bus contracts then owe success.
    /// A bus that can fail simply defines this as `false`.
    spec fn infallible(&self) -> bool;

    /// Whether this bus echoes: a read that follows a send returns the word
    /// of that send.  A bus without this behavior defines it as `false`.
    spec fn echoes(&self) -> bool;

    /// Whether this bus replies deterministically by read position: the
    /// n-th read (counting every read since the history began) returns
    /// [`BusHistory::tag_of`] of n.  A bus without this behavior defines it
    /// as `false`.
    spec fn tagged(&self) -> bool;

    /// The word the n-th read returns on a bus where [`BusHistory::tagged`]
    /// holds.
    spec fn tag_of(&self, n: nat) -> W;
}

/// Full duplex (master mode): exactly one word is sent and exactly one word
/// is received per exchange.
///
/// This is the external collaborator of the blocking adapter layer: a
/// board-support crate implements it for its SPI peripheral.
pub trait FullDuplex<W>: BusHistory<W> + Sized {
    /// An enumeration of SPI errors.
    type Error;

    /// Sends a word to the slave, blocking until the bus is ready.
    ///
    /// On success exactly one `Sent` event carrying `word` is recorded; a
    /// failed send records nothing.
    fn try_send(&mut self, word: W) -> (r: Result<(), Self::Error>)
        ensures
            r is Ok ==> final(self).bus_log() == old(self).bus_log().push(SpiEvent::Sent(word)),
            r is Err ==> final(self).bus_log() == old(self).bus_log(),
            old(self).infallible() ==> r is Ok && final(self).infallible(),
            final(self).echoes() == old(self).echoes(),
            final(self).tagged() == old(self).tagged(),
            forall|n: nat| final(self).tag_of(n) == old(self).tag_of(n),
    ;

    /// Reads the word that the slave clocked back during the last send,
    /// blocking until it is available.
    ///
    /// On success exactly one `Recvd` event carrying the returned word is
    /// recorded; a failed read records nothing.
    fn try_read(&mut self) -> (r: Result<W, Self::Error>)
        ensures
            r matches Ok(w) ==> final(self).bus_log() == old(self).bus_log().push(SpiEvent::Recvd(w)),
            r is Err ==> final(self).bus_log() == old(self).bus_log(),
            old(self).infallible() ==> r is Ok && final(self).infallible(),
            final(self).echoes() == old(self).echoes(),
            final(self).tagged() == old(self).tagged(),
            forall|n: nat| final(self).tag_of(n) == old(self).tag_of(n),
            old(self).echoes() && old(self).bus_log().len() > 0 && old(self).bus_log().last()
                is Sent ==> (r matches Ok(w) ==> w == old(self).bus_log().last()->Sent_0),
            old(self).tagged() ==> (r matches Ok(w) ==> w == old(self).tag_of(
                count_recvs(old(self).bus_log()),
            )),
    ;
}

} // verus!
