//! Default implementation of sequence-consuming blocking write for
//! implementers of the single-word full-duplex primitive.

use vstd::prelude::*;

use crate::blocking::spi::drained_prefix;
use crate::blocking::spi::exchange_log;
use crate::blocking::spi::WriteIter;
use crate::spi::FullDuplex;
use crate::spi::SpiEvent;

verus! {

/// Opt-in marker: an implementer of the single-word full-duplex primitive
/// declares itself eligible for the default bulk `WriteIter` behavior, which
/// is then supplied automatically.
pub trait Default<W>: FullDuplex<W> {}

impl<W: Copy, S: Default<W>> WriteIter<W> for S {
    type Error = <S as FullDuplex<W>>::Error;

    /// Consumes the sequence exactly once, in order: send each word, then
    /// read one word — every send must be drained by a read to keep the
    /// bus's internal state consistent — and discard it.
    fn try_write_iter(&mut self, words: Vec<W>) -> (r: Result<(), <S as FullDuplex<W>>::Error>)
        ensures
            words@.len() == 0 ==> r is Ok,
            r is Err ==> exists|k: int, recvd: Seq<W>|
                k < words@.len() && drained_prefix(
                    old(self).bus_log(),
                    final(self).bus_log(),
                    words@,
                    recvd,
                    k,
                ),
    {
        let n = words.len();
        let mut i: usize = 0;
        let ghost mut recvd: Seq<W> = Seq::empty();
        while i < n
            invariant
                i <= n,
                n == words@.len(),
                recvd.len() == i,
                old(self).infallible() ==> self.infallible(),
                self.bus_log() == old(self).bus_log() + exchange_log(
                    words@.take(i as int),
                    recvd,
                ),
            decreases n - i,
        {
            let w = words[i];
            match self.try_send(w) {
                Ok(u) => {},
                Err(e) => {
                    proof {
                        assert(drained_prefix(
                            old(self).bus_log(),
                            self.bus_log(),
                            words@,
                            recvd,
                            i as int,
                        ));
                    }
                    return Err(e);
                },
            }
            match self.try_read() {
                Ok(rw) => {
                    proof {
                        assert(exchange_log(words@.take(i + 1 as int), recvd.push(rw))
                            =~= exchange_log(words@.take(i as int), recvd).push(
                            SpiEvent::Sent(w),
                        ).push(SpiEvent::Recvd(rw)));
                        recvd = recvd.push(rw);
                        assert(self.bus_log() =~= old(self).bus_log() + exchange_log(
                            words@.take(i + 1 as int),
                            recvd,
                        ));
                    }
                },
                Err(e) => {
                    proof {
                        assert(self.bus_log() =~= old(self).bus_log() + exchange_log(
                            words@.take(i as int),
                            recvd,
                        ).push(SpiEvent::Sent(words@[i as int])));
                        assert(drained_prefix(
                            old(self).bus_log(),
                            self.bus_log(),
                            words@,
                            recvd,
                            i as int,
                        ));
                    }
                    return Err(e);
                },
            }
            i += 1;
        }
        proof {
            assert(words@.take(n as int) =~= words@);
        }
        Ok(())
    }
}

} // verus!
