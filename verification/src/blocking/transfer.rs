//! Default implementation of blocking transfer for implementers of the
//! single-word full-duplex primitive.

use vstd::prelude::*;

use crate::blocking::spi::exchange_log;
use crate::spi::count_recvs;
use crate::blocking::spi::partial_exchange;
use crate::blocking::spi::Transfer;
use crate::spi::FullDuplex;
use crate::spi::SpiEvent;

verus! {

/// Opt-in marker: an implementer of the single-word full-duplex primitive
/// declares itself eligible for the default bulk `Transfer` behavior, which
/// is then supplied automatically.
pub trait Default<W>: FullDuplex<W> {}

impl<W: Copy, S: Default<W>> Transfer<W> for S {
    type Error = <S as FullDuplex<W>>::Error;

    /// Exchanges the words in strictly increasing index order, one at a
    /// time: send the word at a position, then receive one word and
    /// overwrite that position with it.  Strictly send-then-receive, never
    /// pipelined: the full-duplex primitive only guarantees correctness when
    /// a send is immediately followed by its matching receive.
    ///
    /// Against a bus that echoes and cannot fail, the whole transfer
    /// succeeds and hands the caller the original buffer back unchanged.
    fn try_transfer(&mut self, words: &mut Vec<W>) -> (r: Result<
        (),
        <S as FullDuplex<W>>::Error,
    >)
        ensures
            old(words)@.len() == 0 ==> r is Ok,
            r is Err ==> exists|k: int|
                k < old(words)@.len() && partial_exchange(
                    old(self).bus_log(),
                    final(self).bus_log(),
                    old(words)@,
                    final(words)@,
                    k,
                ),
    {
        let n = words.len();
        let mut i: usize = 0;
        while i < n
            invariant
                i <= n,
                n == old(words)@.len(),
                words@.len() == n,
                forall|j: int| i <= j < n ==> words@[j] == old(words)@[j],
                old(self).infallible() ==> self.infallible(),
                self.echoes() == old(self).echoes(),
                self.tagged() == old(self).tagged(),
                forall|n: nat| self.tag_of(n) == old(self).tag_of(n),
                count_recvs(self.bus_log()) == count_recvs(old(self).bus_log()) + i,
                old(self).infallible() && old(self).echoes() ==> forall|j: int|
                    0 <= j < i ==> words@[j] == old(words)@[j],
                old(self).infallible() && old(self).tagged() ==> forall|j: int|
                    0 <= j < i ==> words@[j] == old(self).tag_of(
                        (count_recvs(old(self).bus_log()) + j) as nat,
                    ),
                self.bus_log() == old(self).bus_log() + exchange_log(
                    old(words)@.take(i as int),
                    words@.take(i as int),
                ),
            decreases n - i,
        {
            let ghost prev = words@;
            let ghost log0 = self.bus_log();
            let w = words[i];
            match self.try_send(w) {
                Ok(u) => {},
                Err(e) => {
                    proof {
                        assert(words@.skip(i as int) =~= old(words)@.skip(i as int));
                        assert(partial_exchange(
                            old(self).bus_log(),
                            self.bus_log(),
                            old(words)@,
                            words@,
                            i as int,
                        ));
                    }
                    return Err(e);
                },
            }
            match self.try_read() {
                Ok(rw) => {
                    words[i] = rw;
                    proof {
                        if old(self).infallible() && old(self).echoes() {
                            assert(log0.push(SpiEvent::Sent(w)).last() == SpiEvent::Sent(w));
                            assert(rw == w);
                        }
                        assert(log0.push(SpiEvent::Sent(w)).drop_last() =~= log0);
                        assert(count_recvs(log0.push(SpiEvent::Sent(w))) == count_recvs(log0));
                        assert(log0.push(SpiEvent::Sent(w)).push(SpiEvent::Recvd(rw)).drop_last()
                            =~= log0.push(SpiEvent::Sent(w)));
                        assert(count_recvs(log0.push(SpiEvent::Sent(w)).push(SpiEvent::Recvd(rw)))
                            == count_recvs(log0) + 1);
                        assert(words@ == prev.update(i as int, rw));
                        assert(exchange_log(
                            old(words)@.take(i + 1 as int),
                            words@.take(i + 1 as int),
                        ) =~= exchange_log(old(words)@.take(i as int), prev.take(i as int)).push(
                            SpiEvent::Sent(w),
                        ).push(SpiEvent::Recvd(rw)));
                        assert(self.bus_log() =~= old(self).bus_log() + exchange_log(
                            old(words)@.take(i + 1 as int),
                            words@.take(i + 1 as int),
                        ));
                    }
                },
                Err(e) => {
                    proof {
                        assert(words@.skip(i as int) =~= old(words)@.skip(i as int));
                        assert(self.bus_log() =~= old(self).bus_log() + exchange_log(
                            old(words)@.take(i as int),
                            words@.take(i as int),
                        ).push(SpiEvent::Sent(old(words)@[i as int])));
                        assert(partial_exchange(
                            old(self).bus_log(),
                            self.bus_log(),
                            old(words)@,
                            words@,
                            i as int,
                        ));
                    }
                    return Err(e);
                },
            }
            i += 1;
        }
        proof {
            assert(old(words)@.take(n as int) =~= old(words)@);
            assert(words@.take(n as int) =~= words@);
            if old(self).infallible() && old(self).echoes() {
                assert(words@ =~= old(words)@);
            }
        }
        Ok(())
    }
}

} // verus!
