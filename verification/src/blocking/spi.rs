//! Blocking SPI API: multi-word bus capabilities and the specification of
//! how a bulk operation extends the bus history.

use vstd::prelude::*;

use crate::spi::count_recvs;
use crate::spi::count_sends;
use crate::spi::BusHistory;
use crate::spi::SpiEvent;

verus! {

/// The history a bulk operation appends when every word of `sent` is
/// exchanged: for each position in order, one `Sent` event immediately
/// followed by the matching `Recvd` event.
pub open spec fn exchange_log<W>(sent: Seq<W>, recvd: Seq<W>) -> Seq<SpiEvent<W>>
    recommends
        recvd.len() == sent.len(),
{
    Seq::new(
        2 * sent.len(),
        |i: int|
            if i % 2 == 0 {
                SpiEvent::Sent(sent[i / 2])
            } else {
                SpiEvent::Recvd(recvd[i / 2])
            },
    )
}

/// How an aborted bulk operation leaves the bus history: the first `k` words
/// of `sent` were fully exchanged (receiving `recvd`), and at the first
/// failure the loop stopped — either before the next send, or after a send
/// whose matching read failed, which leaves one trailing `Sent` event.  No
/// event concerns any position past `k`.
///
/// `k` may equal `sent.len()` by design: the chip-select wrapper reports an
/// error after a *complete* exchange when deasserting the pin fails.  The
/// adapter implementations themselves abort strictly before the end; their
/// own `ensures` add `k < sent.len()`.
pub open spec fn drained_prefix<W>(
    pre: Seq<SpiEvent<W>>,
    post: Seq<SpiEvent<W>>,
    sent: Seq<W>,
    recvd: Seq<W>,
    k: int,
) -> bool {
    &&& 0 <= k <= sent.len()
    &&& recvd.len() == k
    &&& (post == pre + exchange_log(sent.take(k), recvd) || (k < sent.len() && post == pre
        + exchange_log(sent.take(k), recvd).push(SpiEvent::Sent(sent[k]))))
}

/// How an aborted `transfer` leaves both the bus history and the caller's
/// buffer: the first `k` positions were exchanged and overwritten with the
/// received words, every later position is untouched.
pub open spec fn partial_exchange<W>(
    pre: Seq<SpiEvent<W>>,
    post: Seq<SpiEvent<W>>,
    before: Seq<W>,
    after: Seq<W>,
    k: int,
) -> bool {
    &&& after.len() == before.len()
    &&& after.skip(k) == before.skip(k)
    &&& drained_prefix(pre, post, before, after.take(k), k)
}

/// How an aborted `transfer` leaves the bus history and the caller's
/// buffer, with the failing position unnamed: for some `k`, the first `k`
/// positions were exchanged and overwritten, everything later is untouched.
pub open spec fn aborted_exchange<W>(
    pre: Seq<SpiEvent<W>>,
    post: Seq<SpiEvent<W>>,
    before: Seq<W>,
    after: Seq<W>,
) -> bool {
    exists|k: int| partial_exchange(pre, post, before, after, k)
}

/// A completed write: every word of `sent` was exchanged in order, and every
/// received word was drained by a read and discarded.
pub open spec fn drained_all<W>(
    pre: Seq<SpiEvent<W>>,
    post: Seq<SpiEvent<W>>,
    sent: Seq<W>,
) -> bool {
    exists|recvd: Seq<W>|
        recvd.len() == sent.len() && post == pre + exchange_log(sent, recvd)
}

/// An aborted write: for some `k`, only the first `k` words of `sent` were
/// fully exchanged before the first failure stopped the loop.
pub open spec fn drained_some<W>(
    pre: Seq<SpiEvent<W>>,
    post: Seq<SpiEvent<W>>,
    sent: Seq<W>,
) -> bool {
    exists|k: int, recvd: Seq<W>| drained_prefix(pre, post, sent, recvd, k)
}

/// Blocking transfer.
pub trait Transfer<W>: BusHistory<W> + Sized {
    /// An enumeration of SPI errors.
    type Error;

    /// Sends `words` to the slave; on success each position of `words` holds
    /// the word received in exchange for the word originally at that
    /// position.
    ///
    /// The first failing word aborts the whole operation: words already
    /// exchanged remain exchanged, later positions are untouched, and no
    /// event past the failing position reaches the bus.
    fn try_transfer(&mut self, words: &mut Vec<W>) -> (r: Result<(), Self::Error>)
        ensures
            final(words)@.len() == old(words)@.len(),
            r is Ok ==> final(self).bus_log() == old(self).bus_log() + exchange_log(
                old(words)@,
                final(words)@,
            ),
            r is Err ==> aborted_exchange(
                old(self).bus_log(),
                final(self).bus_log(),
                old(words)@,
                final(words)@,
            ),
            old(self).infallible() ==> r is Ok && final(self).infallible(),
            old(self).infallible() && old(self).echoes() ==> final(words)@ == old(words)@,
            old(self).infallible() && old(self).tagged() ==> forall|j: int|
                0 <= j < old(words)@.len() ==> final(words)@[j] == old(self).tag_of(
                    (count_recvs(old(self).bus_log()) + j) as nat,
                ),
    ;
}

/// Blocking write.
pub trait Write<W>: BusHistory<W> + Sized {
    /// An enumeration of SPI errors.
    type Error;

    /// Sends `words` to the slave, draining and discarding every incoming
    /// word: exactly one read is issued for every send, and no received word
    /// is returned.
    ///
    /// The first failing word aborts the whole operation; no event past the
    /// failing position reaches the bus.
    fn try_write(&mut self, words: &Vec<W>) -> (r: Result<(), Self::Error>)
        ensures
            r is Ok ==> drained_all(old(self).bus_log(), final(self).bus_log(), words@),
            r is Err ==> drained_some(old(self).bus_log(), final(self).bus_log(), words@),
            old(self).infallible() ==> r is Ok && final(self).infallible(),
    ;
}

/// Blocking write (sequence-consuming version).
pub trait WriteIter<W>: BusHistory<W> + Sized {
    /// An enumeration of SPI errors.
    type Error;

    /// Sends `words` to the slave exactly once, in order, consuming the
    /// sequence and draining and discarding every incoming word.
    ///
    /// The first failing word aborts the whole operation; no event past the
    /// failing position reaches the bus.
    fn try_write_iter(&mut self, words: Vec<W>) -> (r: Result<(), Self::Error>)
        ensures
            r is Ok ==> drained_all(old(self).bus_log(), final(self).bus_log(), words@),
            r is Err ==> drained_some(old(self).bus_log(), final(self).bus_log(), words@),
            old(self).infallible() ==> r is Ok && final(self).infallible(),
    ;
}

/// `ManagedCs` marker capability: every bus operation of the implementation
/// is preceded by asserting the chip-select pin and followed by deasserting
/// it.
///
/// A capability carrying this marker must **not** be handed to another
/// chip-select-managing wrapper: the chip select would toggle twice per
/// operation.  Rust cannot reject such a double wrap at construction (there
/// are no negative trait bounds), so this remains a documented caller
/// obligation.
pub trait ManagedCs {}

/// Counting sends and reads distributes over concatenation of histories.
pub proof fn lemma_counts_concat<W>(a: Seq<SpiEvent<W>>, b: Seq<SpiEvent<W>>)
    ensures
        count_sends(a + b) == count_sends(a) + count_sends(b),
        count_recvs(a + b) == count_recvs(a) + count_recvs(b),
    decreases b.len(),
{
    if b.len() == 0 {
        assert(a + b =~= a);
    } else {
        lemma_counts_concat(a, b.drop_last());
        assert((a + b).drop_last() =~= a + b.drop_last());
        assert((a + b).last() == b.last());
    }
}

/// The exchange history of a bulk operation alternates strictly: the event
/// at position `2 * i` is the send of word `i` and the event immediately
/// after it is the matching receive — no reordering, no batching.
pub proof fn lemma_exchange_log_alternates<W>(sent: Seq<W>, recvd: Seq<W>)
    requires
        recvd.len() == sent.len(),
    ensures
        exchange_log(sent, recvd).len() == 2 * sent.len(),
        forall|i: int|
            0 <= i < sent.len() ==> exchange_log(sent, recvd)[2 * i] == SpiEvent::Sent(sent[i]),
        forall|i: int|
            0 <= i < sent.len() ==> exchange_log(sent, recvd)[2 * i + 1] == SpiEvent::Recvd(
                recvd[i],
            ),
{
    assert forall|i: int| 0 <= i < sent.len() implies exchange_log(sent, recvd)[2 * i]
        == SpiEvent::Sent(sent[i]) by {
        assert((2 * i) % 2 == 0);
        assert((2 * i) / 2 == i);
    }
    assert forall|i: int| 0 <= i < sent.len() implies exchange_log(sent, recvd)[2 * i + 1]
        == SpiEvent::Recvd(recvd[i]) by {
        assert((2 * i + 1) % 2 == 1);
        assert((2 * i + 1) / 2 == i);
    }
}

/// A completed bulk operation issues exactly one read for every send: the
/// exchange history of `sent` holds exactly `sent.len()` sends and exactly
/// as many reads.
pub proof fn lemma_write_drains_reads<W>(sent: Seq<W>, recvd: Seq<W>)
    requires
        recvd.len() == sent.len(),
    ensures
        count_sends(exchange_log(sent, recvd)) == sent.len(),
        count_recvs(exchange_log(sent, recvd)) == sent.len(),
    decreases sent.len(),
{
    if sent.len() == 0 {
        assert(exchange_log(sent, recvd) =~= Seq::<SpiEvent<W>>::empty());
    } else {
        let s1 = sent.drop_last();
        let r1 = recvd.drop_last();
        lemma_write_drains_reads(s1, r1);
        let e = exchange_log(sent, recvd);
        let e1 = exchange_log(s1, r1);
        let n = sent.len() as int;
        assert((2 * n - 1) % 2 == 1);
        assert((2 * n - 1) / 2 == n - 1);
        assert((2 * n - 2) % 2 == 0);
        assert((2 * n - 2) / 2 == n - 1);
        assert(e.last() == SpiEvent::Recvd(recvd[n - 1]));
        assert(e.drop_last().drop_last() =~= e1);
        assert(e.drop_last().last() == e[2 * n - 2]);
        assert(e.drop_last().last() == SpiEvent::Sent(sent[n - 1]));
        assert(count_sends(e) == count_sends(e.drop_last()));
        assert(count_sends(e.drop_last()) == count_sends(e1) + 1);
        assert(count_recvs(e) == count_recvs(e.drop_last()) + 1);
        assert(count_recvs(e.drop_last()) == count_recvs(e1));
    }
}

/// A bus history echoes when every received word equals the word sent
/// immediately before it.
pub open spec fn echo_log<W>(log: Seq<SpiEvent<W>>) -> bool {
    forall|i: int| #![trigger log[i]]
        0 <= i < log.len() && log[i] is Recvd ==> i >= 1 && log[i - 1] is Sent && log[i]->Recvd_0
            == log[i - 1]->Sent_0
}

/// Round-trip exchange: a `transfer` against a bus that echoes each sent
/// word back hands the caller the original buffer, unchanged.
pub proof fn lemma_round_trip<W>(
    pre: Seq<SpiEvent<W>>,
    post: Seq<SpiEvent<W>>,
    before: Seq<W>,
    after: Seq<W>,
)
    requires
        after.len() == before.len(),
        post == pre + exchange_log(before, after),
        echo_log(post),
    ensures
        after == before,
{
    assert forall|i: int| 0 <= i < before.len() implies after[i] == before[i] by {
        let j = pre.len() + 2 * i + 1;
        assert((2 * i) % 2 == 0);
        assert((2 * i) / 2 == i);
        assert((2 * i + 1) % 2 == 1);
        assert((2 * i + 1) / 2 == i);
        assert(post[j] == exchange_log(before, after)[2 * i + 1]);
        assert(post[j] == SpiEvent::Recvd(after[i]));
        assert(post[j - 1] == SpiEvent::Sent(before[i]));
        assert(post[j] is Recvd);
    }
    assert(after =~= before);
}

/// A bus history is position-tagged when each received word carries the
/// number of reads that preceded it, wrapped at the word size.
pub open spec fn position_tagged(log: Seq<SpiEvent<u8>>) -> bool {
    forall|i: int| #![trigger log[i]]
        0 <= i < log.len() && log[i] is Recvd ==> log[i]->Recvd_0 == ((count_recvs(
            log.take(i),
        ) % 256) as u8)
}

/// Count of reads in the prefix of an exchange history that ends just after
/// the send of word `i`: exactly the `i` reads of the completed exchanges.
proof fn lemma_exchange_prefix_counts(before: Seq<u8>, after: Seq<u8>, i: int)
    requires
        after.len() == before.len(),
        0 <= i < before.len(),
    ensures
        count_recvs(exchange_log(before, after).take(2 * i + 1)) == i,
{
    let e = exchange_log(before, after);
    let p = exchange_log(before.take(i), after.take(i));
    assert(e.take(2 * i + 1) =~= p.push(SpiEvent::Sent(before[i])));
    lemma_write_drains_reads(before.take(i), after.take(i));
    assert(p.push(SpiEvent::Sent(before[i])).drop_last() =~= p);
}

/// Sequential ordering: a `transfer` against a fresh position-tagged bus
/// receives tag `i` (wrapped at the word size) at buffer position `i` —
/// words are exchanged in strictly increasing index order.
pub proof fn lemma_sequential_ordering(before: Seq<u8>, after: Seq<u8>)
    requires
        after.len() == before.len(),
        position_tagged(exchange_log(before, after)),
    ensures
        forall|i: int| 0 <= i < after.len() ==> after[i] == ((i % 256) as u8),
{
    let e = exchange_log(before, after);
    assert forall|i: int| 0 <= i < after.len() implies after[i] == ((i % 256) as u8) by {
        assert((2 * i + 1) % 2 == 1);
        assert((2 * i + 1) / 2 == i);
        assert(e[2 * i + 1] == SpiEvent::Recvd(after[i]));
        assert(e[2 * i + 1] is Recvd);
        lemma_exchange_prefix_counts(before, after, i);
    }
}

/// First-failure-aborts: an aborted bulk operation drained exactly the `k`
/// reads of the completed exchanges and issued at most one send beyond
/// them; no event for any position past the failing one reached the bus.
pub proof fn lemma_first_failure_aborts<W>(
    pre: Seq<SpiEvent<W>>,
    post: Seq<SpiEvent<W>>,
    sent: Seq<W>,
    recvd: Seq<W>,
    k: int,
)
    requires
        drained_prefix(pre, post, sent, recvd, k),
    ensures
        count_recvs(post) == count_recvs(pre) + k,
        count_sends(post) == count_sends(pre) + k || count_sends(post) == count_sends(pre) + k
            + 1,
        post.len() <= pre.len() + 2 * k + 1,
{
    lemma_write_drains_reads(sent.take(k), recvd);
    let e = exchange_log(sent.take(k), recvd);
    if post == pre + e {
        lemma_counts_concat(pre, e);
    } else {
        let e2 = e.push(SpiEvent::Sent(sent[k]));
        lemma_counts_concat(pre, e2);
        assert(e2.drop_last() =~= e);
    }
}

} // verus!
