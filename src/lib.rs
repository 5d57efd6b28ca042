//! Separately buffered duplex streams.
//!
//! A [`BufStream`] keeps one in-memory buffer for the bytes read from a
//! duplex resource and another for the bytes written to it, so that the
//! resource sees few, large reads and writes. The two buffers share no state.
use vstd::prelude::*;

mod resource;
mod writer;
mod adapter;
mod reader;
mod buf_stream;

pub use buf_stream::{BufStream, IntoInnerError, DEFAULT_BUF_SIZE};
pub use resource::Stream;
pub use writer::drain_step;

verus! {

/// A read served `n` bytes from the window `d` into a destination that
/// held `before` and now holds `after`: as many as fit, from the front of
/// `d`; `rest` is what remains of `d`.
pub open spec fn served(d: Seq<u8>, before: Seq<u8>, after: Seq<u8>, rest: Seq<u8>, n: nat) -> bool {
    &&& n == vstd::math::min(before.len() as int, d.len() as int)
    &&& after == d.subrange(0, n as int) + before.subrange(n as int, before.len() as int)
    &&& rest == d.subrange(n as int, d.len() as int)
}

/// The bytes that a run of writes took, in order: the first `ns[i]` bytes
/// of each `datas[i]`.
pub open spec fn taken(datas: Seq<Seq<u8>>, ns: Seq<nat>) -> Seq<u8>
    decreases datas.len(),
{
    if datas.len() == 0 {
        Seq::empty()
    } else {
        taken(datas.drop_last(), ns.drop_last()) + datas.last().subrange(
            0,
            ns[datas.len() - 1] as int,
        )
    }
}

/// Along a run of writes, where `states[i + 1]` is `states[i]` after a
/// write took `ns[i]` bytes of `datas[i]`, the output grows by exactly the
/// bytes taken, in order, while the unconsumed input and both capacities
/// stay as they were.
pub proof fn lemma_writes_accumulate<S: Stream>(
    states: Seq<BufStream<S>>,
    datas: Seq<Seq<u8>>,
    ns: Seq<nat>,
)
    requires
        states.len() == datas.len() + 1,
        ns.len() == datas.len(),
        forall|i: int|
            0 <= i < datas.len() ==> #[trigger] BufStream::took(
                states[i],
                states[i + 1],
                datas[i],
                ns[i],
            ),
    ensures
        states.last().output() == states[0].output() + taken(datas, ns),
        states.last().read_window() == states[0].read_window(),
        states.last().read_capacity() == states[0].read_capacity(),
        states.last().write_capacity() == states[0].write_capacity(),
    decreases datas.len(),
{
    if datas.len() == 0 {
        assert(states[0].output() + taken(datas, ns) =~= states[0].output());
    } else {
        let k = datas.len() - 1;
        let prefix = states.drop_last();
        assert forall|i: int| 0 <= i < datas.drop_last().len() implies #[trigger] BufStream::took(
            prefix[i],
            prefix[i + 1],
            datas.drop_last()[i],
            ns.drop_last()[i],
        ) by {
            assert(BufStream::took(states[i], states[i + 1], datas[i], ns[i]));
        }
        lemma_writes_accumulate(prefix, datas.drop_last(), ns.drop_last());
        assert(BufStream::took(states[k], states[k + 1], datas[k], ns[k]));
        assert(states.last().output() =~= states[0].output() + taken(datas, ns));
    }
}

/// A flush that succeeds after a run of writes hands the resource every
/// byte that those writes took, each once and in order, after what it had
/// been handed before.
pub proof fn lemma_flush_delivers_writes_in_order<S: Stream>(
    states: Seq<BufStream<S>>,
    datas: Seq<Seq<u8>>,
    ns: Seq<nat>,
    after_flush: BufStream<S>,
)
    requires
        states.len() == datas.len() + 1,
        ns.len() == datas.len(),
        forall|i: int|
            0 <= i < datas.len() ==> #[trigger] BufStream::took(
                states[i],
                states[i + 1],
                datas[i],
                ns[i],
            ),
        BufStream::flushed(states.last(), after_flush),
    ensures
        after_flush.written() == states[0].output() + taken(datas, ns),
        after_flush.write_buffer().len() == 0,
{
    lemma_writes_accumulate(states, datas, ns);
}

/// An unwrap that succeeds after a run of writes returns the resource
/// once it has taken every byte that those writes took, each once and in
/// order, after what it had been handed before.
pub proof fn lemma_unwrap_delivers_writes_in_order<S: Stream>(
    states: Seq<BufStream<S>>,
    datas: Seq<Seq<u8>>,
    ns: Seq<nat>,
    resource: S,
)
    requires
        states.len() == datas.len() + 1,
        ns.len() == datas.len(),
        forall|i: int|
            0 <= i < datas.len() ==> #[trigger] BufStream::took(
                states[i],
                states[i + 1],
                datas[i],
                ns[i],
            ),
        BufStream::handed_over(states.last(), resource),
    ensures
        resource.accepted() == states[0].output() + taken(datas, ns),
{
    lemma_writes_accumulate(states, datas, ns);
}

/// A failed unwrap whose resource took none of the buffered bytes hands
/// back a stream that is, in every part the library tracks, the stream
/// before the unwrap: the same unconsumed input, write buffer, bytes
/// written and capacities.
pub proof fn lemma_untouched_recovery_is_the_same_stream<S: Stream>(
    before: BufStream<S>,
    recovered: BufStream<S>,
)
    requires
        BufStream::recovers(before, recovered),
        recovered.write_buffer().len() == before.write_buffer().len(),
    ensures
        recovered.read_window() == before.read_window(),
        recovered.write_buffer() == before.write_buffer(),
        recovered.written() == before.written(),
        recovered.read_capacity() == before.read_capacity(),
        recovered.write_capacity() == before.write_capacity(),
{
    let out = before.output();
    let k = before.written().len();
    assert(recovered.output().len() == recovered.written().len() + recovered.write_buffer().len());
    assert(out.len() == before.written().len() + before.write_buffer().len());
    assert(recovered.written().len() == k);
    assert(recovered.written() =~= out.subrange(0, k as int));
    assert(before.written() =~= out.subrange(0, k as int));
    assert(recovered.write_buffer() =~= out.subrange(k as int, out.len() as int));
    assert(before.write_buffer() =~= out.subrange(k as int, out.len() as int));
}

/// A stream handed back by a failed unwrap takes writes as the stream
/// before the unwrap would have: the same bytes taken from the same data
/// leave the same output, under the same capacity.
pub proof fn lemma_recovered_stream_writes_alike<S: Stream>(
    before: BufStream<S>,
    recovered: BufStream<S>,
    before_next: BufStream<S>,
    recovered_next: BufStream<S>,
    data: Seq<u8>,
    n: nat,
)
    requires
        BufStream::recovers(before, recovered),
        BufStream::took(before, before_next, data, n),
        BufStream::took(recovered, recovered_next, data, n),
    ensures
        recovered_next.output() == before_next.output(),
        recovered_next.write_capacity() == before_next.write_capacity(),
        recovered_next.read_capacity() == before_next.read_capacity(),
{
}

} // verus!
