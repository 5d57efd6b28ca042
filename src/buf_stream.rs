//! The composite stream: an input buffer and an output buffer over one
//! duplex resource.
use vstd::prelude::*;

use crate::adapter::InternalBufWriter;
use crate::reader::BufReader;
use crate::resource::Stream;
use crate::served;
use crate::writer::BufWriter;

verus! {

/// The capacity of each buffer of a stream made by [`BufStream::new`].
pub const DEFAULT_BUF_SIZE: usize = 65536;

/// Wraps a duplex resource and buffers input from it and output to it.
///
/// Every `read` or `write` on a resource such as a socket may cost a system
/// call. A `BufStream` keeps the bytes in memory and makes large,
/// infrequent calls to the resource instead. The read buffer and the write
/// buffer are independent of each other.
pub struct BufStream<S> {
    inner: BufReader<S>,
}

/// The error returned by [`BufStream::into_inner`] when the final flush
/// fails: the error, with the stream, whose unsent output is kept.
pub struct IntoInnerError<W>(W, std::io::Error);

impl<W> IntoInnerError<W> {
    /// The value handed back with the error.
    pub closed spec fn recovered(&self) -> W {
        self.0
    }

    /// The error that the flush met.
    pub closed spec fn failure(&self) -> std::io::Error {
        self.1
    }

    /// The error that the flush met.
    pub fn error(&self) -> (e: &std::io::Error)
        ensures
            *e == self.failure(),
    {
        &self.1
    }

    /// Gives back the value, dropping the error.
    pub fn into_inner(self) -> (w: W)
        ensures
            w == self.recovered(),
    {
        self.0
    }
}

impl<S: Stream> BufStream<S> {
    /// The stream's internal state is consistent.
    pub closed spec fn wf(&self) -> bool {
        self.inner.wf()
    }

    /// The capacity of the read buffer.
    pub closed spec fn read_capacity(&self) -> nat {
        self.inner.cap()
    }

    /// The bytes read from the resource and not yet consumed.
    pub closed spec fn read_window(&self) -> Seq<u8> {
        self.inner.window()
    }

    /// The capacity of the write buffer.
    pub closed spec fn write_capacity(&self) -> nat {
        self.inner.inner.writer().cap as nat
    }

    /// The bytes written to the stream and not yet handed to the resource.
    pub closed spec fn write_buffer(&self) -> Seq<u8> {
        self.inner.inner.writer().buf@
    }

    /// Every byte that the resource has accepted from writes, in order, as
    /// its own model shows it.
    pub open spec fn written(&self) -> Seq<u8> {
        self.resource().accepted()
    }

    /// Everything the stream has accepted for output: what reached the
    /// resource, then what is still buffered.
    pub open spec fn output(&self) -> Seq<u8> {
        self.written() + self.write_buffer()
    }

    /// The wrapped resource.
    pub closed spec fn resource(&self) -> S {
        self.inner.inner.writer().inner
    }

    /// `after` is `before` once a write has taken the first `n` bytes of
    /// `data`: they follow the earlier output, and the read side and the
    /// capacities are as they were.
    pub open spec fn took(before: BufStream<S>, after: BufStream<S>, data: Seq<u8>, n: nat) -> bool {
        &&& n <= data.len()
        &&& after.output() == before.output() + data.subrange(0, n as int)
        &&& after.write_capacity() == before.write_capacity()
        &&& after.read_capacity() == before.read_capacity()
        &&& after.read_window() == before.read_window()
    }

    /// `after` is `before` once a flush has succeeded: every byte of the
    /// output has reached the resource, and the read side and the
    /// capacities are as they were.
    pub open spec fn flushed(before: BufStream<S>, after: BufStream<S>) -> bool {
        &&& after.write_buffer().len() == 0
        &&& after.written() == before.output()
        &&& after.write_capacity() == before.write_capacity()
        &&& after.read_capacity() == before.read_capacity()
        &&& after.read_window() == before.read_window()
    }

    /// `after` is what a failed unwrap of `before` hands back: a consistent
    /// stream with the same output, capacities and unconsumed input, whose
    /// write buffer lost at most a prefix, the part that reached the
    /// resource, and still holds at least one byte.
    pub open spec fn recovers(before: BufStream<S>, after: BufStream<S>) -> bool {
        &&& after.wf()
        &&& after.output() == before.output()
        &&& 0 < after.write_buffer().len() <= before.write_buffer().len()
        &&& after.write_capacity() == before.write_capacity()
        &&& after.read_capacity() == before.read_capacity()
        &&& after.read_window() == before.read_window()
        &&& after.resource().input() == before.resource().input()
    }

    /// `resource` is what a successful unwrap of `before` hands back: the
    /// wrapped resource once it has accepted the buffered bytes after those
    /// it had, and was not read from.
    pub open spec fn handed_over(before: BufStream<S>, resource: S) -> bool {
        &&& resource.accepted() == before.resource().accepted() + before.write_buffer()
        &&& resource.input() == before.resource().input()
    }

    /// The bounds that every consistent stream keeps: neither buffer holds
    /// more than its capacity.
    pub proof fn lemma_buffers_within_capacity(&self)
        requires
            self.wf(),
        ensures
            self.write_buffer().len() <= self.write_capacity(),
            self.read_window().len() <= self.read_capacity(),
    {
    }

    /// Wraps `inner` with a read buffer of `reader_cap` bytes and a write
    /// buffer of `writer_cap` bytes.
    pub fn with_capacities(reader_cap: usize, writer_cap: usize, inner: S) -> (r: BufStream<S>)
        ensures
            r.wf(),
            r.resource() == inner,
            r.read_capacity() == reader_cap,
            r.write_capacity() == writer_cap,
            r.read_window() == Seq::<u8>::empty(),
            r.write_buffer() == Seq::<u8>::empty(),
    {
        let writer = BufWriter::with_capacity(writer_cap, inner);
        let internal_writer = InternalBufWriter(Some(writer));
        let reader = BufReader::with_capacity(reader_cap, internal_writer);
        BufStream { inner: reader }
    }

    /// Wraps `inner` with buffers of [`DEFAULT_BUF_SIZE`] bytes each.
    pub fn new(inner: S) -> (r: BufStream<S>)
        ensures
            r.wf(),
            r.resource() == inner,
            r.read_capacity() == DEFAULT_BUF_SIZE,
            r.write_capacity() == DEFAULT_BUF_SIZE,
            r.read_window() == Seq::<u8>::empty(),
            r.write_buffer() == Seq::<u8>::empty(),
    {
        BufStream::with_capacities(DEFAULT_BUF_SIZE, DEFAULT_BUF_SIZE, inner)
    }

    /// A reference to the resource. Reading from or writing to it directly
    /// bypasses the buffers.
    pub fn get_ref(&self) -> (r: &S)
        requires
            self.wf(),
        ensures
            *r == self.resource(),
    {
        &self.inner.inner.get_ref().inner
    }

    /// A mutable reference to the resource. Reading from or writing to it
    /// directly bypasses the buffers and is inadvisable.
    pub fn get_mut(&mut self) -> (r: &mut S)
        requires
            old(self).wf(),
        ensures
            *r == old(self).resource(),
            final(self).wf(),
            final(self).resource() == *final(r),
            final(self).read_capacity() == old(self).read_capacity(),
            final(self).read_window() == old(self).read_window(),
            final(self).write_capacity() == old(self).write_capacity(),
            final(self).write_buffer() == old(self).write_buffer(),
    {
        &mut self.inner.inner.get_mut().inner
    }

    /// Unwraps the stream and returns the resource, after handing it every
    /// buffered output byte; with none buffered, no call is made. Unconsumed
    /// input is lost. When the resource fails to take the output, the error
    /// comes back with the stream, which keeps its unsent output and its
    /// unconsumed input.
    pub fn into_inner(self) -> (r: Result<S, IntoInnerError<BufStream<S>>>)
        requires
            self.wf(),
        ensures
            self.write_buffer().len() == 0 ==> (r matches Ok(x) && x == self.resource()),
            r matches Ok(x) ==> Self::handed_over(self, x),
            r matches Err(e) ==> Self::recovers(self, e.recovered()),
    {
        let mut stream = self;
        // The slot stays empty only until the writer is put back or dropped.
        let writer = stream.inner.inner.0.take().unwrap();
        match writer.into_inner() {
            Ok(resource) => Ok(resource),
            Err((e, writer)) => {
                stream.inner.inner.0 = Some(writer);
                Err(IntoInnerError(stream, e))
            },
        }
    }

    /// Returns the unconsumed input, first refilling the read buffer with
    /// one read from the resource when it is empty.
    pub fn fill_buf(&mut self) -> (r: Result<&[u8], std::io::Error>)
        requires
            old(self).wf(),
        ensures
            final(self).wf(),
            final(self).read_capacity() == old(self).read_capacity(),
            final(self).write_capacity() == old(self).write_capacity(),
            final(self).write_buffer() == old(self).write_buffer(),
            final(self).written() == old(self).written(),
            old(self).read_window().len() > 0 ==> *final(self) == *old(self),
            final(self).read_window().len() <= final(self).read_capacity(),
            old(self).read_window().len() == 0 && r is Ok ==> old(self).resource().input()
                == final(self).read_window() + final(self).resource().input(),
            old(self).read_window().len() == 0 && r is Ok && old(self).read_capacity() > 0
                && old(self).resource().input().len() > 0 ==> final(self).read_window().len() > 0,
            r matches Ok(s) ==> s@ == final(self).read_window(),
            r is Err ==> final(self).read_window().len() == 0 && final(self).resource().input()
                == old(self).resource().input(),
    {
        self.inner.fill_buf()
    }

    /// Consumes `amt` bytes of the unconsumed input, or all of it when
    /// `amt` is larger.
    pub fn consume(&mut self, amt: usize)
        requires
            old(self).wf(),
        ensures
            final(self).wf(),
            final(self).read_capacity() == old(self).read_capacity(),
            final(self).write_capacity() == old(self).write_capacity(),
            final(self).write_buffer() == old(self).write_buffer(),
            final(self).written() == old(self).written(),
            final(self).resource() == old(self).resource(),
            amt <= old(self).read_window().len() ==> final(self).read_window() == old(
                self,
            ).read_window().subrange(amt as int, old(self).read_window().len() as int),
            amt > old(self).read_window().len() ==> final(self).read_window().len() == 0,
    {
        self.inner.consume(amt)
    }

    /// Reads into `buf` and returns how many bytes were read; zero at end
    /// of stream. Buffered input is served first. With none buffered, a
    /// `buf` longer than the read capacity is read straight from the
    /// resource; a shorter one after one refill of the read buffer. An
    /// empty `buf` reads nothing and does not touch the resource.
    pub fn read(&mut self, buf: &mut [u8]) -> (r: Result<usize, std::io::Error>)
        requires
            old(self).wf(),
        ensures
            final(self).wf(),
            final(buf)@.len() == old(buf)@.len(),
            final(self).read_capacity() == old(self).read_capacity(),
            final(self).write_capacity() == old(self).write_capacity(),
            final(self).write_buffer() == old(self).write_buffer(),
            final(self).written() == old(self).written(),
            r matches Ok(n) ==> n <= old(buf)@.len(),
            old(buf)@.len() == 0 ==> (r matches Ok(n) && n == 0 && *final(self) == *old(self)),
            old(self).read_window().len() > 0 ==> (r matches Ok(n) && served(
                old(self).read_window(),
                old(buf)@,
                final(buf)@,
                final(self).read_window(),
                n as nat,
            )),
            old(self).read_window().len() > 0 ==> final(self).resource() == old(self).resource(),
            old(self).read_window().len() == 0 && old(buf)@.len() > old(self).read_capacity()
                ==> final(self).read_window().len() == 0,
            old(self).read_window().len() == 0 && old(buf)@.len() > old(self).read_capacity()
                && r is Ok ==> old(self).resource().input() == final(buf)@.subrange(
                0,
                r->Ok_0 as int,
            ) + final(self).resource().input(),
            old(self).read_window().len() == 0 && 0 < old(buf)@.len() <= old(self).read_capacity()
                && r is Ok ==> old(self).resource().input() == final(buf)@.subrange(
                0,
                r->Ok_0 as int,
            ) + final(self).read_window() + final(self).resource().input(),
            old(self).read_window().len() == 0 && 0 < old(buf)@.len() && old(self).resource().input().len()
                > 0 && r is Ok ==> r->Ok_0 > 0,
            old(self).read_window().len() == 0 && 0 < old(buf)@.len() <= old(self).read_capacity()
                && r is Ok ==> {
                &&& r->Ok_0 + final(self).read_window().len() <= old(self).read_capacity()
                &&& served(
                    final(buf)@.subrange(0, r->Ok_0 as int) + final(self).read_window(),
                    old(buf)@,
                    final(buf)@,
                    final(self).read_window(),
                    r->Ok_0 as nat,
                )
            },
            old(self).read_window().len() == 0 && r is Err ==> final(self).read_window().len() == 0
                && final(self).resource().input() == old(self).resource().input(),
    {
        self.inner.read(buf)
    }

    /// Writes `buf` and returns how many bytes were taken. Bytes that fit
    /// in the write buffer beside those already there are only buffered.
    /// Otherwise the buffered bytes are handed to the resource first; then
    /// `buf` is buffered, or, when it is longer than the write capacity,
    /// handed straight to the resource. An error leaves the output as it
    /// was.
    pub fn write(&mut self, buf: &[u8]) -> (r: Result<usize, std::io::Error>)
        requires
            old(self).wf(),
        ensures
            final(self).wf(),
            final(self).read_capacity() == old(self).read_capacity(),
            final(self).read_window() == old(self).read_window(),
            final(self).write_capacity() == old(self).write_capacity(),
            final(self).resource().input() == old(self).resource().input(),
            r matches Ok(n) ==> Self::took(*old(self), *final(self), buf@, n as nat),
            r is Err ==> final(self).output() == old(self).output()
                && final(self).write_buffer().len() <= old(self).write_buffer().len(),
            old(self).write_buffer().len() + buf@.len() <= old(self).write_capacity() ==> {
                &&& r matches Ok(n) && n == buf@.len()
                &&& final(self).write_buffer() == old(self).write_buffer() + buf@
                &&& final(self).written() == old(self).written()
                &&& final(self).resource() == old(self).resource()
            },
            old(self).write_buffer().len() + buf@.len() > old(self).write_capacity() ==> (r matches Ok(
                n,
            ) ==> {
                &&& buf@.len() > old(self).write_capacity() ==> final(self).write_buffer().len() == 0
                    && final(self).written() == old(self).output() + buf@.subrange(0, n as int)
                &&& buf@.len() <= old(self).write_capacity() ==> n == buf@.len()
                    && final(self).write_buffer() == buf@ && final(self).written() == old(
                    self,
                ).output()
            }),
    {
        self.inner.inner.get_mut().write(buf)
    }

    /// Hands every buffered output byte to the resource, in order, then
    /// flushes the resource. On failure the bytes that the resource did
    /// not take stay buffered.
    pub fn flush(&mut self) -> (r: Result<(), std::io::Error>)
        requires
            old(self).wf(),
        ensures
            final(self).wf(),
            final(self).read_capacity() == old(self).read_capacity(),
            final(self).read_window() == old(self).read_window(),
            final(self).write_capacity() == old(self).write_capacity(),
            final(self).output() == old(self).output(),
            final(self).write_buffer().len() <= old(self).write_buffer().len(),
            old(self).write_buffer().len() == 0 ==> final(self).write_buffer().len() == 0
                && final(self).written() == old(self).written(),
            final(self).resource().input() == old(self).resource().input(),
            r is Ok ==> Self::flushed(*old(self), *final(self)),
    {
        self.inner.inner.get_mut().flush()
    }
}

} // verus!
