//! The output buffer: collects written bytes and hands them to the
//! resource in bulk.
use vstd::prelude::*;
use vstd::slice::slice_subrange;

use crate::resource::{write_zero_error, Stream};

verus! {

/// Decides how a flush goes on after the resource answered a write of
/// the buffered bytes from `written` up to `len`: the new count of bytes
/// handed over, or `None` when the flush must stop. It stops on an error,
/// which is passed on, and on a write that took nothing, which is reported
/// as `WriteZero`.
pub fn drain_step(written: usize, len: usize, r: &Result<usize, std::io::Error>) -> (next: Option<
    usize,
>)
    requires
        written <= len,
        r matches Ok(n) ==> n <= len - written,
    ensures
        next == match r {
            Ok(n) => if *n > 0 {
                Some((written + *n) as usize)
            } else {
                None
            },
            Err(_) => None,
        },
{
    match r {
        Ok(n) => if *n == 0 {
            None
        } else {
            Some(written + *n)
        },
        Err(_) => None,
    }
}

/// Buffers the bytes written to a resource: `buf` holds the bytes taken
/// from the caller and not yet handed on.
pub(crate) struct BufWriter<S> {
    pub(crate) inner: S,
    pub(crate) buf: Vec<u8>,
    pub(crate) cap: usize,
}

impl<S: Stream> BufWriter<S> {
    pub(crate) open spec fn wf(&self) -> bool {
        self.buf@.len() <= self.cap
    }

    /// Everything written through this buffer, as far as the resource
    /// shows it: what the resource has accepted, followed by what still
    /// waits in the buffer.
    pub(crate) open spec fn output(&self) -> Seq<u8> {
        self.inner.accepted() + self.buf@
    }

    pub(crate) fn with_capacity(cap: usize, inner: S) -> (w: Self)
        ensures
            w.wf(),
            w.inner == inner,
            w.cap == cap,
            w.buf@ == Seq::<u8>::empty(),
    {
        BufWriter { inner, buf: Vec::with_capacity(cap), cap }
    }

    /// Hands the buffered bytes to the resource, in order. On failure the
    /// bytes that the resource did not accept stay buffered. It succeeds
    /// exactly when the resource took the whole buffer; an empty buffer
    /// makes no call.
    pub(crate) fn flush_buf(&mut self) -> (r: Result<(), std::io::Error>)
        ensures
            final(self).inner.accepted() + final(self).buf@ == old(self).inner.accepted() + old(self).buf@,
            final(self).inner.input() == old(self).inner.input(),
            final(self).cap == old(self).cap,
            final(self).buf@.len() <= old(self).buf@.len(),
            old(self).buf@.len() == 0 ==> *final(self) == *old(self) && r is Ok,
            r is Ok <==> final(self).buf@.len() == 0,
    {
        let len = self.buf.len();
        if len == 0 {
            return Ok(());
        }
        let mut written: usize = 0;
        let mut failure: Option<std::io::Error> = None;
        while written < len && failure.is_none()
            invariant
                written <= len == self.buf@.len(),
                failure is Some ==> written < len,
                self.cap == old(self).cap,
                self.buf@ == old(self).buf@,
                self.inner.input() == old(self).inner.input(),
                self.inner.accepted() == old(self).inner.accepted() + old(self).buf@.subrange(
                    0,
                    written as int,
                ),
            decreases len - written, if failure is None { 1int } else { 0int },
        {
            let ghost before = self.inner.accepted();
            let r = self.inner.write(slice_subrange(self.buf.as_slice(), written, len));
            match drain_step(written, len, &r) {
                Some(next) => {
                    proof {
                        assert(old(self).buf@.subrange(0, written as int) + old(self).buf@.subrange(
                            written as int,
                            next as int,
                        ) =~= old(self).buf@.subrange(0, next as int));
                        assert(self.buf@.subrange(written as int, len as int).subrange(
                            0,
                            (next - written) as int,
                        ) =~= old(self).buf@.subrange(written as int, next as int));
                        assert(self.inner.accepted() =~= old(self).inner.accepted() + old(self).buf@.subrange(0, next as int));
                    }
                    written = next;
                },
                None => {
                    proof {
                        if r is Ok {
                            assert(self.buf@.subrange(written as int, len as int).subrange(0, 0)
                                =~= Seq::<u8>::empty());
                            assert(self.inner.accepted() =~= before);
                        }
                    }
                    failure = Some(
                        match r {
                            Ok(_) => write_zero_error(),
                            Err(e) => e,
                        },
                    );
                },
            }
        }
        let mut rest: Vec<u8> = Vec::with_capacity(self.cap);
        let mut i: usize = written;
        while i < len
            invariant
                written <= i <= len == self.buf@.len(),
                rest@ == self.buf@.subrange(written as int, i as int),
            decreases len - i,
        {
            rest.push(self.buf[i]);
            i = i + 1;
        }
        proof {
            assert(self.buf@ =~= self.buf@.subrange(0, written as int) + rest@);
        }
        self.buf = rest;
        proof {
            assert(self.inner.accepted() + self.buf@ =~= old(self).inner.accepted() + old(self).buf@);
        }
        match failure {
            Some(e) => Err(e),
            None => Ok(()),
        }
    }

    /// Accepts `data`. Bytes that fit beside those already buffered are only
    /// buffered. Otherwise the buffer is flushed first; then `data` is
    /// buffered, or, when it is longer than the capacity, written straight
    /// to the resource with one call, whose answer is returned.
    pub(crate) fn write(&mut self, data: &[u8]) -> (r: Result<usize, std::io::Error>)
        requires
            old(self).wf(),
        ensures
            final(self).wf(),
            final(self).cap == old(self).cap,
            final(self).inner.input() == old(self).inner.input(),
            match r {
                Ok(n) => n <= data@.len() && final(self).output() == old(self).output()
                    + data@.subrange(0, n as int),
                Err(_) => final(self).output() == old(self).output() && final(self).buf@.len()
                    <= old(self).buf@.len(),
            },
            old(self).buf@.len() + data@.len() <= old(self).cap ==> {
                &&& r matches Ok(n) && n == data@.len()
                &&& final(self).buf@ == old(self).buf@ + data@
                &&& final(self).inner == old(self).inner
            },
            old(self).buf@.len() + data@.len() > old(self).cap ==> (r matches Ok(n) ==> {
                &&& data@.len() > old(self).cap ==> final(self).buf@.len() == 0
                    && final(self).inner.accepted() == old(self).output() + data@.subrange(
                    0,
                    n as int,
                )
                &&& data@.len() <= old(self).cap ==> n == data@.len() && final(self).buf@
                    == data@ && final(self).inner.accepted() == old(self).output()
            }),
            old(self).buf@.len() + data@.len() > old(self).cap && r is Err ==> final(self).inner.accepted().len() <= old(self).output().len(),
    {
        if data.len() > self.cap || self.buf.len() > self.cap - data.len() {
            match self.flush_buf() {
                Ok(()) => {},
                Err(e) => return Err(e),
            }
        }
        if data.len() > self.cap {
            let ghost mid = self.inner.accepted();
            let r = self.inner.write(data);
            proof {
                assert(self.buf@ =~= Seq::<u8>::empty());
                assert(mid + Seq::<u8>::empty() =~= mid);
                if r is Ok {
                    assert(self.inner.accepted() + self.buf@ =~= self.inner.accepted());
                }
            }
            r
        } else {
            self.buf.extend_from_slice(data);
            proof {
                assert(self.inner.accepted() + self.buf@ =~= old(self).output() + data@.subrange(
                    0,
                    data@.len() as int,
                )) by {
                    if old(self).buf@.len() + data@.len() > old(self).cap {
                        assert(old(self).output() =~= self.inner.accepted());
                    }
                }
            }
            Ok(data.len())
        }
    }

    /// Flushes the buffer, then the resource.
    pub(crate) fn flush(&mut self) -> (r: Result<(), std::io::Error>)
        requires
            old(self).wf(),
        ensures
            final(self).wf(),
            final(self).cap == old(self).cap,
            final(self).output() == old(self).output(),
            final(self).inner.input() == old(self).inner.input(),
            final(self).buf@.len() <= old(self).buf@.len(),
            r is Ok ==> final(self).buf@.len() == 0,
    {
        match self.flush_buf() {
            Ok(()) => self.inner.flush(),
            Err(e) => Err(e),
        }
    }

    /// Flushes the buffer and returns the resource; on failure returns the
    /// error with this buffer, whose unsent bytes are kept.
    pub(crate) fn into_inner(self) -> (r: Result<S, (std::io::Error, BufWriter<S>)>)
        requires
            self.wf(),
        ensures
            self.buf@.len() == 0 ==> (r matches Ok(x) && x == self.inner),
            r matches Ok(x) ==> x.accepted() == self.output() && x.input() == self.inner.input(),
            r matches Err((_, w)) ==> {
                &&& w.wf()
                &&& w.cap == self.cap
                &&& w.output() == self.output()
                &&& w.inner.input() == self.inner.input()
                &&& 0 < w.buf@.len() <= self.buf@.len()
            },
    {
        let mut w = self;
        match w.flush_buf() {
            Ok(()) => {
                assert(w.inner.accepted() + w.buf@ =~= w.inner.accepted());
                Ok(w.inner)
            },
            Err(e) => Err((e, w)),
        }
    }
}

} // verus!
