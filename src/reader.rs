//! The input buffer: reads from the resource in bulk and serves the
//! caller from its window.
use vstd::prelude::*;
use vstd::math::min;
use vstd::slice::slice_subrange;

use crate::adapter::InternalBufWriter;
use crate::resource::Stream;
use crate::served;

verus! {

/// Buffers the bytes read from the resource. The bytes `buf[pos..filled]`
/// have been read and not yet consumed.
pub(crate) struct BufReader<S> {
    pub(crate) inner: InternalBufWriter<S>,
    pub(crate) buf: Vec<u8>,
    pub(crate) pos: usize,
    pub(crate) filled: usize,
}

impl<S: Stream> BufReader<S> {
    pub(crate) open spec fn wf(&self) -> bool {
        &&& self.pos <= self.filled <= self.buf@.len()
        &&& self.inner.wf()
    }

    /// The bytes read and not yet consumed.
    pub(crate) open spec fn window(&self) -> Seq<u8> {
        self.buf@.subrange(self.pos as int, self.filled as int)
    }

    pub(crate) open spec fn cap(&self) -> nat {
        self.buf@.len()
    }

    pub(crate) fn with_capacity(cap: usize, inner: InternalBufWriter<S>) -> (r: Self)
        requires
            inner.wf(),
        ensures
            r.wf(),
            r.inner == inner,
            r.cap() == cap,
            r.window() == Seq::<u8>::empty(),
    {
        BufReader { inner, buf: vec![0u8; cap], pos: 0, filled: 0 }
    }

    /// Returns the window, first refilling it with one read from the
    /// resource when it is empty.
    pub(crate) fn fill_buf(&mut self) -> (r: Result<&[u8], std::io::Error>)
        requires
            old(self).wf(),
        ensures
            final(self).wf(),
            final(self).cap() == old(self).cap(),
            final(self).inner.writer().buf == old(self).inner.writer().buf,
            final(self).inner.writer().cap == old(self).inner.writer().cap,
            final(self).inner.resource().accepted() == old(self).inner.resource().accepted(),
            old(self).window().len() > 0 ==> *final(self) == *old(self),
            old(self).window().len() == 0 && r is Ok ==> old(self).inner.resource().input()
                == final(self).window() + final(self).inner.resource().input(),
            old(self).window().len() == 0 && r is Ok && old(self).cap() > 0 && old(self).inner.resource().input().len() > 0 ==> final(self).window().len() > 0,
            r matches Ok(s) ==> s@ == final(self).window(),
            r is Err ==> final(self).window().len() == 0 && final(self).inner.resource().input()
                == old(self).inner.resource().input(),
    {
        if self.pos >= self.filled {
            match self.inner.read(self.buf.as_mut_slice()) {
                Ok(n) => {
                    self.pos = 0;
                    self.filled = n;
                    assert(self.window() =~= self.buf@.subrange(0, n as int));
                },
                Err(e) => {
                    return Err(e);
                },
            }
        }
        Ok(slice_subrange(self.buf.as_slice(), self.pos, self.filled))
    }

    /// Marks `amt` bytes of the window as consumed; an `amt` past the end of
    /// the window consumes the whole window.
    pub(crate) fn consume(&mut self, amt: usize)
        requires
            old(self).wf(),
        ensures
            final(self).wf(),
            final(self).inner == old(self).inner,
            final(self).cap() == old(self).cap(),
            amt <= old(self).window().len() ==> final(self).window() == old(self).window().subrange(
                amt as int,
                old(self).window().len() as int,
            ),
            amt > old(self).window().len() ==> final(self).window().len() == 0,
    {
        if amt <= self.filled - self.pos {
            self.pos = self.pos + amt;
        } else {
            self.pos = self.filled;
        }
    }

    /// Copies the front of the window into `dest`, as much as fits, and
    /// consumes what was copied.
    pub(crate) fn copy_window(&mut self, dest: &mut [u8]) -> (n: usize)
        requires
            old(self).wf(),
        ensures
            final(self).wf(),
            final(self).inner == old(self).inner,
            final(self).cap() == old(self).cap(),
            n == min(old(dest)@.len() as int, old(self).window().len() as int),
            final(dest)@ == old(self).window().subrange(0, n as int) + old(dest)@.subrange(
                n as int,
                old(dest)@.len() as int,
            ),
            final(self).window() == old(self).window().subrange(n as int, old(self).window().len() as int),
    {
        let avail = self.filled - self.pos;
        let n: usize = if dest.len() < avail {
            dest.len()
        } else {
            avail
        };
        let mut i: usize = 0;
        while i < n
            invariant
                i <= n <= dest@.len() == old(dest)@.len(),
                n <= self.filled - self.pos,
                self.wf(),
                self.inner == old(self).inner,
                self.buf@ == old(self).buf@,
                self.pos == old(self).pos,
                self.filled == old(self).filled,
                forall|k: int| 0 <= k < i ==> dest@[k] == self.buf@[self.pos + k],
                forall|k: int| i <= k < dest@.len() ==> dest@[k] == old(dest)@[k],
            decreases n - i,
        {
            dest[i] = self.buf[self.pos + i];
            i = i + 1;
        }
        proof {
            assert(dest@ =~= old(self).window().subrange(0, n as int) + old(dest)@.subrange(
                n as int,
                old(dest)@.len() as int,
            ));
        }
        self.pos = self.pos + n;
        proof {
            assert(self.window() =~= old(self).window().subrange(n as int, old(self).window().len() as int));
        }
        n
    }

    /// Reads into `dest`: from the window when it holds bytes; else straight
    /// from the resource when `dest` is longer than the capacity; else after
    /// refilling the window with one read.
    pub(crate) fn read(&mut self, dest: &mut [u8]) -> (r: Result<usize, std::io::Error>)
        requires
            old(self).wf(),
        ensures
            final(self).wf(),
            final(self).cap() == old(self).cap(),
            final(dest)@.len() == old(dest)@.len(),
            final(self).inner.writer().buf == old(self).inner.writer().buf,
            final(self).inner.writer().cap == old(self).inner.writer().cap,
            final(self).inner.resource().accepted() == old(self).inner.resource().accepted(),
            r matches Ok(n) ==> n <= old(dest)@.len(),
            old(dest)@.len() == 0 ==> (r matches Ok(n) && n == 0 && *final(self) == *old(self)),
            old(self).window().len() > 0 ==> (r matches Ok(n) && served(
                old(self).window(),
                old(dest)@,
                final(dest)@,
                final(self).window(),
                n as nat,
            )),
            old(self).window().len() > 0 ==> final(self).inner == old(self).inner,
            old(self).window().len() == 0 && old(dest)@.len() > old(self).cap()
                ==> final(self).window().len() == 0,
            old(self).window().len() == 0 && old(dest)@.len() > old(self).cap() && r is Ok
                ==> old(self).inner.resource().input() == final(dest)@.subrange(0, r->Ok_0 as int)
                + final(self).inner.resource().input(),
            old(self).window().len() == 0 && 0 < old(dest)@.len() <= old(self).cap() && r is Ok
                ==> old(self).inner.resource().input() == final(dest)@.subrange(0, r->Ok_0 as int)
                + final(self).window() + final(self).inner.resource().input(),
            old(self).window().len() == 0 && 0 < old(dest)@.len() && old(self).inner.resource().input().len()
                > 0 && r is Ok ==> r->Ok_0 > 0,
            old(self).window().len() == 0 && 0 < old(dest)@.len() <= old(self).cap() && r is Ok ==> {
                &&& r->Ok_0 + final(self).window().len() <= old(self).cap()
                &&& served(
                    final(dest)@.subrange(0, r->Ok_0 as int) + final(self).window(),
                    old(dest)@,
                    final(dest)@,
                    final(self).window(),
                    r->Ok_0 as nat,
                )
            },
            old(self).window().len() == 0 && r is Err ==> final(self).window().len() == 0
                && final(self).inner.resource().input() == old(self).inner.resource().input(),
    {
        if dest.len() == 0 {
            proof {
                assert(self.window().subrange(0, 0) + dest@.subrange(0, 0) =~= dest@);
                assert(self.window().subrange(0, self.window().len() as int) =~= self.window());
            }
            return Ok(0);
        }
        if self.pos == self.filled && dest.len() > self.buf.len() {
            self.pos = 0;
            self.filled = 0;
            return self.inner.read(dest);
        }
        if self.pos == self.filled {
            match self.fill_buf() {
                Ok(_) => {},
                Err(e) => return Err(e),
            }
        }
        let ghost d = self.window();
        let ghost dest_before = dest@;
        let n = self.copy_window(dest);
        assert(d.len() <= old(self).cap());
        assert(served(d, dest_before, dest@, self.window(), n as nat));
        assert(d =~= dest@.subrange(0, n as int) + self.window());
        assert(d + self.inner.resource().input() =~= dest@.subrange(0, n as int) + self.window()
            + self.inner.resource().input());
        Ok(n)
    }
}

} // verus!
