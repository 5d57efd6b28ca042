//! The adapter between the input buffer and the output buffer: reads go
//! straight to the resource, writes go through the output buffer.
use vstd::prelude::*;

use crate::resource::Stream;
use crate::writer::BufWriter;

verus! {

/// Holds the output buffer in a slot that is empty only while the stream
/// is being unwrapped.
pub(crate) struct InternalBufWriter<S>(pub(crate) Option<BufWriter<S>>);

impl<S: Stream> InternalBufWriter<S> {
    pub(crate) open spec fn wf(&self) -> bool {
        &&& self.0 is Some
        &&& self.0->Some_0.wf()
    }

    pub(crate) open spec fn writer(&self) -> BufWriter<S> {
        self.0->Some_0
    }

    /// The wrapped resource.
    pub(crate) open spec fn resource(&self) -> S {
        self.0->Some_0.inner
    }

    pub(crate) fn get_ref(&self) -> (w: &BufWriter<S>)
        requires
            self.wf(),
        ensures
            *w == self.writer(),
    {
        self.0.as_ref().unwrap()
    }

    pub(crate) fn get_mut(&mut self) -> (w: &mut BufWriter<S>)
        requires
            old(self).wf(),
        ensures
            *w == old(self).writer(),
            *final(self) == InternalBufWriter(Some(*final(w))),
    {
        self.0.as_mut().unwrap()
    }

    /// Reads from the resource, past the output buffer.
    pub(crate) fn read(&mut self, buf: &mut [u8]) -> (r: Result<usize, std::io::Error>)
        requires
            old(self).wf(),
        ensures
            final(self).wf(),
            final(buf)@.len() == old(buf)@.len(),
            final(self).writer().buf == old(self).writer().buf,
            final(self).writer().cap == old(self).writer().cap,
            final(self).resource().accepted() == old(self).resource().accepted(),
            r matches Ok(n) ==> n <= old(buf)@.len() && old(self).resource().input() == final(buf)@.subrange(0, n as int) + final(self).resource().input(),
            r matches Ok(n) ==> (n == 0 && old(buf)@.len() > 0 ==> old(self).resource().input().len()
                == 0),
            r is Err ==> final(self).resource().input() == old(self).resource().input(),
    {
        let w = self.get_mut();
        w.inner.read(buf)
    }
}

} // verus!
