//! The capability that a buffered stream needs of the resource it wraps.
use vstd::prelude::*;

verus! {

#[verifier::external_type_specification]
#[verifier::external_body]
pub struct ExIoError(std::io::Error);

/// A duplex byte-stream resource, such as a network socket.
///
/// Each method is one blocking call into the resource. The resource is
/// modelled by two sequences: `accepted`, every byte it has taken from
/// writes so far, and `input`, the bytes its reads will yield, in order.
/// The contracts are those that `std::io::Read` and `std::io::Write` ask of
/// their implementations, stated over that model: a count never exceeds
/// the length of the buffer given, a read of zero bytes into a non-empty
/// buffer means end of stream, and a call that fails moved no byte.
pub trait Stream {
    /// Every byte that writes have handed to the resource, in order.
    ///
    /// An implementation verified with this library defines the model of
    /// its own; one written in plain Rust cannot, keeps this unspecified
    /// default, and is trusted to behave as the contracts below describe.
    closed spec fn accepted(&self) -> Seq<u8> {
        arbitrary()
    }

    /// The bytes that reads from the resource will yield, in order.
    closed spec fn input(&self) -> Seq<u8> {
        arbitrary()
    }

    /// Reads up to `buf.len()` bytes into the front of `buf` and returns
    /// how many were read; zero at end of stream.
    fn read(&mut self, buf: &mut [u8]) -> (r: Result<usize, std::io::Error>)
        ensures
            final(buf)@.len() == old(buf)@.len(),
            final(self).accepted() == old(self).accepted(),
            r matches Ok(n) ==> n <= old(buf)@.len() && old(self).input() == final(buf)@.subrange(
                0,
                n as int,
            ) + final(self).input(),
            r matches Ok(n) ==> (n == 0 && old(buf)@.len() > 0 ==> old(self).input().len() == 0),
            r is Err ==> final(self).input() == old(self).input(),
    ;

    /// Writes a prefix of `buf` and returns its length.
    fn write(&mut self, buf: &[u8]) -> (r: Result<usize, std::io::Error>)
        ensures
            final(self).input() == old(self).input(),
            r matches Ok(n) ==> n <= buf@.len() && final(self).accepted() == old(self).accepted()
                + buf@.subrange(0, n as int),
            r is Err ==> final(self).accepted() == old(self).accepted(),
    ;

    /// Flushes whatever the resource itself holds back. The bytes it has
    /// accepted, and those it will yield, stay as they were.
    fn flush(&mut self) -> (r: Result<(), std::io::Error>)
        ensures
            final(self).accepted() == old(self).accepted(),
            final(self).input() == old(self).input(),
    ;
}

/// Relies on `std::io::Error::new`: an error of kind `WriteZero`, for a
/// resource that accepted no byte of a non-empty write.
#[verifier::external_body]
pub(crate) fn write_zero_error() -> (e: std::io::Error) {
    std::io::Error::new(std::io::ErrorKind::WriteZero, "failed to write the buffered data")
}

} // verus!
