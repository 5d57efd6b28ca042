use std::io;

use bufstream::{drain_step, BufStream, Stream, DEFAULT_BUF_SIZE};

struct S;

impl Stream for S {
    fn read(&mut self, _: &mut [u8]) -> io::Result<usize> {
        Ok(0)
    }
    fn write(&mut self, b: &[u8]) -> io::Result<usize> {
        Ok(b.len())
    }
    fn flush(&mut self) -> io::Result<()> {
        Ok(())
    }
}

/// A resource that serves `input`, records what it is given and counts
/// its calls. `max_write` caps how much one write takes; `fail_write`
/// makes every write fail.
#[derive(Default)]
struct Mock {
    input: Vec<u8>,
    read_pos: usize,
    read_calls: usize,
    read_lens: Vec<usize>,
    output: Vec<u8>,
    writes: Vec<Vec<u8>>,
    flushes: usize,
    max_write: Option<usize>,
    fail_write: bool,
    zero_write: bool,
    fail_after: Option<usize>,
}

impl Mock {
    fn with_input(input: &[u8]) -> Mock {
        Mock { input: input.to_vec(), ..Mock::default() }
    }
}

impl Stream for Mock {
    fn read(&mut self, buf: &mut [u8]) -> io::Result<usize> {
        self.read_calls += 1;
        self.read_lens.push(buf.len());
        let n = std::cmp::min(buf.len(), self.input.len() - self.read_pos);
        buf[..n].copy_from_slice(&self.input[self.read_pos..self.read_pos + n]);
        self.read_pos += n;
        Ok(n)
    }
    fn write(&mut self, buf: &[u8]) -> io::Result<usize> {
        if self.fail_write || self.fail_after == Some(self.writes.len()) {
            return Err(io::Error::new(io::ErrorKind::Other, "resource refused"));
        }
        if self.zero_write {
            return Ok(0);
        }
        let n = match self.max_write {
            Some(m) => std::cmp::min(m, buf.len()),
            None => buf.len(),
        };
        self.output.extend_from_slice(&buf[..n]);
        self.writes.push(buf[..n].to_vec());
        Ok(n)
    }
    fn flush(&mut self) -> io::Result<()> {
        self.flushes += 1;
        Ok(())
    }
}

// This is just here to make sure that we don't infinite loop in the
// newtype struct autoderef weirdness
#[test]
fn test_buffered_stream() {
    let mut stream = BufStream::new(S);
    assert_eq!(stream.read(&mut [0; 10]).unwrap(), 0);
    stream.write(&[0; 10]).unwrap();
    stream.flush().unwrap();
}

#[test]
fn hello_reaches_resource_only_on_flush_then_eof_reads_zero() {
    let mut stream = BufStream::with_capacities(1024, 1024, Mock::default());
    assert_eq!(stream.write(b"hello").unwrap(), 5);
    assert!(stream.get_ref().output.is_empty());
    assert!(stream.get_ref().writes.is_empty());
    stream.flush().unwrap();
    assert_eq!(stream.get_ref().output, b"hello".to_vec());
    assert_eq!(stream.get_ref().writes.len(), 1);
    assert_eq!(stream.get_ref().flushes, 1);
    let mut dest = [7u8; 16];
    assert_eq!(stream.read(&mut dest).unwrap(), 0);
    assert_eq!(dest, [7u8; 16]);
}

#[test]
fn writes_below_capacity_stay_buffered() {
    let mut stream = BufStream::with_capacities(8, 8, Mock::default());
    assert_eq!(stream.write(b"abc").unwrap(), 3);
    assert_eq!(stream.write(b"de").unwrap(), 2);
    assert!(stream.get_ref().writes.is_empty());
}

#[test]
fn write_filling_capacity_exactly_stays_buffered() {
    let mut stream = BufStream::with_capacities(8, 4, Mock::default());
    assert_eq!(stream.write(b"ab").unwrap(), 2);
    assert_eq!(stream.write(b"cd").unwrap(), 2);
    assert!(stream.get_ref().writes.is_empty());
}

#[test]
fn overflowing_write_flushes_old_bytes_first() {
    let mut stream = BufStream::with_capacities(8, 8, Mock::default());
    assert_eq!(stream.write(b"abcde").unwrap(), 5);
    assert_eq!(stream.write(b"fghi").unwrap(), 4);
    assert_eq!(stream.get_ref().writes, vec![b"abcde".to_vec()]);
    stream.flush().unwrap();
    assert_eq!(stream.get_ref().writes, vec![b"abcde".to_vec(), b"fghi".to_vec()]);
    assert_eq!(stream.get_ref().output, b"abcdefghi".to_vec());
}

#[test]
fn write_longer_than_capacity_goes_straight_to_resource() {
    let mut stream = BufStream::with_capacities(8, 4, Mock::default());
    assert_eq!(stream.write(b"ab").unwrap(), 2);
    assert_eq!(stream.write(b"cdefgh").unwrap(), 6);
    assert_eq!(stream.get_ref().writes, vec![b"ab".to_vec(), b"cdefgh".to_vec()]);
    stream.flush().unwrap();
    assert_eq!(stream.get_ref().writes.len(), 2);
    assert_eq!(stream.get_ref().output, b"abcdefgh".to_vec());
}

#[test]
fn read_longer_than_capacity_goes_straight_to_resource() {
    let mut stream = BufStream::with_capacities(4, 8, Mock::with_input(b"0123456789"));
    let mut dest = [0u8; 8];
    assert_eq!(stream.read(&mut dest).unwrap(), 8);
    assert_eq!(&dest, b"01234567");
    assert_eq!(stream.get_ref().read_lens, vec![8]);
}

#[test]
fn short_read_is_served_from_one_refill() {
    let mut stream = BufStream::with_capacities(4, 8, Mock::with_input(b"0123456789"));
    let mut dest = [0u8; 2];
    assert_eq!(stream.read(&mut dest).unwrap(), 2);
    assert_eq!(&dest, b"01");
    assert_eq!(stream.read(&mut dest).unwrap(), 2);
    assert_eq!(&dest, b"23");
    assert_eq!(stream.get_ref().read_lens, vec![4]);
    assert_eq!(stream.read(&mut dest).unwrap(), 2);
    assert_eq!(&dest, b"45");
    assert_eq!(stream.get_ref().read_calls, 2);
}

#[test]
fn read_from_window_stops_at_window_end() {
    let mut stream = BufStream::with_capacities(4, 8, Mock::with_input(b"0123456789"));
    let mut small = [0u8; 1];
    assert_eq!(stream.read(&mut small).unwrap(), 1);
    let mut dest = [9u8; 6];
    assert_eq!(stream.read(&mut dest).unwrap(), 3);
    assert_eq!(dest, [b'1', b'2', b'3', 9, 9, 9]);
    assert_eq!(stream.get_ref().read_calls, 1);
}

#[test]
fn fill_buf_and_consume() {
    let mut stream = BufStream::with_capacities(4, 8, Mock::with_input(b"abcdef"));
    assert_eq!(stream.fill_buf().unwrap(), b"abcd");
    stream.consume(3);
    assert_eq!(stream.fill_buf().unwrap(), b"d");
    stream.consume(10);
    assert_eq!(stream.fill_buf().unwrap(), b"ef");
    stream.consume(2);
    assert_eq!(stream.fill_buf().unwrap(), b"");
    assert_eq!(stream.get_ref().read_calls, 3);
}

#[test]
fn reads_and_writes_do_not_disturb_each_other() {
    let mut stream = BufStream::with_capacities(4, 8, Mock::with_input(b"abcdef"));
    let mut one = [0u8; 1];
    assert_eq!(stream.read(&mut one).unwrap(), 1);
    assert_eq!(stream.write(b"xy").unwrap(), 2);
    let mut three = [0u8; 3];
    assert_eq!(stream.read(&mut three).unwrap(), 3);
    assert_eq!(&three, b"bcd");
    assert_eq!(stream.get_ref().read_calls, 1);
    assert_eq!(stream.write(b"z").unwrap(), 1);
    stream.flush().unwrap();
    assert_eq!(stream.get_ref().output, b"xyz".to_vec());
    assert_eq!(stream.get_ref().read_calls, 1);
}

#[test]
fn zero_length_io_makes_no_resource_call() {
    let mut stream = BufStream::with_capacities(4, 4, Mock::with_input(b"abc"));
    assert_eq!(stream.write(&[]).unwrap(), 0);
    assert_eq!(stream.read(&mut []).unwrap(), 0);
    assert!(stream.get_ref().writes.is_empty());
    assert_eq!(stream.get_ref().read_calls, 0);
    let mut zero = BufStream::with_capacities(0, 0, Mock::default());
    assert_eq!(zero.write(&[]).unwrap(), 0);
    assert_eq!(zero.read(&mut []).unwrap(), 0);
    assert!(zero.get_ref().writes.is_empty());
    assert_eq!(zero.get_ref().read_calls, 0);
}

#[test]
fn default_capacity_is_sixty_four_kib() {
    assert_eq!(DEFAULT_BUF_SIZE, 64 * 1024);
    let mut stream = BufStream::new(Mock::default());
    let block = vec![1u8; DEFAULT_BUF_SIZE];
    assert_eq!(stream.write(&block).unwrap(), DEFAULT_BUF_SIZE);
    assert!(stream.get_ref().writes.is_empty());
    assert_eq!(stream.write(&[2]).unwrap(), 1);
    assert_eq!(stream.get_ref().writes.len(), 1);
    assert_eq!(stream.get_ref().output.len(), DEFAULT_BUF_SIZE);
}

#[test]
fn into_inner_hands_over_buffered_output_once() {
    let mut stream = BufStream::with_capacities(4, 16, Mock::with_input(b"abcdef"));
    let mut one = [0u8; 1];
    assert_eq!(stream.read(&mut one).unwrap(), 1);
    assert_eq!(stream.write(b"abc").unwrap(), 3);
    assert_eq!(stream.write(b"def").unwrap(), 3);
    let mock = match stream.into_inner() {
        Ok(m) => m,
        Err(_) => panic!("flush should succeed"),
    };
    assert_eq!(mock.output, b"abcdef".to_vec());
    assert_eq!(mock.writes.len(), 1);
}

#[test]
fn failed_into_inner_returns_error_and_usable_stream() {
    let mut stream = BufStream::with_capacities(4, 16, Mock::with_input(b"abcdef"));
    let mut one = [0u8; 1];
    assert_eq!(stream.read(&mut one).unwrap(), 1);
    assert_eq!(stream.write(b"abc").unwrap(), 3);
    stream.get_mut().fail_write = true;
    let err = match stream.into_inner() {
        Ok(_) => panic!("flush should fail"),
        Err(e) => e,
    };
    assert_eq!(err.error().kind(), io::ErrorKind::Other);
    assert_eq!(err.error().to_string(), "resource refused");
    let mut stream = err.into_inner();
    assert!(stream.get_ref().output.is_empty());
    stream.get_mut().fail_write = false;
    assert_eq!(stream.write(b"d").unwrap(), 1);
    // the unread input buffered before the unwrap is still there
    let mut rest = [0u8; 2];
    assert_eq!(stream.read(&mut rest).unwrap(), 2);
    assert_eq!(&rest, b"bc");
    assert_eq!(stream.get_ref().read_calls, 1);
    let mock = match stream.into_inner() {
        Ok(m) => m,
        Err(_) => panic!("flush should succeed"),
    };
    assert_eq!(mock.output, b"abcd".to_vec());
}

#[test]
fn failed_flush_keeps_unsent_tail() {
    let mut stream = BufStream::with_capacities(4, 16, Mock::default());
    assert_eq!(stream.write(b"abcdef").unwrap(), 6);
    stream.get_mut().max_write = Some(2);
    stream.flush().unwrap();
    assert_eq!(stream.get_ref().writes, vec![b"ab".to_vec(), b"cd".to_vec(), b"ef".to_vec()]);
    assert_eq!(stream.write(b"ghij").unwrap(), 4);
    stream.get_mut().fail_write = true;
    assert!(stream.flush().is_err());
    stream.get_mut().fail_write = false;
    stream.get_mut().max_write = None;
    stream.flush().unwrap();
    assert_eq!(stream.get_ref().output, b"abcdefghij".to_vec());
}

#[test]
fn resource_taking_nothing_gives_write_zero() {
    let mut stream = BufStream::with_capacities(4, 16, Mock::default());
    assert_eq!(stream.write(b"abc").unwrap(), 3);
    stream.get_mut().zero_write = true;
    let e = stream.flush().unwrap_err();
    assert_eq!(e.kind(), io::ErrorKind::WriteZero);
    stream.get_mut().zero_write = false;
    stream.flush().unwrap();
    assert_eq!(stream.get_ref().output, b"abc".to_vec());
}

#[test]
fn failed_overflowing_write_takes_no_bytes() {
    let mut stream = BufStream::with_capacities(4, 4, Mock::default());
    assert_eq!(stream.write(b"abc").unwrap(), 3);
    stream.get_mut().fail_write = true;
    assert!(stream.write(b"de").is_err());
    stream.get_mut().fail_write = false;
    stream.flush().unwrap();
    assert_eq!(stream.get_ref().output, b"abc".to_vec());
}

#[test]
fn drain_step_advances_on_progress() {
    assert_eq!(drain_step(2, 10, &Ok(3)), Some(5));
    assert_eq!(drain_step(0, 4, &Ok(4)), Some(4));
}

#[test]
fn drain_step_stops_on_zero_or_error() {
    assert_eq!(drain_step(2, 10, &Ok(0)), None);
    let e: io::Result<usize> = Err(io::Error::new(io::ErrorKind::Other, "x"));
    assert_eq!(drain_step(2, 10, &e), None);
}

#[test]
fn into_inner_with_empty_buffer_makes_no_write() {
    let mut stream = BufStream::with_capacities(4, 16, Mock::with_input(b"abc"));
    stream.get_mut().fail_write = true;
    let mock = match stream.into_inner() {
        Ok(m) => m,
        Err(_) => panic!("nothing to flush"),
    };
    assert!(mock.writes.is_empty());
    assert_eq!(mock.flushes, 0);
}

#[test]
fn flush_of_empty_buffer_only_flushes_resource() {
    let mut stream = BufStream::with_capacities(4, 16, Mock::default());
    stream.get_mut().fail_write = true;
    stream.flush().unwrap();
    assert!(stream.get_ref().writes.is_empty());
    assert_eq!(stream.get_ref().flushes, 1);
}

#[test]
fn failed_into_inner_after_partial_flush_keeps_tail() {
    let mut stream = BufStream::with_capacities(4, 16, Mock::default());
    assert_eq!(stream.write(b"abcdef").unwrap(), 6);
    // the first write takes four bytes, the second is refused
    stream.get_mut().max_write = Some(4);
    stream.get_mut().fail_after = Some(1);
    let err = match stream.into_inner() {
        Ok(_) => panic!("second write should fail"),
        Err(e) => e,
    };
    let mut stream = err.into_inner();
    assert_eq!(stream.get_ref().output, b"abcd".to_vec());
    stream.get_mut().fail_after = None;
    stream.get_mut().max_write = None;
    let mock = match stream.into_inner() {
        Ok(m) => m,
        Err(_) => panic!("flush should succeed"),
    };
    assert_eq!(mock.output, b"abcdef".to_vec());
    assert_eq!(mock.writes, vec![b"abcd".to_vec(), b"ef".to_vec()]);
}
