//! The I/O adapter: a deterministic, recording, single-byte input and output
//! boundary for the interpreter.
//!
//! The adapter holds a fixed script of input bytes and records every byte
//! written. An interpreter run consumes input from the front of the script;
//! once the script is exhausted every further read yields no value, which the
//! interpreter reports as an I/O fault. Callers that drive a real byte stream
//! gather its bytes into the script up front and emit the recorded output when
//! the run halts.

use vstd::prelude::*;

verus! {

/// A recording I/O adapter over in-memory byte buffers.
#[derive(Debug, PartialEq, Eq)]
pub struct IO {
    /// The bytes not yet consumed by `read`, front first.
    pub input: Vec<u8>,
    /// Every byte written through `print`, in order.
    pub output: Vec<u8>,
}

impl IO {
    /// Constructs an adapter with no input available and nothing recorded.
    pub fn new() -> (r: Self)
        ensures
            r.input@ == Seq::<u8>::empty(),
            r.output@ == Seq::<u8>::empty(),
    {
        IO { input: Vec::new(), output: Vec::new() }
    }

    /// Constructs an adapter whose reads will yield the given bytes in order.
    pub fn with_input(input: Vec<u8>) -> (r: Self)
        ensures
            r.input@ == input@,
            r.output@ == Seq::<u8>::empty(),
    {
        IO { input, output: Vec::new() }
    }

    /// Records `value` on the output stream.
    ///
    /// Writing never fails observably: a caller that forwards the recording to
    /// a real sink reports that sink's failures out of band.
    pub fn print(&mut self, value: u8)
        ensures
            final(self).output@ == old(self).output@.push(value),
            final(self).input@ == old(self).input@,
    {
        self.output.push(value);
    }

    /// Takes the next byte from the input script, or returns `None` once the
    /// script is exhausted.
    pub fn read(&mut self) -> (r: Option<u8>)
        ensures
            old(self).input@.len() > 0 ==> r == Some(old(self).input@[0]) && final(self).input@
                == old(self).input@.drop_first(),
            old(self).input@.len() == 0 ==> r is None && final(self).input@ == old(self).input@,
            final(self).output@ == old(self).output@,
    {
        if self.input.len() > 0 {
            Some(self.input.remove(0))
        } else {
            None
        }
    }
}

} // verus!
