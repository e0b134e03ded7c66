//! Byte sources that the decoders read from.

use crate::error::{Error, Missing};
use crate::wire::{be16_at, be32_at, u16_from_be, u32_from_be};
use vstd::prelude::*;

verus! {

/// What reading `n` bytes from a source that still holds `input` returns.
pub open spec fn take_exact(input: Seq<u8>, n: nat) -> Result<Seq<u8>, Error> {
    if n <= input.len() {
        Ok(input.take(n as int))
    } else {
        Err(Error::Truncated(Missing::Field))
    }
}

/// What a source that held `input` still holds after `n` bytes were asked of it:
/// the rest, or nothing where it was too short.
pub open spec fn rest_after(input: Seq<u8>, n: nat) -> Seq<u8> {
    if n <= input.len() {
        input.skip(n as int)
    } else {
        Seq::empty()
    }
}

/// What a decoder makes of an input: the packet or the reason for giving up,
/// and how many bytes of the input it consumed on the way.
pub struct Parsed<T> {
    pub value: Result<T, Error>,
    pub used: nat,
}

/// The outcome of a decoder that met the end of `input` in the middle of a
/// field: the input is drained.
pub open spec fn cut_short<T>(input: Seq<u8>) -> Parsed<T> {
    Parsed { value: Err(Error::Truncated(Missing::Field)), used: input.len() }
}

/// The outcome of a decoder that gave up with `e` after `used` bytes.
pub open spec fn rejected<T>(e: Error, used: nat) -> Parsed<T> {
    Parsed { value: Err(e), used }
}

/// The outcome of a decoder that made `value` of the first `used` bytes.
pub open spec fn accepted<T>(value: T, used: nat) -> Parsed<T> {
    Parsed { value: Ok(value), used }
}

/// The model of what a decoder returned.
pub open spec fn view_result<T: View>(r: Result<T, Error>) -> Result<T::V, Error> {
    match r {
        Ok(v) => Ok(v@),
        Err(e) => Err(e),
    }
}

/// A source of bytes that hands out exactly as many as are asked for, or fails.
pub trait ReadExt {
    /// The bytes that have not been read yet.
    spec fn remaining(&self) -> Seq<u8>;

    /// Reads exactly `n` bytes. A source that holds fewer is drained and the
    /// read fails.
    fn read_exact(&mut self, n: usize) -> (r: Result<Vec<u8>, Error>)
        ensures
            view_result(r) == take_exact(old(self).remaining(), n as nat),
            final(self).remaining() == rest_after(old(self).remaining(), n as nat),
    ;

    /// Reads one byte.
    fn read_u8(&mut self) -> (r: Result<u8, Error>)
        ensures
            old(self).remaining().len() >= 1 ==> r == Ok::<u8, Error>(old(self).remaining()[0]),
            old(self).remaining().len() < 1 ==> r == Err::<u8, Error>(
                Error::Truncated(Missing::Field),
            ),
            final(self).remaining() == rest_after(old(self).remaining(), 1),
    {
        match self.read_exact(1) {
            Ok(buf) => Ok(buf[0]),
            Err(e) => Err(e),
        }
    }

    /// Reads a 16-bit value in network byte order.
    fn read_be_u16(&mut self) -> (r: Result<u16, Error>)
        ensures
            old(self).remaining().len() >= 2 ==> r == Ok::<u16, Error>(
                be16_at(old(self).remaining(), 0),
            ),
            old(self).remaining().len() < 2 ==> r == Err::<u16, Error>(
                Error::Truncated(Missing::Field),
            ),
            final(self).remaining() == rest_after(old(self).remaining(), 2),
    {
        match self.read_exact(2) {
            Ok(buf) => Ok(u16_from_be(buf[0], buf[1])),
            Err(e) => Err(e),
        }
    }

    /// Reads a 32-bit value in network byte order.
    fn read_be_u32(&mut self) -> (r: Result<u32, Error>)
        ensures
            old(self).remaining().len() >= 4 ==> r == Ok::<u32, Error>(
                be32_at(old(self).remaining(), 0),
            ),
            old(self).remaining().len() < 4 ==> r == Err::<u32, Error>(
                Error::Truncated(Missing::Field),
            ),
            final(self).remaining() == rest_after(old(self).remaining(), 4),
    {
        match self.read_exact(4) {
            Ok(buf) => Ok(u32_from_be(buf[0], buf[1], buf[2], buf[3])),
            Err(e) => Err(e),
        }
    }
}

/// A byte source over a slice: it hands out the slice's bytes front to back.
pub struct SliceReader<'a> {
    bytes: &'a [u8],
    at: usize,
}

impl<'a> SliceReader<'a> {
    #[verifier::type_invariant]
    spec fn inv(self) -> bool {
        self.at <= self.bytes@.len()
    }

    /// The whole slice that the reader was made over.
    pub closed spec fn source(&self) -> Seq<u8> {
        self.bytes@
    }

    /// How many bytes have been handed out or dropped.
    pub closed spec fn consumed(&self) -> nat {
        self.at as nat
    }

    /// A reader at the start of `bytes`.
    pub fn new(bytes: &'a [u8]) -> (reader: Self)
        ensures
            reader.source() == bytes@,
            reader.consumed() == 0,
            reader.remaining() == bytes@,
    {
        SliceReader { bytes, at: 0 }
    }

    /// The number of bytes consumed so far.
    pub fn position(&self) -> (n: usize)
        ensures
            n == self.consumed(),
            n <= self.source().len(),
            self.remaining() == self.source().skip(n as int),
    {
        proof {
            use_type_invariant(self);
        }
        self.at
    }

    /// The number of bytes that have not been read yet.
    pub fn remaining_len(&self) -> (n: usize)
        ensures
            n == self.remaining().len(),
    {
        proof {
            use_type_invariant(self);
        }
        self.bytes.len() - self.at
    }
}

impl<'a> ReadExt for SliceReader<'a> {
    closed spec fn remaining(&self) -> Seq<u8> {
        self.bytes@.skip(self.at as int)
    }

    fn read_exact(&mut self, n: usize) -> (r: Result<Vec<u8>, Error>)
        ensures
            final(self).source() == old(self).source(),
    {
        proof {
            use_type_invariant(&*self);
        }
        let len = self.bytes.len();
        let start = self.at;
        if n > len - start {
            self.at = len;
            return Err(Error::Truncated(Missing::Field));
        }
        let mut out: Vec<u8> = Vec::new();
        let mut i: usize = 0;
        while i < n
            invariant
                start + n <= len,
                len == self.bytes@.len(),
                i <= n,
                out@ == self.bytes@.subrange(start as int, start + i),
            decreases n - i,
        {
            out.push(self.bytes[start + i]);
            i = i + 1;
            assert(out@ =~= self.bytes@.subrange(start as int, start + i));
        }
        self.at = start + n;
        proof {
            let input = old(self).remaining();
            assert(out@ =~= input.take(n as int));
            assert(self.remaining() =~= input.skip(n as int));
        }
        Ok(out)
    }
}

} // verus!
