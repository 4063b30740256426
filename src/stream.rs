//! The byte-stream capability that the codec is layered over, and two in-memory streams.
use vstd::prelude::*;

verus! {

#[verifier::external_type_specification]
#[verifier::external_body]
pub struct ExIoError(std::io::Error);

#[verifier::external_type_specification]
pub struct ExIoErrorKind(std::io::ErrorKind);

/// Relies on `std::io::Error::from(ErrorKind)`, which builds an error of the given kind
/// that carries no further payload.
#[verifier::external_body]
fn io_error(kind: std::io::ErrorKind) -> std::io::Error {
    std::io::Error::from(kind)
}

/// A sequential, fallible source of bytes.
///
/// A stream is modelled by `unread`: the bytes it will still hand out before it ends or
/// its transport fails. A read that asks for no more than that succeeds and consumes
/// exactly what it returns; a read that asks for more fails. After a failure the stream
/// is not to be used again, so nothing is said of its state then.
pub trait BinaryRead {
    /// The bytes that the stream will still yield, in order.
    spec fn unread(&self) -> Seq<u8>;

    /// Reads exactly `length` bytes into a new buffer.
    fn read_variable_length(&mut self, length: usize) -> (r: Result<Vec<u8>, std::io::Error>)
        ensures
            r is Ok <==> length <= old(self).unread().len(),
            r matches Ok(bytes) ==> bytes@ == old(self).unread().take(length as int)
                && final(self).unread() == old(self).unread().skip(length as int),
    ;

    /// Reads exactly `N` bytes into an array.
    fn read_fixed_length<const N: usize>(&mut self) -> (r: Result<[u8; N], std::io::Error>)
        ensures
            r is Ok <==> N <= old(self).unread().len(),
            r matches Ok(bytes) ==> bytes@ == old(self).unread().take(N as int)
                && final(self).unread() == old(self).unread().skip(N as int),
    {
        let bytes = self.read_variable_length(N)?;
        let mut block = [0u8; N];
        let mut i: usize = 0;
        while i < N
            invariant
                bytes@.len() == N,
                i <= N,
                block@.len() == N,
                forall|j: int| 0 <= j < i ==> block@[j] == bytes@[j],
            decreases N - i,
        {
            block[i] = bytes[i];
            i += 1;
        }
        assert(block@ =~= bytes@);
        Ok(block)
    }
}

/// A sequential, fallible sink of bytes.
///
/// A sink is modelled by `written`, all that it has accepted so far, and `room`, how many
/// more bytes it accepts before its transport fails.
pub trait BinaryWrite {
    /// Every byte the sink has accepted, in order.
    spec fn written(&self) -> Seq<u8>;

    /// How many more bytes the sink accepts.
    spec fn room(&self) -> nat;

    /// Writes all of `bytes`, or fails.
    fn write_all(&mut self, bytes: &[u8]) -> (r: Result<(), std::io::Error>)
        ensures
            r is Ok <==> bytes@.len() <= old(self).room(),
            r is Ok ==> final(self).written() == old(self).written() + bytes@
                && final(self).room() == old(self).room() - bytes@.len(),
    ;
}

/// A stream over bytes held in memory.
pub struct SliceReader {
    bytes: Vec<u8>,
    pos: usize,
}

impl SliceReader {
    #[verifier::type_invariant]
    spec fn well_formed(&self) -> bool {
        self.pos <= self.bytes@.len()
    }

    /// A stream that yields `bytes` from the first to the last.
    pub fn new(bytes: Vec<u8>) -> (r: Self)
        ensures
            r.unread() == bytes@,
    {
        SliceReader { bytes, pos: 0 }
    }

    /// The bytes that are still to be read.
    pub fn remaining(&self) -> (r: Vec<u8>)
        ensures
            r@ == self.unread(),
    {
        proof {
            use_type_invariant(self);
        }
        let mut out: Vec<u8> = Vec::new();
        let mut i: usize = self.pos;
        while i < self.bytes.len()
            invariant
                self.pos <= i <= self.bytes@.len(),
                out@ =~= self.bytes@.subrange(self.pos as int, i as int),
            decreases self.bytes@.len() - i,
        {
            out.push(self.bytes[i]);
            i += 1;
        }
        out
    }
}

impl BinaryRead for SliceReader {
    closed spec fn unread(&self) -> Seq<u8> {
        self.bytes@.skip(self.pos as int)
    }

    fn read_variable_length(&mut self, length: usize) -> (r: Result<Vec<u8>, std::io::Error>) {
        proof {
            use_type_invariant(&*self);
        }
        if length > self.bytes.len() - self.pos {
            return Err(io_error(std::io::ErrorKind::UnexpectedEof));
        }
        let end: usize = self.pos + length;
        let mut out: Vec<u8> = Vec::with_capacity(length);
        let mut i: usize = self.pos;
        while i < end
            invariant
                end <= self.bytes@.len(),
                self.pos <= i <= end,
                out@ =~= self.bytes@.subrange(self.pos as int, i as int),
            decreases end - i,
        {
            out.push(self.bytes[i]);
            i += 1;
        }
        assert(self.bytes@.skip(end as int) =~= self.bytes@.skip(self.pos as int).skip(
            length as int,
        ));
        self.pos = end;
        Ok(out)
    }
}

/// A growable buffer is a sink that accepts bytes until its length would pass `usize::MAX`.
impl BinaryWrite for Vec<u8> {
    open spec fn written(&self) -> Seq<u8> {
        self@
    }

    open spec fn room(&self) -> nat {
        (usize::MAX - self@.len()) as nat
    }

    fn write_all(&mut self, bytes: &[u8]) -> (r: Result<(), std::io::Error>) {
        if bytes.len() > usize::MAX - self.len() {
            return Err(io_error(std::io::ErrorKind::WriteZero));
        }
        let ghost start = self@;
        let mut i: usize = 0;
        while i < bytes.len()
            invariant
                start.len() + bytes@.len() <= usize::MAX,
                i <= bytes@.len(),
                self@ =~= start + bytes@.take(i as int),
            decreases bytes@.len() - i,
        {
            self.push(bytes[i]);
            i += 1;
        }
        assert(bytes@.take(bytes@.len() as int) =~= bytes@);
        Ok(())
    }
}

} // verus!
