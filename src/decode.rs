//! Field contracts for decoding, and the façade that applies them to a stream.
use vstd::prelude::*;

use crate::error::CodecError;
use crate::stream::BinaryRead;

verus! {

/// A value made from a block of exactly `N` bytes, by a conversion that cannot fail.
pub trait DecodeFixedLengthField<const N: usize>: Sized + View {
    /// The value that the block `bytes` stands for.
    spec fn from_fixed(bytes: Seq<u8>) -> Self::V;

    fn handle(bytes: [u8; N]) -> (r: Self)
        ensures
            r@ == Self::from_fixed(bytes@),
    ;
}

/// A value made from a block of exactly `N` bytes, by a conversion that may reject the block.
pub trait TryDecodeFixedLengthField<const N: usize>: Sized + View {
    type Error;

    /// The value, or the domain error, that the block `bytes` gives.
    spec fn try_from_fixed(bytes: Seq<u8>) -> Result<Self::V, Self::Error>;

    fn handle(bytes: [u8; N]) -> (r: Result<Self, Self::Error>)
        ensures
            view_result(r) == Self::try_from_fixed(bytes@),
    ;
}

/// A value made from a block of exactly `N` bytes and a context value, by a conversion
/// that may reject them.
pub trait TryDecodeFixedLengthFieldWith<const N: usize, Context>: Sized + View {
    type Error;

    /// The value, or the domain error, that the block `bytes` gives under `ctx`.
    spec fn try_from_fixed_with(bytes: Seq<u8>, ctx: Context) -> Result<Self::V, Self::Error>;

    fn handle(bytes: [u8; N], ctx: Context) -> (r: Result<Self, Self::Error>)
        ensures
            view_result(r) == Self::try_from_fixed_with(bytes@, ctx),
    ;
}

/// A value made from a block of bytes whose length is known only at run time, by a
/// conversion that cannot fail.
pub trait DecodeVariableLengthField: Sized + View {
    /// The value that the block `bytes` stands for.
    spec fn from_variable(bytes: Seq<u8>) -> Self::V;

    fn handle(bytes: Vec<u8>) -> (r: Self)
        ensures
            r@ == Self::from_variable(bytes@),
    ;
}

/// A value made from a block of bytes whose length is known only at run time, by a
/// conversion that may reject the block.
pub trait TryDecodeVariableLengthField: Sized + View {
    type Error;

    /// The value, or the domain error, that the block `bytes` gives.
    spec fn try_from_variable(bytes: Seq<u8>) -> Result<Self::V, Self::Error>;

    fn handle(bytes: Vec<u8>) -> (r: Result<Self, Self::Error>)
        ensures
            view_result(r) == Self::try_from_variable(bytes@),
    ;
}

/// A value made from a block of bytes whose length is known only at run time and a
/// context value, by a conversion that may reject them.
pub trait TryDecodeVariableLengthFieldWith<Context>: Sized + View {
    type Error;

    /// The value, or the domain error, that the block `bytes` gives under `ctx`.
    spec fn try_from_variable_with(bytes: Seq<u8>, ctx: Context) -> Result<Self::V, Self::Error>;

    fn handle(bytes: Vec<u8>, ctx: Context) -> (r: Result<Self, Self::Error>)
        ensures
            view_result(r) == Self::try_from_variable_with(bytes@, ctx),
    ;
}

/// A length prefix: a block of exactly `N` bytes that gives the byte count of the block
/// that follows it.
pub trait DecodeLength<const N: usize> {
    /// The byte count that the prefix `bytes` announces.
    spec fn length_of(bytes: Seq<u8>) -> nat;

    fn handle(bytes: [u8; N]) -> (r: usize)
        ensures
            r == Self::length_of(bytes@),
    ;
}

/// A value that reads its own bytes from the stream, for a layout that is more than one
/// flat block.
pub trait TryDecode<Reader>: Sized {
    type Error;

    /// Whether a call that found the stream as `before` may leave it as `after` and
    /// return `r`.
    spec fn decodes(before: Reader, after: Reader, r: Result<Self, Self::Error>) -> bool;

    fn handle(reader: &mut Reader) -> (r: Result<Self, Self::Error>)
        ensures
            Self::decodes(*old(reader), *final(reader), r),
    ;
}

/// A value that reads its own bytes from the stream, given a context value.
pub trait TryDecodeWith<Reader, Context>: Sized {
    type Error;

    /// Whether a call under `ctx` that found the stream as `before` may leave it as
    /// `after` and return `r`.
    spec fn decodes_with(
        before: Reader,
        after: Reader,
        ctx: Context,
        r: Result<Self, Self::Error>,
    ) -> bool;

    fn handle(reader: &mut Reader, ctx: Context) -> (r: Result<Self, Self::Error>)
        ensures
            Self::decodes_with(*old(reader), *final(reader), ctx, r),
    ;
}

/// A result with its value replaced by the value's model.
pub open spec fn view_result<T: View, E>(r: Result<T, E>) -> Result<T::V, E> {
    match r {
        Ok(v) => Ok(v@),
        Err(e) => Err(e),
    }
}

/// A field contract's outcome as the façade reports it: a domain error goes into the
/// `UserDefined` case unaltered.
pub open spec fn lifted<T, E>(d: Result<T, E>) -> Result<T, CodecError<E>> {
    match d {
        Ok(v) => Ok(v),
        Err(e) => Err(CodecError::UserDefined(e)),
    }
}

/// A block of `n` bytes taken from the front of `input`, then the rest; `None` when
/// `input` is shorter than `n`.
pub open spec fn split_block(input: Seq<u8>, n: nat) -> Option<(Seq<u8>, Seq<u8>)> {
    if n <= input.len() {
        Some((input.take(n as int), input.skip(n as int)))
    } else {
        None
    }
}

/// A length prefix of `N` bytes at the front of `input`, then the block it announces,
/// then the rest; `None` when `input` ends before the block does.
pub open spec fn split_prefixed<L: DecodeLength<N>, const N: usize>(input: Seq<u8>) -> Option<
    (Seq<u8>, Seq<u8>),
> {
    if N <= input.len() && N + L::length_of(input.take(N as int)) <= input.len() {
        let end = N + L::length_of(input.take(N as int));
        Some((input.subrange(N as int, end), input.skip(end)))
    } else {
        None
    }
}

/// Stream operations that read one block and apply a field contract to it; every stream
/// has them.
pub trait BinaryDecode: BinaryRead + Sized {
    /// Reads `N` bytes and converts them.
    fn decode_fixed_length_field<T: DecodeFixedLengthField<N>, const N: usize>(&mut self) -> (r:
        Result<T, std::io::Error>)
        ensures
            match split_block(old(self).unread(), N as nat) {
                None => r is Err,
                Some((block, rest)) => r matches Ok(v) && v@ == T::from_fixed(block)
                    && final(self).unread() == rest,
            },
    {
        let bytes = self.read_fixed_length::<N>()?;
        Ok(T::handle(bytes))
    }

    /// Reads `N` bytes and converts them; the block is consumed even when the conversion
    /// rejects it.
    fn try_decode_fixed_length_field<T: TryDecodeFixedLengthField<N>, const N: usize>(
        &mut self,
    ) -> (r: Result<T, CodecError<T::Error>>)
        ensures
            match split_block(old(self).unread(), N as nat) {
                None => r matches Err(CodecError::Io(_)),
                Some((block, rest)) => view_result(r) == lifted(T::try_from_fixed(block))
                    && final(self).unread() == rest,
            },
    {
        match self.read_fixed_length::<N>() {
            Err(e) => Err(CodecError::Io(e)),
            Ok(bytes) => match T::handle(bytes) {
                Ok(v) => Ok(v),
                Err(e) => Err(CodecError::UserDefined(e)),
            },
        }
    }

    /// Reads `N` bytes and converts them under `ctx`.
    fn try_decode_fixed_length_field_with<
        T: TryDecodeFixedLengthFieldWith<N, Context>,
        Context,
        const N: usize,
    >(&mut self, ctx: Context) -> (r: Result<T, CodecError<T::Error>>)
        ensures
            match split_block(old(self).unread(), N as nat) {
                None => r matches Err(CodecError::Io(_)),
                Some((block, rest)) => view_result(r) == lifted(T::try_from_fixed_with(block, ctx))
                    && final(self).unread() == rest,
            },
    {
        match self.read_fixed_length::<N>() {
            Err(e) => Err(CodecError::Io(e)),
            Ok(bytes) => match T::handle(bytes, ctx) {
                Ok(v) => Ok(v),
                Err(e) => Err(CodecError::UserDefined(e)),
            },
        }
    }

    /// Reads `length` bytes and converts them.
    fn decode_variable_length_field_with_length<T: DecodeVariableLengthField>(
        &mut self,
        length: usize,
    ) -> (r: Result<T, std::io::Error>)
        ensures
            match split_block(old(self).unread(), length as nat) {
                None => r is Err,
                Some((block, rest)) => r matches Ok(v) && v@ == T::from_variable(block)
                    && final(self).unread() == rest,
            },
    {
        let bytes = self.read_variable_length(length)?;
        Ok(T::handle(bytes))
    }

    /// Reads `length` bytes and converts them; the block is consumed even when the
    /// conversion rejects it.
    fn try_decode_variable_length_field_with_length<T: TryDecodeVariableLengthField>(
        &mut self,
        length: usize,
    ) -> (r: Result<T, CodecError<T::Error>>)
        ensures
            match split_block(old(self).unread(), length as nat) {
                None => r matches Err(CodecError::Io(_)),
                Some((block, rest)) => view_result(r) == lifted(T::try_from_variable(block))
                    && final(self).unread() == rest,
            },
    {
        match self.read_variable_length(length) {
            Err(e) => Err(CodecError::Io(e)),
            Ok(bytes) => match T::handle(bytes) {
                Ok(v) => Ok(v),
                Err(e) => Err(CodecError::UserDefined(e)),
            },
        }
    }

    /// Reads `length` bytes and converts them under `ctx`.
    fn try_decode_variable_length_field_with<
        T: TryDecodeVariableLengthFieldWith<Context>,
        Context,
    >(&mut self, length: usize, ctx: Context) -> (r: Result<T, CodecError<T::Error>>)
        ensures
            match split_block(old(self).unread(), length as nat) {
                None => r matches Err(CodecError::Io(_)),
                Some((block, rest)) => view_result(r) == lifted(T::try_from_variable_with(block, ctx))
                    && final(self).unread() == rest,
            },
    {
        match self.read_variable_length(length) {
            Err(e) => Err(CodecError::Io(e)),
            Ok(bytes) => match T::handle(bytes, ctx) {
                Ok(v) => Ok(v),
                Err(e) => Err(CodecError::UserDefined(e)),
            },
        }
    }

    /// Reads an `N`-byte length prefix, then the block it announces, and converts that
    /// block.
    fn decode_length_prefixed_field<
        L: DecodeLength<N>,
        T: DecodeVariableLengthField,
        const N: usize,
    >(&mut self) -> (r: Result<T, std::io::Error>)
        ensures
            match split_prefixed::<L, N>(old(self).unread()) {
                None => r is Err,
                Some((block, rest)) => r matches Ok(v) && v@ == T::from_variable(block)
                    && final(self).unread() == rest,
            },
    {
        let ghost input = self.unread();
        let prefix = self.read_fixed_length::<N>()?;
        let length = L::handle(prefix);
        let bytes = self.read_variable_length(length)?;
        proof {
            lemma_prefixed_parts(input, N as int, length as int);
        }
        Ok(T::handle(bytes))
    }

    /// Reads an `N`-byte length prefix, then the block it announces, and converts that
    /// block; the block is consumed even when the conversion rejects it.
    fn try_decode_length_prefixed_field<
        L: DecodeLength<N>,
        T: TryDecodeVariableLengthField,
        const N: usize,
    >(&mut self) -> (r: Result<T, CodecError<T::Error>>)
        ensures
            match split_prefixed::<L, N>(old(self).unread()) {
                None => r matches Err(CodecError::Io(_)),
                Some((block, rest)) => view_result(r) == lifted(T::try_from_variable(block))
                    && final(self).unread() == rest,
            },
    {
        let ghost input = self.unread();
        let prefix = match self.read_fixed_length::<N>() {
            Err(e) => return Err(CodecError::Io(e)),
            Ok(prefix) => prefix,
        };
        let length = L::handle(prefix);
        let bytes = match self.read_variable_length(length) {
            Err(e) => return Err(CodecError::Io(e)),
            Ok(bytes) => bytes,
        };
        proof {
            lemma_prefixed_parts(input, N as int, length as int);
        }
        match T::handle(bytes) {
            Ok(v) => Ok(v),
            Err(e) => Err(CodecError::UserDefined(e)),
        }
    }

    /// Hands the stream to `D`, which reads what it needs; its result comes back as it is.
    fn try_decode<D: TryDecode<Self>>(&mut self) -> (r: Result<D, D::Error>)
        ensures
            D::decodes(*old(self), *final(self), r),
    {
        D::handle(self)
    }

    /// Hands the stream and `ctx` to `D`, which reads what it needs; its result comes
    /// back as it is.
    fn try_decode_with<D: TryDecodeWith<Self, Context>, Context>(&mut self, ctx: Context) -> (r:
        Result<D, D::Error>)
        ensures
            D::decodes_with(*old(self), *final(self), ctx, r),
    {
        D::handle(self, ctx)
    }
}

impl<R: BinaryRead> BinaryDecode for R {

}

/// Reading `n` bytes and then `k` more from `input` takes the block between `n` and
/// `n + k` and leaves what follows it.
pub proof fn lemma_prefixed_parts(input: Seq<u8>, n: int, k: int)
    requires
        0 <= n,
        0 <= k,
        n + k <= input.len(),
    ensures
        input.skip(n).take(k) == input.subrange(n, n + k),
        input.skip(n).skip(k) == input.skip(n + k),
{
    assert(input.skip(n).take(k) =~= input.subrange(n, n + k));
    assert(input.skip(n).skip(k) =~= input.skip(n + k));
}

} // verus!
