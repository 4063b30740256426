//! Field contracts for encoding, and the façade that writes their bytes to a sink.
use vstd::prelude::*;

use crate::stream::BinaryWrite;

verus! {

/// A value that reduces to a block of exactly `N` bytes.
pub trait EncodeFixedLengthField<const N: usize>: View {
    /// The block that stands for the value `v`.
    spec fn to_fixed(v: Self::V) -> [u8; N];

    fn handle(&self) -> (r: [u8; N])
        ensures
            r == Self::to_fixed(self@),
    ;
}

/// A value that reduces to a block of exactly `N` bytes under a context value.
pub trait EncodeFixedLengthFieldWith<const N: usize, Context>: View {
    /// The block that stands for the value `v` under `ctx`.
    spec fn to_fixed_with(v: Self::V, ctx: Context) -> [u8; N];

    fn handle(&self, ctx: Context) -> (r: [u8; N])
        ensures
            r == Self::to_fixed_with(self@, ctx),
    ;
}

/// A value that reduces to a block of bytes whose length depends on the value.
pub trait EncodeVariableLengthField: View {
    /// The block that stands for the value `v`.
    spec fn to_variable(v: Self::V) -> Seq<u8>;

    fn handle(&self) -> (r: Vec<u8>)
        ensures
            r@ == Self::to_variable(self@),
    ;
}

/// A value that reduces, under a context value, to a block of bytes whose length depends
/// on both.
pub trait EncodeVariableLengthFieldWith<Context>: View {
    /// The block that stands for the value `v` under `ctx`.
    spec fn to_variable_with(v: Self::V, ctx: Context) -> Seq<u8>;

    fn handle(&self, ctx: Context) -> (r: Vec<u8>)
        ensures
            r@ == Self::to_variable_with(self@, ctx),
    ;
}

/// A value that writes its own bytes to the sink, for a layout that is more than one flat
/// block.
pub trait TryEncode<Writer> {
    type Error;

    /// Whether a call that found the sink as `before` may leave it as `after` and return
    /// `r`.
    spec fn encodes(&self, before: Writer, after: Writer, r: Result<(), Self::Error>) -> bool;

    fn handle(&self, writer: &mut Writer) -> (r: Result<(), Self::Error>)
        ensures
            self.encodes(*old(writer), *final(writer), r),
    ;
}

/// A value that writes its own bytes to the sink, given a context value.
pub trait TryEncodeWith<Writer, Context> {
    type Error;

    /// Whether a call under `ctx` that found the sink as `before` may leave it as `after`
    /// and return `r`.
    spec fn encodes_with(
        &self,
        before: Writer,
        after: Writer,
        ctx: Context,
        r: Result<(), Self::Error>,
    ) -> bool;

    fn handle(&self, writer: &mut Writer, ctx: Context) -> (r: Result<(), Self::Error>)
        ensures
            self.encodes_with(*old(writer), *final(writer), ctx, r),
    ;
}

/// Whether a sink that was `before` took `bytes` whole and is now `after`, as a write of
/// `bytes` that returned `r` leaves it.
pub open spec fn wrote<W: BinaryWrite, E>(before: W, after: W, bytes: Seq<u8>, r: Result<(), E>) -> bool {
    &&& r is Ok <==> bytes.len() <= before.room()
    &&& r is Ok ==> after.written() == before.written() + bytes && after.room() == before.room()
        - bytes.len()
}

/// Sink operations that apply a field contract and write the block it gives in one write;
/// every sink has them.
pub trait BinaryEncode: BinaryWrite + Sized {
    /// Writes the `N`-byte block of `value`.
    fn encode_fixed_length_field<T: EncodeFixedLengthField<N>, const N: usize>(
        &mut self,
        value: &T,
    ) -> (r: Result<(), std::io::Error>)
        ensures
            wrote(*old(self), *final(self), T::to_fixed(value@)@, r),
    {
        let bytes = value.handle();
        self.write_all(bytes.as_slice())
    }

    /// Writes the `N`-byte block of `value` under `ctx`.
    fn encode_fixed_length_field_with<
        T: EncodeFixedLengthFieldWith<N, Context>,
        Context,
        const N: usize,
    >(&mut self, value: &T, ctx: Context) -> (r: Result<(), std::io::Error>)
        ensures
            wrote(*old(self), *final(self), T::to_fixed_with(value@, ctx)@, r),
    {
        let bytes = value.handle(ctx);
        self.write_all(bytes.as_slice())
    }

    /// Writes the block of `value`.
    fn encode_variable_length_field<T: EncodeVariableLengthField>(&mut self, value: &T) -> (r:
        Result<(), std::io::Error>)
        ensures
            wrote(*old(self), *final(self), T::to_variable(value@), r),
    {
        let bytes = value.handle();
        self.write_all(bytes.as_slice())
    }

    /// Writes the block of `value` under `ctx`.
    fn encode_variable_length_field_with<T: EncodeVariableLengthFieldWith<Context>, Context>(
        &mut self,
        value: &T,
        ctx: Context,
    ) -> (r: Result<(), std::io::Error>)
        ensures
            wrote(*old(self), *final(self), T::to_variable_with(value@, ctx), r),
    {
        let bytes = value.handle(ctx);
        self.write_all(bytes.as_slice())
    }

    /// Hands the sink to `value`, which writes what it needs; its result comes back as it
    /// is.
    fn try_encode<E: TryEncode<Self>>(&mut self, value: &E) -> (r: Result<(), E::Error>)
        ensures
            value.encodes(*old(self), *final(self), r),
    {
        value.handle(self)
    }

    /// Hands the sink and `ctx` to `value`, which writes what it needs; its result comes
    /// back as it is.
    fn try_encode_with<E: TryEncodeWith<Self, Context>, Context>(
        &mut self,
        value: &E,
        ctx: Context,
    ) -> (r: Result<(), E::Error>)
        ensures
            value.encodes_with(*old(self), *final(self), ctx, r),
    {
        value.handle(self, ctx)
    }
}

impl<W: BinaryWrite> BinaryEncode for W {

}

} // verus!
