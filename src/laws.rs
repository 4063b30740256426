//! Laws that relate the encode contracts to the decode contracts through the façade.
use vstd::prelude::*;

use crate::decode::{
    DecodeFixedLengthField, DecodeVariableLengthField, TryDecodeFixedLengthField,
    TryDecodeFixedLengthFieldWith, TryDecodeVariableLengthField,
    TryDecodeVariableLengthFieldWith, lifted, split_block,
};
use crate::encode::{
    EncodeFixedLengthField, EncodeFixedLengthFieldWith, EncodeVariableLengthField,
    EncodeVariableLengthFieldWith,
};

verus! {

/// Round trip of a fixed-length field: where the type's decode contract undoes its encode
/// contract on `v`, a stream that holds the block written for `v` and then `rest` decodes
/// to `v` and is left holding exactly `rest`.
pub proof fn lemma_fixed_round_trip<T, const N: usize>(v: T::V, rest: Seq<u8>) where
    T: DecodeFixedLengthField<N> + EncodeFixedLengthField<N>,

    requires
        T::from_fixed(T::to_fixed(v)@) == v,
    ensures
        match split_block(T::to_fixed(v)@ + rest, N as nat) {
            Some((block, left)) => T::from_fixed(block) == v && left == rest,
            None => false,
        },
{
    lemma_split_written(T::to_fixed(v)@, rest);
}

/// Round trip of a fixed-length field whose conversion may fail: where the type's decode
/// contract accepts the block written for `v` and gives back `v`, a stream that holds that
/// block and then `rest` decodes to `v` and is left holding exactly `rest`.
pub proof fn lemma_try_fixed_round_trip<T, const N: usize>(v: T::V, rest: Seq<u8>) where
    T: TryDecodeFixedLengthField<N> + EncodeFixedLengthField<N>,

    requires
        T::try_from_fixed(T::to_fixed(v)@) == Ok::<T::V, T::Error>(v),
    ensures
        match split_block(T::to_fixed(v)@ + rest, N as nat) {
            Some((block, left)) => lifted(T::try_from_fixed(block)) == Ok::<
                T::V,
                crate::error::CodecError<T::Error>,
            >(v) && left == rest,
            None => false,
        },
{
    lemma_split_written(T::to_fixed(v)@, rest);
}

/// Round trip of a fixed-length field under a context: the same context reaches both
/// contracts, and where decoding undoes encoding under it, the stream decodes to `v` and
/// is left holding exactly `rest`.
pub proof fn lemma_try_fixed_with_round_trip<T, Context, const N: usize>(
    v: T::V,
    ctx: Context,
    rest: Seq<u8>,
) where T: TryDecodeFixedLengthFieldWith<N, Context> + EncodeFixedLengthFieldWith<N, Context>,

    requires
        T::try_from_fixed_with(T::to_fixed_with(v, ctx)@, ctx) == Ok::<T::V, T::Error>(v),
    ensures
        match split_block(T::to_fixed_with(v, ctx)@ + rest, N as nat) {
            Some((block, left)) => lifted(T::try_from_fixed_with(block, ctx)) == Ok::<
                T::V,
                crate::error::CodecError<T::Error>,
            >(v) && left == rest,
            None => false,
        },
{
    lemma_split_written(T::to_fixed_with(v, ctx)@, rest);
}

/// Round trip of a variable-length field read with its length given: where the type's
/// decode contract undoes its encode contract on `v`, reading as many bytes as were
/// written for `v` decodes to `v` and leaves exactly `rest`.
pub proof fn lemma_variable_round_trip<T>(v: T::V, rest: Seq<u8>) where
    T: DecodeVariableLengthField + EncodeVariableLengthField,

    requires
        T::from_variable(T::to_variable(v)) == v,
    ensures
        match split_block(T::to_variable(v) + rest, T::to_variable(v).len()) {
            Some((block, left)) => T::from_variable(block) == v && left == rest,
            None => false,
        },
{
    lemma_split_written(T::to_variable(v), rest);
}

/// Round trip of a variable-length field whose conversion may fail: where the type's
/// decode contract accepts the block written for `v` and gives back `v`, reading as many
/// bytes as were written decodes to `v` and leaves exactly `rest`.
pub proof fn lemma_try_variable_round_trip<T>(v: T::V, rest: Seq<u8>) where
    T: TryDecodeVariableLengthField + EncodeVariableLengthField,

    requires
        T::try_from_variable(T::to_variable(v)) == Ok::<T::V, T::Error>(v),
    ensures
        match split_block(T::to_variable(v) + rest, T::to_variable(v).len()) {
            Some((block, left)) => lifted(T::try_from_variable(block)) == Ok::<
                T::V,
                crate::error::CodecError<T::Error>,
            >(v) && left == rest,
            None => false,
        },
{
    lemma_split_written(T::to_variable(v), rest);
}

/// Round trip of a variable-length field under a context: the same context reaches both
/// contracts, and where decoding undoes encoding under it, reading as many bytes as were
/// written decodes to `v` and leaves exactly `rest`.
pub proof fn lemma_try_variable_with_round_trip<T, Context>(
    v: T::V,
    ctx: Context,
    rest: Seq<u8>,
) where T: TryDecodeVariableLengthFieldWith<Context> + EncodeVariableLengthFieldWith<Context>,

    requires
        T::try_from_variable_with(T::to_variable_with(v, ctx), ctx) == Ok::<T::V, T::Error>(v),
    ensures
        match split_block(
            T::to_variable_with(v, ctx) + rest,
            T::to_variable_with(v, ctx).len(),
        ) {
            Some((block, left)) => lifted(T::try_from_variable_with(block, ctx)) == Ok::<
                T::V,
                crate::error::CodecError<T::Error>,
            >(v) && left == rest,
            None => false,
        },
{
    lemma_split_written(T::to_variable_with(v, ctx), rest);
}

/// Splitting a written block off the front of what follows it gives the block back.
proof fn lemma_split_written(block: Seq<u8>, rest: Seq<u8>)
    ensures
        split_block(block + rest, block.len()) == Some((block, rest)),
{
    assert((block + rest).take(block.len() as int) =~= block);
    assert((block + rest).skip(block.len() as int) =~= rest);
}

} // verus!
