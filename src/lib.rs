//! Decoding and encoding of binary fields over byte streams.
//!
//! A type states, through one of the field contracts, how a block of bytes maps to its
//! value (fixed-length, variable-length, length-prefixed, with or without a context
//! value), or reads and writes the stream itself. The façade traits `BinaryDecode` and
//! `BinaryEncode`, which every stream and sink has, read or write the block and apply the
//! contract, keeping stream failures apart from the contract's own failures.
pub mod bitmap;
pub mod bytes;
pub mod decode;
pub mod encode;
pub mod error;
pub mod frame;
pub mod laws;
pub mod stream;

pub use decode::{
    BinaryDecode, DecodeFixedLengthField, DecodeLength, DecodeVariableLengthField, TryDecode,
    TryDecodeFixedLengthField, TryDecodeFixedLengthFieldWith, TryDecodeVariableLengthField,
    TryDecodeVariableLengthFieldWith, TryDecodeWith,
};
pub use encode::{
    BinaryEncode, EncodeFixedLengthField, EncodeFixedLengthFieldWith, EncodeVariableLengthField,
    EncodeVariableLengthFieldWith, TryEncode, TryEncodeWith,
};
pub use error::CodecError;
pub use stream::{BinaryRead, BinaryWrite, SliceReader};
