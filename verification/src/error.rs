use vstd::prelude::*;

verus! {

/// Failure kinds surfaced while decoding a wire stream, each carrying
/// what a caller needs to diagnose it.
///
/// A comparison of two values of different concrete types is not an
/// error: it resolves to an unequal result instead.
#[derive(Clone, Debug, PartialEq, Eq)]
pub enum DecodeError {
    /// The underlying byte source ran out of bytes.
    IoFailure,
    /// An envelope named a type identifier that was never registered;
    /// the field carries that identifier's bytes.
    UnknownTypeIdentifier(Vec<u8>),
    /// A declared length is inconsistent with the bytes that are
    /// available: the stream owes `expected` more bytes, but only
    /// `available` remain. A declaration below the format's minimum
    /// carries the minimum as `expected` and the declared value as
    /// `available`.
    MalformedFrame { expected: u64, available: u64 },
}

} // verus!
