use vstd::prelude::*;

verus! {

/// What a value must offer to travel on the bus and through a stream: a
/// format name that tells streams of different payload types apart, and a
/// binary codec.
///
/// The three spec functions are the mathematical model of the three
/// executable methods, and an implementation proves that each method
/// computes its model. A payload that is written without a model keeps the
/// defaults, which say nothing: what is proved of streams then holds of
/// it as far as its methods behave as some model would.
pub trait Payload: Sized {
    /// The format name, as a sequence of characters.
    open spec fn spec_format_name() -> Seq<char> {
        arbitrary()
    }

    /// The bytes that `encode` produces, or `None` where the codec rejects
    /// the value.
    open spec fn spec_encode(&self) -> Option<Seq<u8>> {
        arbitrary()
    }

    /// The value that `decode` reads from `bytes`, or `None` where the codec
    /// rejects them.
    open spec fn spec_decode(bytes: Seq<u8>) -> Option<Self> {
        arbitrary()
    }

    /// A stable name for the payload's format.
    fn format_name() -> (name: &'static str)
        ensures
            name@ == Self::spec_format_name(),
    ;

    /// Encodes the value, or returns `None` if it cannot be encoded.
    fn encode(&self) -> (bytes: Option<Vec<u8>>)
        ensures
            bytes is Some <==> self.spec_encode() is Some,
            bytes matches Some(b) ==> self.spec_encode() == Some(b@),
    ;

    /// Decodes a value, or returns `None` if `bytes` do not hold one.
    fn decode(bytes: &[u8]) -> (value: Option<Self>)
        ensures
            value == Self::spec_decode(bytes@),
    ;
}

/// Whether the codec of `T` is faithful: decoding the bytes of an encoded
/// value gives the value back.
pub open spec fn round_trips<T: Payload>() -> bool {
    forall|value: T|
        (#[trigger] value.spec_encode()) matches Some(bytes) ==> T::spec_decode(bytes) == Some(
            value,
        )
}

} // verus!
