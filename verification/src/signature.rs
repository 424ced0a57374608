//! Transaction signatures, and their base58 text form.

use vstd::prelude::*;

verus! {

/// The identifier of one confirmed transaction: the 64 bytes of its first
/// signature. The poller neither orders nor inspects signatures; it hands them
/// on and remembers the newest.
#[derive(Clone, Copy, Debug, PartialEq, Eq, Hash)]
pub struct Signature {
    pub bytes: [u8; 64],
}

/// What a text stands for as a signature: the 64 bytes that it encodes in
/// base58, or nothing where it is no such encoding.
pub uninterp spec fn parsed_signature(text: Seq<char>) -> Option<Signature>;

/// `solana_sdk::signature::Signature::from_str`, reached through `str::parse`.
///
/// Trusted: the result is the value of [`parsed_signature`] on the text. The
/// outside function decodes base58 onto 64 bytes and fails on any text that is
/// longer than 88 bytes, holds a character outside the alphabet, or decodes to
/// another length; it reads nothing but its argument and does not panic.
#[verifier::external_body]
fn decode_base58(text: &str) -> (decoded: Option<Signature>)
    ensures
        decoded == parsed_signature(text@),
{
    match text.parse::<solana_sdk::signature::Signature>() {
        Ok(signature) => Some(Signature { bytes: signature.into() }),
        Err(_) => None,
    }
}

impl Signature {
    /// Reads a signature from its base58 text, as the ledger reports it.
    pub fn parse(text: &str) -> (signature: Option<Signature>)
        ensures
            signature == parsed_signature(text@),
    {
        decode_base58(text)
    }
}

} // verus!
