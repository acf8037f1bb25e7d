use vstd::prelude::*;

verus! {

/// The eight little-endian bytes of an account id.
pub open spec fn le_bytes(a: u64) -> Seq<u8> {
    seq![
        (a % 0x100) as u8,
        (a / 0x100 % 0x100) as u8,
        (a / 0x1_0000 % 0x100) as u8,
        (a / 0x100_0000 % 0x100) as u8,
        (a / 0x1_0000_0000 % 0x100) as u8,
        (a / 0x100_0000_0000 % 0x100) as u8,
        (a / 0x1_0000_0000_0000 % 0x100) as u8,
        (a / 0x100_0000_0000_0000 % 0x100) as u8,
    ]
}

/// The bytes of the text `github::identity`, which separates the pool tags
/// of identity responses from other tags.
pub open spec fn identity_domain() -> Seq<u8> {
    seq![103u8, 105, 116, 104, 117, 98, 58, 58, 105, 100, 101, 110, 116, 105, 116, 121]
}

/// The pool tag of a response for `a`: the domain text with its compact
/// length prefix (sixteen, stored as `16 << 2`), then the account's bytes.
pub open spec fn identity_tag_bytes(a: u64) -> Seq<u8> {
    seq![64u8] + identity_domain() + le_bytes(a)
}

/// Relies on parity-scale-codec's `Encode` for `u64`: fixed-width integers
/// are written as their little-endian bytes.
#[verifier::external_body]
pub(crate) fn encode_account(a: u64) -> (r: Vec<u8>)
    ensures
        r@ == le_bytes(a),
{
    parity_scale_codec::Encode::encode(&a)
}

/// Relies on parity-scale-codec's `Encode` for a pair of `&str` and `u64`:
/// a pair is its parts in order, a string is its compact length followed by
/// its bytes, and an integer is its little-endian bytes.
#[verifier::external_body]
pub(crate) fn identity_tag(a: u64) -> (r: Vec<u8>)
    ensures
        r@ == identity_tag_bytes(a),
{
    parity_scale_codec::Encode::encode(&("github::identity", a))
}

} // verus!
