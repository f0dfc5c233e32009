//! Bitcoin script assembly through the `bitcoin` crate's script builder.

use vstd::prelude::*;

verus! {

pub const OP_IF: u8 = 0x63;
pub const OP_ELSE: u8 = 0x67;
pub const OP_ENDIF: u8 = 0x68;
pub const OP_DROP: u8 = 0x75;
pub const OP_DUP: u8 = 0x76;
pub const OP_EQUALVERIFY: u8 = 0x88;
pub const OP_SHA256: u8 = 0xa8;
pub const OP_HASH160: u8 = 0xa9;
pub const OP_CHECKSIG: u8 = 0xac;
pub const OP_CSV: u8 = 0xb2;

/// Longest data push that is written with a one-byte length prefix.
pub const MAX_DIRECT_PUSH: usize = 75;

#[verifier::external_type_specification]
#[verifier::external_body]
pub struct ExBuilder(bitcoin::blockdata::script::Builder);

/// The bytes of the script assembled so far.
pub uninterp spec fn builder_bytes(b: bitcoin::blockdata::script::Builder) -> Seq<u8>;

/// The instruction that pushes `data` (at most 75 bytes) onto the stack:
/// its length, followed by the bytes themselves.
pub open spec fn push_data(data: Seq<u8>) -> Seq<u8> {
    seq![data.len() as u8] + data
}

/// The instruction that pushes the number `n`, for `0 <= n <= 255`: a
/// dedicated opcode for 0 to 16, else the number as a minimal
/// little-endian signed-magnitude push.
pub open spec fn push_number(n: u8) -> Seq<u8> {
    if n == 0 {
        seq![0x00u8]
    } else if n <= 16 {
        seq![(0x50 + n) as u8]
    } else if n < 0x80 {
        seq![0x01u8, n]
    } else {
        seq![0x02u8, n, 0x00u8]
    }
}

/// `Builder::new`. Trusted: the new builder holds the empty script.
#[verifier::external_body]
pub(crate) fn builder_new() -> (b: bitcoin::blockdata::script::Builder)
    ensures
        builder_bytes(b) == Seq::<u8>::empty(),
{
    bitcoin::blockdata::script::Builder::new()
}

/// `Builder::push_opcode`. Trusted: appends the one byte of the opcode.
#[verifier::external_body]
pub(crate) fn builder_push_opcode(b: bitcoin::blockdata::script::Builder, opcode: u8) -> (r:
    bitcoin::blockdata::script::Builder)
    ensures
        builder_bytes(r) == builder_bytes(b).push(opcode),
{
    b.push_opcode(bitcoin::opcodes::All::from(opcode))
}

/// `Builder::push_slice`, for data short enough for a one-byte length.
/// Trusted: appends the length byte and the data.
#[verifier::external_body]
pub(crate) fn builder_push_slice(b: bitcoin::blockdata::script::Builder, data: &[u8]) -> (r:
    bitcoin::blockdata::script::Builder)
    requires
        data@.len() <= MAX_DIRECT_PUSH,
    ensures
        builder_bytes(r) == builder_bytes(b) + push_data(data@),
{
    let bytes: &bitcoin::blockdata::script::PushBytes = data.try_into().unwrap();
    b.push_slice(bytes)
}

/// `Builder::push_int`, for a number that fits in a byte. Trusted:
/// appends the push of that number.
#[verifier::external_body]
pub(crate) fn builder_push_int(b: bitcoin::blockdata::script::Builder, n: u8) -> (r:
    bitcoin::blockdata::script::Builder)
    ensures
        builder_bytes(r) == builder_bytes(b) + push_number(n),
{
    b.push_int(n as i64)
}

/// `Builder::into_bytes`. Trusted: hands out the assembled script.
#[verifier::external_body]
pub(crate) fn builder_into_bytes(b: bitcoin::blockdata::script::Builder) -> (bytes: Vec<u8>)
    ensures
        bytes@ == builder_bytes(b),
{
    b.into_bytes()
}

} // verus!
