//! The OSC side of the host: the name under which it advertises itself, and
//! decoding the datagrams it receives.
use vstd::prelude::*;
use vstd::string::*;
use crate::text::{upper_hex_chars, upper_hex_string};

verus! {

/// Declares `rosc::OscPacket`, a decoded OSC message or bundle, as a type whose
/// contents stay hidden from proofs.
#[verifier::external_type_specification]
#[verifier::external_body]
pub struct ExOscPacket(rosc::OscPacket);

/// Declares `rosc::OscError`, the reason a datagram did not decode, as a type
/// whose contents stay hidden from proofs.
#[verifier::external_type_specification]
#[verifier::external_body]
pub struct ExOscError(rosc::OscError);

/// Whether `rosc::decoder::decode_udp` decodes the bytes `bytes` into a packet.
pub uninterp spec fn osc_udp_decodes(bytes: Seq<u8>) -> bool;

/// Calls `rosc::decoder::decode_udp`. Trusted: the call succeeds exactly where
/// `osc_udp_decodes` holds of the bytes, which depends on them alone, and it
/// fails on an empty slice (its source rejects an empty packet first). The
/// packet and the remaining bytes are not described.
#[verifier::external_body]
fn decode_udp(msg: &[u8]) -> (res: Result<(&[u8], rosc::OscPacket), rosc::OscError>)
    ensures
        res is Ok <==> osc_udp_decodes(msg@),
        msg@.len() == 0 ==> res is Err,
{
    rosc::decoder::decode_udp(msg)
}

/// Calls `rand::random::<u32>()`. Trusted only to return; any `u32` may come
/// back.
#[verifier::external_body]
fn random_u32() -> (res: u32) {
    rand::random::<u32>()
}

/// Why a received datagram was not delivered.
pub enum ReceiveError {
    /// The datagram is not an OSC packet.
    Decode(rosc::OscError),
}

/// Decodes the datagram buffer `buf` into the OSC packet it holds.
pub fn decode_datagram(buf: &[u8]) -> (res: Result<rosc::OscPacket, ReceiveError>)
    ensures
        res is Ok <==> osc_udp_decodes(buf@),
        buf@.len() == 0 ==> res is Err,
{
    match decode_udp(buf) {
        Ok((_, packet)) => Ok(packet),
        Err(err) => Err(ReceiveError::Decode(err)),
    }
}

/// The name under which an application called `app_name` advertises its
/// OSCQuery service when it draws `suffix`: the application name, a dash and
/// the suffix in upper-case hexadecimal.
pub open spec fn api_name_chars(app_name: Seq<char>, suffix: u32) -> Seq<char> {
    app_name + seq!['-'] + upper_hex_chars(suffix as nat)
}

/// The advertised service name of `app_name` with the suffix `suffix`, as
/// `format!("{}-{:X}", app_name, suffix)`.
pub fn api_app_name_with(app_name: &str, suffix: u32) -> (res: String)
    ensures
        res@ == api_name_chars(app_name@, suffix),
{
    let mut name = app_name.to_owned();
    name.append("-");
    let hex = upper_hex_string(suffix);
    name.append(hex.as_str());
    proof {
        reveal_strlit("-");
    }
    name
}

/// The advertised service name of `app_name` with a random suffix, so that
/// two running instances are told apart.
pub fn api_app_name(app_name: &str) -> (res: String)
    ensures
        exists|suffix: u32| res@ == api_name_chars(app_name@, suffix),
{
    let suffix = random_u32();
    api_app_name_with(app_name, suffix)
}

} // verus!
