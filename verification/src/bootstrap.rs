//! Checked decoding of an imported chain spec.

use vstd::prelude::*;
use base64::Engine;

verus! {

/// What standard base64 decoding yields for a string, when it is
/// valid; the result depends on the characters alone.
pub uninterp spec fn base64_decoded(s: Seq<char>) -> Option<Seq<u8>>;

/// Relies on base64's general-purpose engine, standard alphabet with
/// trailing bits allowed: decoding is a pure function of the input.
#[verifier::external_body]
fn decode_base64(s: &str) -> (r: Option<Vec<u8>>)
    ensures
        r matches Option::Some(v) ==> base64_decoded(s@) == Option::Some(v@),
        r is None ==> base64_decoded(s@) is None,
{
    let engine = base64::engine::GeneralPurpose::new(
        &base64::alphabet::STANDARD,
        base64::engine::GeneralPurposeConfig::new().with_decode_allow_trailing_bits(true),
    );
    engine.decode(s).ok()
}

/// Decode imported chain-spec content; input that is not base64 is a
/// decode error, and nothing else is.
pub fn decode_spec_content(encoded: &str) -> (r: Result<Vec<u8>, crate::store::Error>)
    ensures
        match r {
            Result::Ok(v) => base64_decoded(encoded@) == Option::Some(v@),
            Result::Err(e) => base64_decoded(encoded@) is None && e
                == crate::store::Error::DecodeError,
        },
{
    match decode_base64(encoded) {
        Option::Some(v) => Result::Ok(v),
        Option::None => Result::Err(crate::store::Error::DecodeError),
    }
}

} // verus!
