//! The two ends of the validation of a profile description: the base64
//! text a user sends is decoded, and the description, once read and written
//! back as JSON, is encoded again.
use vstd::prelude::*;
use crate::errors::ContractError;

verus! {

/// The bytes that base64 (standard alphabet; padding optional, excess
/// padding and trailing bits refused) decodes from the UTF-8 bytes of
/// `text`, or none when `text` is not valid base64.
pub uninterp spec fn base64_decoding(text: Seq<char>) -> Option<Seq<u8>>;

/// The base64 text (standard alphabet, padded) of the UTF-8 bytes of
/// `text`.
pub uninterp spec fn base64_encoding(text: Seq<char>) -> Seq<char>;

/// The decoding error of the base64 crate.
#[verifier::external_type_specification]
#[verifier::external_body]
pub struct ExDecodeError(base64::DecodeError);

/// Calls `base64::decode` (base64 0.13: the standard alphabet; padding may
/// be left out, but excess padding and trailing bits are refused) on the
/// UTF-8 bytes of `text`. Claims only that the outcome depends on the text
/// alone: the decoded bytes, named by `base64_decoding`, or an error exactly
/// when that name gives none. The
/// length computation inside cannot overflow, as a `str` holds at most
/// `isize::MAX` bytes.
#[verifier::external_body]
fn base64_decode(text: &str) -> (r: Result<Vec<u8>, base64::DecodeError>)
    ensures
        match r {
            Ok(bytes) => base64_decoding(text@) == Some(bytes@),
            Err(_) => base64_decoding(text@) is None,
        },
{
    base64::decode(text)
}

/// Calls `base64::encode` (base64 0.13: the standard alphabet with padding)
/// on the UTF-8 bytes of `text`. Claims only that the result is the text
/// named by `base64_encoding`. The size computation inside cannot overflow,
/// as a `str` holds at most `isize::MAX` bytes.
#[verifier::external_body]
fn base64_encode(text: &str) -> (r: String)
    ensures
        r@ == base64_encoding(text@),
{
    base64::encode(text)
}

/// The bytes of base64 profile data; refused when it is not valid base64.
pub fn decode_account_data(data: &String) -> (r: Result<Vec<u8>, ContractError>)
    ensures
        match r {
            Ok(bytes) => base64_decoding(data@) == Some(bytes@),
            Err(e) => e == ContractError::InvalidBase64 && base64_decoding(data@) is None,
        },
{
    match base64_decode(data.as_str()) {
        Ok(bytes) => Ok(bytes),
        Err(_) => Err(ContractError::InvalidBase64),
    }
}

/// The base64 of a profile description as it was written back as JSON;
/// refused when the decoded data held no description.
pub fn encode_account_data(description: Option<String>) -> (r: Result<String, ContractError>)
    ensures
        match description {
            Some(d) => r matches Ok(s) && s@ == base64_encoding(d@),
            None => r == Err::<String, ContractError>(ContractError::InvalidAccountInfo),
        },
{
    match description {
        Some(d) => Ok(base64_encode(d.as_str())),
        None => Err(ContractError::InvalidAccountInfo),
    }
}

} // verus!
