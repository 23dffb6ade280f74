use dmart::errors::ContractError;
use dmart::validator::{decode_account_data, encode_account_data};

#[test]
fn decodes_base64_profile_data() {
    assert_eq!(decode_account_data(&"aGVsbG8gd29ybGQ=".to_string()), Ok(b"hello world".to_vec()));
}

#[test]
fn refuses_invalid_base64() {
    assert_eq!(decode_account_data(&"not base64!".to_string()), Err(ContractError::InvalidBase64));
    assert_eq!(ContractError::InvalidBase64.message(), "Can not decode base 64");
}

#[test]
fn encodes_description() {
    assert_eq!(encode_account_data(Some("{\"a\":1}".to_string())), Ok("eyJhIjoxfQ==".to_string()));
}

#[test]
fn refuses_missing_description() {
    assert_eq!(encode_account_data(None), Err(ContractError::InvalidAccountInfo));
    assert_eq!(ContractError::InvalidAccountInfo.message(), "Can not extract data from bytes");
}
