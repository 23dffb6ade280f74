//! The account, minting and marketplace rules of two NEAR contracts: the
//! DMart front contract and the NFT contract with its order book.
pub mod collections;
pub mod dmart;
pub mod errors;
pub mod nft;
pub mod storage;
pub mod text;
pub mod validator;
