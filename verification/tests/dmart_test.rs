use dmart::dmart::{AccountStats, Contract, DEFAULT_GAS_FEE, MINT_CALL_DEPOSIT, ONE_NEAR};
use dmart::errors::ContractError;

fn s(x: &str) -> String {
    x.to_string()
}

fn contract_with(accounts: &[&str]) -> Contract {
    let mut c = Contract::new(s("nft.near"));
    for a in accounts {
        c.internal_create_account(&s(a)).unwrap();
    }
    c
}

fn stats(avatar: &str, thumbnail: &str) -> AccountStats {
    AccountStats { avatar: s(avatar), thumbnail: s(thumbnail) }
}

#[test]
fn new_contract_is_empty() {
    let c = Contract::new(s("nft.near"));
    assert_eq!(c.nft_contract, "nft.near");
    assert_eq!(c.get_num_accounts(), 0);
    assert_eq!(c.get_account(&s("alice")), None);
}

#[test]
fn create_account_twice_is_refused() {
    let mut c = contract_with(&["alice"]);
    assert_eq!(c.internal_create_account(&s("alice")).err(), Some(ContractError::AccountAlreadyExists));
    assert_eq!(c.get_num_accounts(), 1);
}

#[test]
fn avatar_read_after_write() {
    let mut c = contract_with(&["alice", "bob"]);
    c.set_thumbnail(&s("alice"), s("thumb")).unwrap();
    c.set_avatar(&s("alice"), s("ava")).unwrap();
    assert_eq!(c.get_account(&s("alice")), Some(stats("ava", "thumb")));
    assert_eq!(c.get_account(&s("bob")), Some(stats("", "")));
}

#[test]
fn set_avatar_needs_an_account() {
    let mut c = contract_with(&[]);
    assert_eq!(c.set_avatar(&s("carol"), s("x")), Err(ContractError::AccountNotFound));
    assert_eq!(c.set_thumbnail(&s("carol"), s("x")), Err(ContractError::AccountNotFound));
    assert_eq!(ContractError::AccountNotFound.message(), "Account doesn't exist");
}

#[test]
fn pages_of_accounts() {
    let mut c = contract_with(&["a", "b", "c", "d"]);
    c.set_avatar(&s("c"), s("cc")).unwrap();
    let page = c.get_accounts(1, 2);
    assert_eq!(page, vec![(s("b"), stats("", "")), (s("c"), stats("cc", ""))]);
    assert_eq!(c.get_accounts(3, 10), vec![(s("d"), stats("", ""))]);
    assert_eq!(c.get_accounts(5, 1), vec![]);
    let mut joined = c.get_accounts(0, 1);
    joined.extend(c.get_accounts(1, 2));
    assert_eq!(joined, c.get_accounts(0, 3));
}

#[test]
fn accounts_by_ids() {
    let mut c = contract_with(&["a", "b"]);
    c.set_avatar(&s("b"), s("bb")).unwrap();
    assert_eq!(c.get_accounts_with_ids(&vec![s("b"), s("a")]), Ok(vec![stats("bb", ""), stats("", "")]));
    assert_eq!(c.get_accounts_with_ids(&vec![s("a"), s("z")]), Err(ContractError::AccountIdNotRegistered));
}

#[test]
fn minted_nft_is_recorded_for_its_owner() {
    let mut c = contract_with(&["alice"]);
    assert_eq!(c.on_minted_nft(&s("alice"), s("t1"), true), Ok(true));
    assert_eq!(c.on_minted_nft(&s("alice"), s("t2"), true), Ok(true));
    assert_eq!(c.on_minted_nft(&s("alice"), s("t1"), true), Ok(true));
    assert_eq!(c.user_nfts.get(&s("alice")).unwrap().to_vec(), vec![s("t1"), s("t2")]);
}

#[test]
fn failed_mint_is_refused() {
    let mut c = contract_with(&["alice"]);
    assert_eq!(c.on_minted_nft(&s("alice"), s("t1"), false), Err(ContractError::MintFailed));
    assert_eq!(c.on_minted_nft(&s("bob"), s("t1"), true), Err(ContractError::OwnerAccountNotFound));
    assert_eq!(c.on_minted_nft(&s("bob"), s("t1"), false), Err(ContractError::MintFailed));
    assert!(!c.user_nfts.contains_key(&s("alice")));
    assert_eq!(ContractError::MintFailed.message(), "Mint chest failed");
}

#[test]
fn only_the_contract_sets_the_nft_contract() {
    let mut c = contract_with(&[]);
    assert_eq!(c.set_nft_contract(&s("eve"), &s("dmart.near"), s("x")), Err(ContractError::NotContractItself));
    assert_eq!(c.nft_contract, "nft.near");
    assert_eq!(c.set_nft_contract(&s("dmart.near"), &s("dmart.near"), s("nft2.near")), Ok(()));
    assert_eq!(c.nft_contract, "nft2.near");
}

#[test]
fn mint_costs_one_near() {
    let c = contract_with(&[]);
    let r = c.mint_nft(&s("alice"), None, s("t"), s("d"), s("m"), s("art"), ONE_NEAR - 1, 5_000_000_000);
    assert_eq!(r.err(), Some(ContractError::WrongMintDeposit));
    let req = c
        .mint_nft(&s("alice"), None, s("t"), s("d"), s("m"), s("art"), ONE_NEAR, 5_000_000_000)
        .ok()
        .unwrap();
    assert_eq!(req.token_id, "5_alice");
    assert_eq!(req.receiver_id, "alice");
    assert_eq!(req.nft_contract, "nft.near");
    assert_eq!((req.title.as_str(), req.description.as_str(), req.media.as_str()), ("t", "d", "m"));
    assert_eq!(req.copies, 1);
    assert_eq!(req.deposit, MINT_CALL_DEPOSIT);
    assert_eq!(req.gas, DEFAULT_GAS_FEE);
}

#[test]
fn mint_for_another_account() {
    let c = contract_with(&[]);
    let req = c
        .mint_nft(&s("alice"), Some(s("bob")), s("t"), s("d"), s("m"), s("art"), ONE_NEAR, 1_700_000_000_999_999_999)
        .ok()
        .unwrap();
    assert_eq!(req.token_id, "1700000000_bob");
    assert_eq!(req.receiver_id, "bob");
}
