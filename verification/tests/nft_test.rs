use dmart::errors::ContractError;
use dmart::nft::{AccountStats, Contract, ContractMetadata, TokenMetadata, DEFAULT_GAS_FEE};
use dmart::storage::StorageAccount;

fn s(x: &str) -> String {
    x.to_string()
}

fn meta(title: &str) -> TokenMetadata {
    TokenMetadata {
        title: Some(s(title)),
        description: None,
        media: None,
        media_hash: None,
        copies: Some(1),
        issued_at: None,
        expires_at: None,
        starts_at: None,
        updated_at: None,
        extra: None,
        reference: None,
        reference_hash: None,
    }
}

fn metadata_of(id: &String) -> Option<TokenMetadata> {
    if id.starts_with("missing") {
        None
    } else {
        Some(meta(&format!("title of {}", id)))
    }
}

fn count_of(id: &String) -> Option<u64> {
    if id == "alice" {
        Some(3)
    } else {
        None
    }
}

fn account_stats(info: &str, nfts: u64) -> AccountStats {
    AccountStats { account_info: s(info), num_followers: 0, num_following: 0, num_nfts: nfts }
}

#[test]
fn owner_gives_mint_role() {
    let mut c = Contract::new();
    assert_eq!(c.set_role(&s("eve"), &s("owner"), s("minter")), Err(ContractError::NotContractOwner));
    assert_eq!(c.set_role(&s("owner"), &s("owner"), s("minter")), Ok(true));
    assert_eq!(c.set_role(&s("owner"), &s("owner"), s("minter")), Ok(false));
    assert_eq!(c.roles.get(&s("minter")), Some(&s("contract_mint")));
}

#[test]
fn mint_needs_the_mint_role() {
    let mut c = Contract::new();
    let owner = s("owner");
    assert_eq!(c.nft_mint(&s("minter"), &owner, s("t1")), Err(ContractError::NoMintRole));
    c.roles.insert(s("viewer"), s("view"));
    assert_eq!(c.nft_mint(&s("viewer"), &owner, s("t1")), Err(ContractError::NoMintPermission));
    c.set_role(&owner, &owner, s("owner")).unwrap();
    assert_eq!(c.nft_mint(&owner, &owner, s("t1")), Ok(()));
    assert_eq!(c.nft_mint(&owner, &owner, s("t2")), Ok(()));
    assert_eq!(c.token_ids.to_vec(), vec![s("t1"), s("t2")]);
    assert_eq!(ContractError::NoMintRole.message(), "Account doesn't have any special role to mint NFT");
}

#[test]
fn only_the_owner_mints_even_with_the_role() {
    let mut c = Contract::new();
    let owner = s("owner");
    c.set_role(&owner, &owner, s("minter")).unwrap();
    assert_eq!(c.nft_mint(&s("minter"), &owner, s("t1")), Err(ContractError::UnauthorizedMinter));
    assert_eq!(c.token_ids.len(), 0);
    assert_eq!(ContractError::UnauthorizedMinter.message(), "Unauthorized");
}

fn contract_metadata(spec: &str, reference: Option<&str>, hash_len: Option<usize>) -> ContractMetadata {
    ContractMetadata {
        spec: s(spec),
        name: s("DMart"),
        symbol: s("DM"),
        icon: None,
        base_uri: None,
        reference: reference.map(s),
        reference_hash: hash_len.map(|n| vec![7u8; n]),
    }
}

#[test]
fn contract_metadata_is_checked() {
    assert_eq!(contract_metadata("nft-1.0.0", None, None).check(), Ok(()));
    assert_eq!(contract_metadata("nft-1.0.0", Some("r"), Some(32)).check(), Ok(()));
    assert_eq!(contract_metadata("nft-2.0.0", None, None).check(), Err(ContractError::InvalidMetadataSpec));
    assert_eq!(contract_metadata("nft-1.0.0", Some("r"), None).check(), Err(ContractError::ReferenceMismatch));
    assert_eq!(contract_metadata("nft-1.0.0", None, Some(32)).check(), Err(ContractError::ReferenceMismatch));
    assert_eq!(contract_metadata("nft-1.0.0", Some("r"), Some(31)).check(), Err(ContractError::BadReferenceHash));
}

#[test]
fn market_list_after_buy_moves_last_order_into_gap() {
    let mut c = Contract::new();
    c.storage_accounts.insert(s("alice"), StorageAccount { balance: 0 });
    for (i, t) in ["a", "b", "c"].iter().enumerate() {
        c.sell_nft(&s("alice"), s(t), 1, Some(s("alice")), (i as u64) * 1_000_000_000, &s("market")).unwrap();
    }
    assert_eq!(market_ids(&c), vec![s("0_a"), s("1_b"), s("2_c")]);
    c.buy_nft(&s("bob"), &s("0_a"), 1, &s("market")).ok().unwrap();
    assert_eq!(market_ids(&c), vec![s("2_c"), s("1_b")]);
    assert_eq!(c.order_by_user.get(&s("alice")).unwrap().to_vec(), vec![s("2_c"), s("1_b")]);
}

#[test]
fn seller_lists_hold_only_their_open_orders() {
    let mut c = Contract::new();
    c.storage_accounts.insert(s("alice"), StorageAccount { balance: 0 });
    c.storage_accounts.insert(s("carol"), StorageAccount { balance: 0 });
    c.sell_nft(&s("alice"), s("a"), 1, Some(s("alice")), 0, &s("market")).unwrap();
    c.sell_nft(&s("carol"), s("c"), 1, Some(s("carol")), 0, &s("market")).unwrap();
    c.buy_nft(&s("bob"), &s("0_a"), 1, &s("market")).ok().unwrap();
    assert_eq!(c.order_by_user.get(&s("alice")).unwrap().len(), 0);
    assert_eq!(c.order_by_user.get(&s("carol")).unwrap().to_vec(), vec![s("0_c")]);
    assert_eq!(c.orders.get(&s("0_c")).unwrap().owner_id, "carol");
}

#[test]
fn a_token_linked_to_an_open_order_is_not_refused_here() {
    let mut c = Contract::new();
    c.sell_nft(&s("alice"), s("t"), 1, Some(s("alice")), 0, &s("market")).unwrap();
    assert!(c.order_by_nft.contains_key(&s("t")));
    assert!(c.sell_nft(&s("market"), s("t"), 1, Some(s("market")), 1_000_000_000, &s("market")).is_ok());
}

#[test]
fn sale_hands_the_token_to_the_contract() {
    let mut c = Contract::new();
    let escrow = c.sell_nft(&s("alice"), s("tok"), 9, Some(s("alice")), 0, &s("market")).ok().unwrap();
    assert_eq!(escrow.receiver_id, "market");
    assert_eq!(escrow.token_id, "tok");
}

#[test]
fn tokens_of_an_owner() {
    assert_eq!(Contract::tokens_of_owner(None), Vec::<String>::new());
    assert_eq!(Contract::tokens_of_owner(Some(vec![s("a"), s("b")])), vec![s("a"), s("b")]);
}

#[test]
fn tokens_with_metadata_of_an_owner() {
    let tokens = Contract::tokens_metadata_of_owner(&s("alice"), Some(vec![s("a"), s("b")]), &metadata_of).ok().unwrap();
    assert_eq!(tokens.len(), 2);
    assert_eq!(tokens[1].token_id, "b");
    assert_eq!(tokens[1].owner_id, "alice");
    assert_eq!(tokens[1].metadata.title, Some(s("title of b")));
    assert_eq!(Contract::tokens_metadata_of_owner(&s("alice"), None, &metadata_of).ok().unwrap().len(), 0);
    assert_eq!(
        Contract::tokens_metadata_of_owner(&s("alice"), Some(vec![s("a"), s("missing")]), &metadata_of).err(),
        Some(ContractError::TokenMetadataMissing)
    );
}

#[test]
fn single_token_metadata() {
    assert_eq!(Contract::token_metadata(&s("x"), &metadata_of).ok().unwrap().title, Some(s("title of x")));
    assert_eq!(Contract::token_metadata(&s("missing1"), &metadata_of).err(), Some(ContractError::TokenMetadataMissing));
}

#[test]
fn all_minted_tokens() {
    let mut c = Contract::new();
    c.record_mint(s("t1"));
    c.record_mint(s("t2"));
    let owner_of = |id: &String| if id == "t1" { Some(s("alice")) } else { Some(s("bob")) };
    let nfts = c.get_nfts(&owner_of, &metadata_of).ok().unwrap();
    assert_eq!(nfts.len(), 2);
    assert_eq!((nfts[0].token_id.as_str(), nfts[0].owner_id.as_str()), ("t1", "alice"));
    assert_eq!((nfts[1].token_id.as_str(), nfts[1].owner_id.as_str()), ("t2", "bob"));
    let no_owner = |_id: &String| -> Option<String> { None };
    assert_eq!(c.get_nfts(&no_owner, &metadata_of).err(), Some(ContractError::TokenOwnerMissing));
    c.record_mint(s("missing"));
    assert_eq!(c.get_nfts(&owner_of, &metadata_of).err(), Some(ContractError::TokenMetadataMissing));
}

#[test]
fn profiles_with_token_counts() {
    let mut c = Contract::new();
    let created = c.internal_create_account(&s("alice")).unwrap();
    assert_eq!(created.account_info, "");
    c.internal_create_account(&s("bob")).unwrap();
    assert_eq!(c.internal_create_account(&s("bob")).err(), Some(ContractError::AccountAlreadyExists));
    c.set_account_info(&s("alice"), s("aW5mbw==")).unwrap();
    assert_eq!(c.set_account_info(&s("carol"), s("x")), Err(ContractError::AccountNotFound));
    assert_eq!(c.get_account(&s("alice"), &count_of), Some(account_stats("aW5mbw==", 3)));
    assert_eq!(c.get_account(&s("bob"), &count_of), Some(account_stats("", 0)));
    assert_eq!(c.get_account(&s("carol"), &count_of), None);
    assert_eq!(c.get_num_accounts(), 2);
    assert_eq!(Contract::get_num_nfts(&s("alice"), &count_of), 3);
    assert_eq!(Contract::get_num_nfts(&s("bob"), &count_of), 0);
}

#[test]
fn pages_and_lists_of_profiles() {
    let mut c = Contract::new();
    for a in ["alice", "bob", "carol"] {
        c.internal_create_account(&s(a)).unwrap();
    }
    assert_eq!(
        c.get_accounts(0, 2, &count_of),
        vec![(s("alice"), account_stats("", 3)), (s("bob"), account_stats("", 0))]
    );
    assert_eq!(c.get_accounts(2, 5, &count_of), vec![(s("carol"), account_stats("", 0))]);
    assert_eq!(
        c.get_accounts_with_ids(&vec![s("carol"), s("alice")], &count_of),
        Ok(vec![account_stats("", 0), account_stats("", 3)])
    );
    assert_eq!(c.get_accounts_with_ids(&vec![s("dave")], &count_of), Err(ContractError::AccountIdNotRegistered));
    let ids = vec![s("x"), s("bob"), s("y"), s("carol"), s("alice")];
    assert_eq!(
        c.get_account_range(&ids, 1, 3),
        vec![(s("bob"), account_stats("", 0)), (s("carol"), account_stats("", 0))]
    );
    assert_eq!(c.get_account_range(&ids, 9, 3), vec![]);
}

#[test]
fn art_mint_needs_a_profile() {
    let mut c = Contract::new();
    assert_eq!(c.mint_art_nft(&s("alice"), None, 7_000_000_000).err(), Some(ContractError::AccountNotFound));
    c.internal_create_account(&s("alice")).unwrap();
    let order = c.mint_art_nft(&s("alice"), Some(s("bob")), 7_000_000_000).ok().unwrap();
    assert_eq!(order.token_id, "7_invite_bob");
    assert_eq!(order.receiver_id, "bob");
    let own = c.mint_art_nft(&s("alice"), None, 8_500_000_000).ok().unwrap();
    assert_eq!(own.token_id, "8_invite_alice");
    assert_eq!(c.token_ids.to_vec(), vec![s("7_invite_bob"), s("8_invite_alice")]);
}

fn market_ids(c: &Contract) -> Vec<String> {
    c.marketplace.to_vec()
}

#[test]
fn sell_then_buy() {
    let mut c = Contract::new();
    c.storage_accounts.insert(s("alice"), StorageAccount { balance: 10 });
    assert!(c.sell_nft(&s("alice"), s("tok"), 100, Some(s("alice")), 42_000_000_000, &s("market")).is_ok());
    assert_eq!(market_ids(&c), vec![s("42_tok")]);
    assert_eq!(c.order_by_nft.get(&s("tok")), Some(&s("42_tok")));
    assert_eq!(c.order_by_user.get(&s("alice")).unwrap().to_vec(), vec![s("42_tok")]);
    let listed = c.get_orders(&metadata_of).ok().unwrap();
    assert_eq!(listed.len(), 1);
    assert_eq!(listed[0].order_id, "42_tok");
    assert_eq!(listed[0].owner_id, "alice");
    assert_eq!(listed[0].nft_id, "tok");
    assert_eq!(listed[0].price, 100);
    assert_eq!(listed[0].create_at, 42_000_000_000);
    assert!(!listed[0].is_sold);
    assert_eq!(listed[0].metadata.title, Some(s("title of tok")));
    assert_eq!(c.get_account_orders(&s("alice"), &metadata_of).ok().unwrap().len(), 1);
    assert_eq!(c.get_account_orders(&s("bob"), &metadata_of).ok().unwrap().len(), 0);

    let transfer = c.buy_nft(&s("bob"), &s("42_tok"), 100, &s("market")).ok().unwrap();
    assert_eq!(transfer.contract_id, "market");
    assert_eq!(transfer.method, "nft_transfer");
    assert_eq!(transfer.receiver_id, "bob");
    assert_eq!(transfer.token_id, "tok");
    assert_eq!(transfer.deposit, 1);
    assert_eq!(transfer.gas, DEFAULT_GAS_FEE);
    assert_eq!(c.storage_accounts.get(&s("alice")), Some(&StorageAccount { balance: 110 }));
    assert_eq!(market_ids(&c), Vec::<String>::new());
    assert!(!c.orders.contains_key(&s("42_tok")));
    assert!(!c.order_by_nft.contains_key(&s("tok")));
    assert_eq!(c.order_by_user.get(&s("alice")).unwrap().len(), 0);
    assert_eq!(c.buy_nft(&s("bob"), &s("42_tok"), 100, &s("market")).err(), Some(ContractError::OrderNotFound));
}

#[test]
fn sell_refusals() {
    let mut c = Contract::new();
    assert_eq!(c.sell_nft(&s("alice"), s("tok"), 1, None, 0, &s("market")).err(), Some(ContractError::NftOwnerNotFound));
    assert_eq!(c.sell_nft(&s("alice"), s("tok"), 1, Some(s("bob")), 0, &s("market")).err(), Some(ContractError::NotTokenOwner));
    // The book is looked up by the token id.
    assert!(c.sell_nft(&s("alice"), s("0_x"), 1, Some(s("alice")), 0, &s("market")).is_ok());
    assert!(c.sell_nft(&s("alice"), s("0_x"), 1, Some(s("alice")), 0, &s("market")).is_ok());
    assert!(c.sell_nft(&s("alice"), s("x"), 1, Some(s("alice")), 5_000_000_000, &s("market")).is_ok());
    assert_eq!(c.sell_nft(&s("alice"), s("5_x"), 1, Some(s("alice")), 0, &s("market")).err(), Some(ContractError::NftAlreadySelling));
    assert_eq!(ContractError::NftAlreadySelling.message(), "NFT are selling.");
}

#[test]
fn buy_refusals() {
    let mut c = Contract::new();
    c.sell_nft(&s("alice"), s("tok"), 50, Some(s("alice")), 1_000_000_000, &s("market")).unwrap();
    assert_eq!(c.buy_nft(&s("bob"), &s("nope"), 50, &s("market")).err(), Some(ContractError::OrderNotFound));
    assert_eq!(c.buy_nft(&s("alice"), &s("1_tok"), 50, &s("market")).err(), Some(ContractError::BuyOwnOrder));
    assert_eq!(c.buy_nft(&s("bob"), &s("1_tok"), 49, &s("market")).err(), Some(ContractError::WrongOrderPayment));
    assert_eq!(c.buy_nft(&s("bob"), &s("1_tok"), 50, &s("market")).err(), Some(ContractError::SellerStorageNotFound));
    c.storage_accounts.insert(s("alice"), StorageAccount { balance: u128::MAX - 10 });
    assert_eq!(c.buy_nft(&s("bob"), &s("1_tok"), 50, &s("market")).err(), Some(ContractError::BalanceOverflow));
    assert_eq!(market_ids(&c), vec![s("1_tok")]);
    c.storage_accounts.insert(s("alice"), StorageAccount { balance: 0 });
    assert!(c.buy_nft(&s("bob"), &s("1_tok"), 50, &s("market")).is_ok());
}

#[test]
fn listing_refusals() {
    let mut c = Contract::new();
    c.sell_nft(&s("alice"), s("missing-meta"), 5, Some(s("alice")), 0, &s("market")).unwrap();
    assert_eq!(c.get_orders(&metadata_of).err(), Some(ContractError::NftNotFound));
    c.marketplace.insert(s("ghost"));
    let mut d = Contract::new();
    d.marketplace.insert(s("ghost"));
    assert_eq!(d.get_orders(&metadata_of).err(), Some(ContractError::InvalidOrders));
    assert_eq!(ContractError::InvalidOrders.message(), "Contain invalid order(s)");
}
