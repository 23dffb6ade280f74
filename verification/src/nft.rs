//! The NFT contract: minting roles, the tokens minted through the contract,
//! user profiles, and an order book in which owners sell their tokens.
//!
//! The token ledger itself (owners, metadata and tokens per owner) belongs to
//! the NFT standard's store; the functions here read it through lookups that
//! the caller passes in, and hand back the mint or transfer that the ledger
//! is to perform.
use vstd::prelude::*;
use vstd::string::StringExecFns;
use crate::collections::{
    IndexedMap, IndexedSet, page_of, page_len, string_views, with_member, without_member,
};
use crate::errors::ContractError;
use crate::storage::StorageAccount;
use crate::text::{lemma_token_id_injective, token_id, token_id_of};

verus! {

/// The gas the contract attaches to its outgoing calls (20 TGas).
pub const DEFAULT_GAS_FEE: u64 = 20_000_000_000_000;

/// The role that allows an account to mint.
pub open spec fn mint_role() -> Seq<char> {
    seq!['c', 'o', 'n', 't', 'r', 'a', 'c', 't', '_', 'm', 'i', 'n', 't']
}

/// The reason, if any, for which `nft_mint` refuses a mint by
/// `predecessor`: it needs a role, that role must be the mint role, and the
/// minter must be the owner given to the contract at its creation.
pub open spec fn mint_refusal(
    roles: Map<Seq<char>, String>,
    predecessor: Seq<char>,
    contract_owner: Seq<char>,
) -> Option<ContractError> {
    if !roles.contains_key(predecessor) {
        Some(ContractError::NoMintRole)
    } else if roles[predecessor]@ != mint_role() {
        Some(ContractError::NoMintPermission)
    } else if predecessor != contract_owner {
        Some(ContractError::UnauthorizedMinter)
    } else {
        None
    }
}

/// The metadata of the contract, as the NFT standard defines it.
pub struct ContractMetadata {
    pub spec: String,
    pub name: String,
    pub symbol: String,
    pub icon: Option<String>,
    pub base_uri: Option<String>,
    pub reference: Option<String>,
    pub reference_hash: Option<Vec<u8>>,
}

/// The version of the NFT metadata spec that contract metadata must name.
pub open spec fn nft_metadata_spec() -> Seq<char> {
    seq!['n', 'f', 't', '-', '1', '.', '0', '.', '0']
}

/// The reason, if any, for which contract metadata is refused: it must
/// name the NFT metadata spec, carry a reference exactly when it carries
/// the reference's hash, and that hash must be 32 bytes.
pub open spec fn metadata_refusal(m: ContractMetadata) -> Option<ContractError> {
    if m.spec@ != nft_metadata_spec() {
        Some(ContractError::InvalidMetadataSpec)
    } else if (m.reference is Some) != (m.reference_hash is Some) {
        Some(ContractError::ReferenceMismatch)
    } else if m.reference_hash is Some && m.reference_hash->0@.len() != 32 {
        Some(ContractError::BadReferenceHash)
    } else {
        None
    }
}

impl ContractMetadata {
    /// Checks the metadata as the NFT standard does before a contract is
    /// created with it.
    pub fn check(&self) -> (r: Result<(), ContractError>)
        ensures
            r == (match metadata_refusal(*self) {
                Some(e) => Err(e),
                None => Ok(()),
            }),
            r is Ok <==> {
                &&& self.spec@ == seq!['n', 'f', 't', '-', '1', '.', '0', '.', '0']
                &&& (self.reference is Some) == (self.reference_hash is Some)
                &&& self.reference_hash is Some ==> self.reference_hash->0@.len() == 32
            },
    {
        proof {
            law_metadata_check_reads_only_spec_and_reference(*self);
            reveal_strlit("nft-1.0.0");
            assert("nft-1.0.0"@ =~= nft_metadata_spec());
        }
        let expected = String::from_str("nft-1.0.0");
        if self.spec != expected {
            return Err(ContractError::InvalidMetadataSpec);
        }
        if self.reference.is_some() != self.reference_hash.is_some() {
            return Err(ContractError::ReferenceMismatch);
        }
        match &self.reference_hash {
            Some(h) => {
                if h.len() != 32 {
                    return Err(ContractError::BadReferenceHash);
                }
            },
            None => {},
        }
        Ok(())
    }
}

/// The metadata of a token, as the NFT standard defines it.
pub struct TokenMetadata {
    pub title: Option<String>,
    pub description: Option<String>,
    pub media: Option<String>,
    pub media_hash: Option<Vec<u8>>,
    pub copies: Option<u64>,
    pub issued_at: Option<String>,
    pub expires_at: Option<String>,
    pub starts_at: Option<String>,
    pub updated_at: Option<String>,
    pub extra: Option<String>,
    pub reference: Option<String>,
    pub reference_hash: Option<Vec<u8>>,
}

/// A user's profile.
pub struct Account {
    /// The profile, as base64 of its JSON description.
    pub account_info: String,
    pub bookmarks: Vec<String>,
    pub following: IndexedSet,
    pub followers: IndexedSet,
}

/// What a user's profile shows to others.
#[derive(PartialEq, Eq, Debug)]
pub struct AccountStats {
    pub account_info: String,
    pub num_followers: u64,
    pub num_following: u64,
    pub num_nfts: u64,
}

/// A token offered for sale.
pub struct Order {
    pub owner_id: String,
    pub nft_id: String,
    /// The price in yoctoNEAR.
    pub price: u128,
    /// The block time (in nanoseconds) at which the order was made.
    pub create_at: u64,
    pub is_sold: bool,
}

/// An order as the market lists it, with the metadata of its token.
pub struct OrderDto {
    pub order_id: String,
    pub owner_id: String,
    pub nft_id: String,
    pub price: u128,
    pub create_at: u64,
    pub is_sold: bool,
    pub metadata: TokenMetadata,
}

/// A token with its owner and metadata.
pub struct DMartToken {
    pub token_id: String,
    pub owner_id: String,
    pub metadata: TokenMetadata,
}

/// A token that the ledger is to mint.
pub struct MintOrder {
    pub token_id: String,
    pub receiver_id: String,
}

/// A move of a token that the ledger is to make now, on the caller's
/// behalf.
pub struct LedgerTransfer {
    pub receiver_id: String,
    pub token_id: String,
}

/// The name of the ledger's transfer method.
pub open spec fn transfer_method() -> Seq<char> {
    seq!['n', 'f', 't', '_', 't', 'r', 'a', 'n', 's', 'f', 'e', 'r']
}

/// The transfer call, to the contract itself, that hands a bought token to
/// its buyer.
pub struct TransferRequest {
    /// The contract that is called: the contract itself.
    pub contract_id: String,
    /// The method that is called: the ledger's transfer.
    pub method: String,
    pub receiver_id: String,
    pub token_id: String,
    /// The deposit attached to the call (one yoctoNEAR).
    pub deposit: u128,
    /// The gas attached to the call.
    pub gas: u64,
}

/// A copy of a list of strings.
fn copy_strings(v: &Vec<String>) -> (r: Vec<String>)
    ensures
        r@ == v@,
{
    let mut r: Vec<String> = Vec::new();
    let mut i: usize = 0;
    while i < v.len()
        invariant
            i <= v.len(),
            r@ == v@.take(i as int),
        decreases v.len() - i,
    {
        let s: &String = &v[i];
        let c = s.clone();
        r.push(c);
        assert(r@ =~= v@.take(i + 1));
        i += 1;
    }
    assert(v@.take(i as int) =~= v@);
    r
}

impl Account {
    /// Both follower sets are well formed.
    pub open spec fn wf(&self) -> bool {
        self.following.wf() && self.followers.wf()
    }

    /// A copy of this profile.
    pub fn duplicate(&self) -> (a: Self)
        ensures
            same_account(a, *self),
    {
        Account {
            account_info: self.account_info.clone(),
            bookmarks: copy_strings(&self.bookmarks),
            following: self.following.duplicate(),
            followers: self.followers.duplicate(),
        }
    }
}

/// Two profiles hold the same information.
pub open spec fn same_account(a: Account, b: Account) -> bool {
    &&& a.account_info == b.account_info
    &&& a.bookmarks@ == b.bookmarks@
    &&& a.following@ == b.following@
    &&& a.followers@ == b.followers@
}

/// The public view of a profile, before its token count is filled in.
pub open spec fn stats_of(a: Account) -> AccountStats {
    AccountStats {
        account_info: a.account_info,
        num_followers: a.followers@.len() as u64,
        num_following: a.following@.len() as u64,
        num_nfts: 0,
    }
}

/// The number of tokens that a count lookup reports: none counts as zero.
pub open spec fn count_or_zero(c: Option<u64>) -> u64 {
    match c {
        Some(n) => n,
        None => 0,
    }
}

/// `n` is what the ledger's count lookup `count_of` reports for `id`: the
/// count it gave, or zero when it gave none.
pub open spec fn count_reported<G: Fn(&String) -> Option<u64>>(count_of: G, id: String, n: u64) -> bool {
    ||| count_of.ensures((&id,), Some(n))
    ||| n == 0 && count_of.ensures((&id,), None::<u64>)
}

/// The public view of a profile with `count` tokens.
pub open spec fn stats_with_count(a: Account, count: u64) -> AccountStats {
    AccountStats { num_nfts: count, ..stats_of(a) }
}

impl From<Account> for AccountStats {
    fn from(account: Account) -> (stats: Self) {
        AccountStats {
            account_info: account.account_info,
            num_followers: account.followers.len(),
            num_following: account.following.len(),
            num_nfts: 0,
        }
    }
}

impl vstd::std_specs::convert::FromSpecImpl<Account> for AccountStats {
    open spec fn obeys_from_spec() -> bool {
        true
    }

    open spec fn from_spec(account: Account) -> AccountStats {
        stats_of(account)
    }
}

impl Order {
    /// A copy of this order.
    pub fn duplicate(&self) -> (o: Self)
        ensures
            o == *self,
    {
        Order {
            owner_id: self.owner_id.clone(),
            nft_id: self.nft_id.clone(),
            price: self.price,
            create_at: self.create_at,
            is_sold: self.is_sold,
        }
    }
}

/// `dto` lists the order `order` under the id `order_id`.
pub open spec fn dto_lists(dto: OrderDto, order_id: Seq<char>, order: Order) -> bool {
    &&& dto.order_id@ == order_id
    &&& dto.owner_id == order.owner_id
    &&& dto.nft_id == order.nft_id
    &&& dto.price == order.price
    &&& dto.create_at == order.create_at
    &&& dto.is_sold == order.is_sold
}

/// What listing the orders `ids` of the book `orders` can come to, with
/// token metadata from the ledger's lookup `metadata_of`: each listed order
/// with the metadata the lookup gave for its token, in the order of `ids`;
/// or a refusal, for an id without an order or a token without metadata.
/// An unknown order is the reason only when there is one.
pub open spec fn listing_outcome<F: Fn(&String) -> Option<TokenMetadata>>(
    orders: Map<Seq<char>, Order>,
    ids: Seq<Seq<char>>,
    metadata_of: F,
    r: Result<Vec<OrderDto>, ContractError>,
) -> bool {
    &&& (forall|i: int| 0 <= i < ids.len() ==> orders.contains_key(#[trigger] ids[i])) ==> r
        != Err::<Vec<OrderDto>, ContractError>(ContractError::InvalidOrders)
    &&& r matches Err(e) ==> {
        ||| e == ContractError::InvalidOrders && exists|i: int|
            0 <= i < ids.len() && !orders.contains_key(#[trigger] ids[i])
        ||| e == ContractError::NftNotFound && exists|i: int|
            0 <= i < ids.len() && orders.contains_key(#[trigger] ids[i]) && metadata_of.ensures(
                (&orders[ids[i]].nft_id,),
                None::<TokenMetadata>,
            )
    }
    &&& r matches Ok(v) ==> {
        &&& v@.len() == ids.len()
        &&& forall|i: int|
            0 <= i < v@.len() ==> {
                &&& orders.contains_key(ids[i])
                &&& dto_lists(#[trigger] v@[i], ids[i], orders[ids[i]])
                &&& metadata_of.ensures((&orders[ids[i]].nft_id,), Some(v@[i].metadata))
            }
    }
}

/// The orders that `account` made, in the order of its order list.
pub open spec fn orders_of(order_by_user: Map<Seq<char>, IndexedSet>, account: Seq<char>) -> Seq<
    Seq<char>,
> {
    if order_by_user.contains_key(account) {
        order_by_user[account]@
    } else {
        Seq::<Seq<char>>::empty()
    }
}

/// The entries of a page of profiles, by id.
pub open spec fn page_view(page: Seq<(String, AccountStats)>) -> Seq<(Seq<char>, AccountStats)> {
    page.map_values(|e: (String, AccountStats)| (e.0@, e.1))
}

/// The reason, if any, for which `sell_nft` refuses to put `nft_id` up for
/// sale by `caller` when the ledger names `nft_owner` as its owner. A token
/// counts as already on sale when an order id equals its token id.
pub open spec fn sell_refusal(
    orders: Map<Seq<char>, Order>,
    caller: Seq<char>,
    nft_id: Seq<char>,
    nft_owner: Option<String>,
) -> Option<ContractError> {
    match nft_owner {
        None => Some(ContractError::NftOwnerNotFound),
        Some(owner) => if caller != owner@ {
            Some(ContractError::NotTokenOwner)
        } else if orders.contains_key(nft_id) {
            Some(ContractError::NftAlreadySelling)
        } else {
            None
        },
    }
}

/// The reason, if any, for which `buy_nft` refuses the purchase of
/// `order_id` by `caller` with `deposit` attached.
pub open spec fn buy_refusal(
    orders: Map<Seq<char>, Order>,
    storage: Map<Seq<char>, StorageAccount>,
    caller: Seq<char>,
    order_id: Seq<char>,
    deposit: u128,
) -> Option<ContractError> {
    if !orders.contains_key(order_id) {
        Some(ContractError::OrderNotFound)
    } else {
        let order = orders[order_id];
        if order.is_sold {
            Some(ContractError::OrderAlreadySold)
        } else if caller == order.owner_id@ {
            Some(ContractError::BuyOwnOrder)
        } else if deposit != order.price {
            Some(ContractError::WrongOrderPayment)
        } else if !storage.contains_key(order.owner_id@) {
            Some(ContractError::SellerStorageNotFound)
        } else if storage[order.owner_id@].balance + order.price > u128::MAX {
            Some(ContractError::BalanceOverflow)
        } else {
            None
        }
    }
}

/// The state of the NFT contract, apart from the token ledger.
pub struct Contract {
    /// The role of each account that has one.
    pub roles: IndexedMap<String>,
    /// The tokens minted through the contract.
    pub token_ids: IndexedSet,
    /// The profiles, by account id.
    pub accounts: IndexedMap<Account>,
    /// The open orders, by order id.
    pub orders: IndexedMap<Order>,
    /// The order of each token on sale.
    pub order_by_nft: IndexedMap<String>,
    /// The orders that each account made.
    pub order_by_user: IndexedMap<IndexedSet>,
    /// The ids of the orders on the market.
    pub marketplace: IndexedSet,
    pub storage_accounts: IndexedMap<StorageAccount>,
}

impl Contract {
    /// Every collection is well formed.
    pub open spec fn wf(&self) -> bool {
        &&& self.roles.wf()
        &&& self.token_ids.wf()
        &&& self.accounts.wf()
        &&& forall|k: Seq<char>| #[trigger]
            self.accounts.map().contains_key(k) ==> self.accounts.map()[k].wf()
        &&& self.orders.wf()
        &&& self.order_by_nft.wf()
        &&& self.order_by_user.wf()
        &&& forall|k: Seq<char>| #[trigger]
            self.order_by_user.map().contains_key(k) ==> self.order_by_user.map()[k].wf()
        &&& self.marketplace.wf()
        &&& self.storage_accounts.wf()
    }

    /// The order book is consistent: the market lists exactly the open
    /// orders; no open order is marked sold; each order's id is the second
    /// it was made at, `_` and its token; every token link leads to an open
    /// order for that token; and every open order is in its seller's list.
    pub open spec fn book_consistent(&self) -> bool {
        &&& self.marketplace.contents() == self.orders.map().dom()
        &&& forall|k: Seq<char>| #[trigger]
            self.orders.map().contains_key(k) ==> !self.orders.map()[k].is_sold
        &&& forall|k: Seq<char>| #[trigger]
            self.orders.map().contains_key(k) ==> k == token_id_of(
                self.orders.map()[k].create_at,
                seq!['_'],
                self.orders.map()[k].nft_id@,
            )
        &&& forall|nft: Seq<char>| #[trigger]
            self.order_by_nft.map().contains_key(nft) ==> {
                let k = self.order_by_nft.map()[nft]@;
                &&& self.orders.map().contains_key(k)
                &&& self.orders.map()[k].nft_id@ == nft
            }
        &&& forall|k: Seq<char>| #[trigger]
            self.orders.map().contains_key(k) ==> {
                let seller = self.orders.map()[k].owner_id@;
                &&& self.order_by_user.map().contains_key(seller)
                &&& self.order_by_user.map()[seller].contents().contains(k)
            }
    }

    /// Every order in a seller's list is an open order of that seller.
    pub open spec fn seller_lists_consistent(&self) -> bool {
        forall|u: Seq<char>, k: Seq<char>|
            self.order_by_user.map().contains_key(u) && #[trigger] self.order_by_user.map()[u].contents().contains(
                k,
            ) ==> self.orders.map().contains_key(k) && self.orders.map()[k].owner_id@ == u
    }

    /// A fresh contract.
    pub fn new() -> (c: Self)
        ensures
            c.wf(),
            c.book_consistent(),
            c.seller_lists_consistent(),
            c.roles.map() == Map::<Seq<char>, String>::empty(),
            c.token_ids@ == Seq::<Seq<char>>::empty(),
            c.accounts.keys() == Seq::<Seq<char>>::empty(),
            c.accounts.map() == Map::<Seq<char>, Account>::empty(),
            c.orders.map() == Map::<Seq<char>, Order>::empty(),
            c.order_by_nft.map() == Map::<Seq<char>, String>::empty(),
            c.order_by_user.map() == Map::<Seq<char>, IndexedSet>::empty(),
            c.marketplace@ == Seq::<Seq<char>>::empty(),
            c.storage_accounts.map() == Map::<Seq<char>, StorageAccount>::empty(),
    {
        let c = Contract {
            roles: IndexedMap::new(),
            token_ids: IndexedSet::new(),
            accounts: IndexedMap::new(),
            orders: IndexedMap::new(),
            order_by_nft: IndexedMap::new(),
            order_by_user: IndexedMap::new(),
            marketplace: IndexedSet::new(),
            storage_accounts: IndexedMap::new(),
        };
        assert(c.marketplace.contents() =~= c.orders.map().dom());
        c
    }

    /// Records `token_id` as minted through the contract.
    pub fn record_mint(&mut self, token_id: String)
        requires
            old(self).wf(),
        ensures
            final(self).wf(),
            final(self).token_ids@ == with_member(old(self).token_ids@, token_id@),
            *final(self) == (Contract { token_ids: final(self).token_ids, ..*old(self) }),
    {
        self.token_ids.insert(token_id);
    }

    /// Admits the mint of `token_id` by `predecessor`, which needs the mint
    /// role and must be the owner `contract_owner` given to the contract at
    /// its creation, and records the token; the ledger then mints it.
    pub fn nft_mint(&mut self, predecessor: &String, contract_owner: &String, token_id: String) -> (r:
        Result<(), ContractError>)
        requires
            old(self).wf(),
        ensures
            final(self).wf(),
            r == (match mint_refusal(old(self).roles.map(), predecessor@, contract_owner@) {
                Some(e) => Err(e),
                None => Ok(()),
            }),
            r is Err ==> *final(self) == *old(self),
            !old(self).roles.map().contains_key(predecessor@) ==> r == Err::<(), ContractError>(
                ContractError::NoMintRole,
            ),
            r is Ok ==> {
                &&& old(self).roles.map().contains_key(predecessor@)
                &&& old(self).roles.map()[predecessor@]@ == seq![
                    'c',
                    'o',
                    'n',
                    't',
                    'r',
                    'a',
                    'c',
                    't',
                    '_',
                    'm',
                    'i',
                    'n',
                    't',
                ]
                &&& predecessor@ == contract_owner@
            },
            r is Ok ==> {
                &&& final(self).token_ids@ == with_member(old(self).token_ids@, token_id@)
                &&& *final(self) == (Contract { token_ids: final(self).token_ids, ..*old(self) })
            },
    {
        proof {
            law_mint_needs_owner_with_mint_role(
                old(self).roles.map(),
                predecessor@,
                contract_owner@,
            );
        }
        let role = match self.roles.get(predecessor) {
            Some(role) => role,
            None => return Err(ContractError::NoMintRole),
        };
        proof {
            reveal_strlit("contract_mint");
            assert("contract_mint"@ =~= mint_role());
        }
        let expected = String::from_str("contract_mint");
        if *role != expected {
            return Err(ContractError::NoMintPermission);
        }
        if *predecessor != *contract_owner {
            return Err(ContractError::UnauthorizedMinter);
        }
        self.record_mint(token_id);
        Ok(())
    }

    /// Gives `account_id` the mint role; only the owner of the contract may.
    /// Returns whether the account had no role before.
    pub fn set_role(&mut self, predecessor: &String, contract_owner: &String, account_id: String) -> (r:
        Result<bool, ContractError>)
        requires
            old(self).wf(),
        ensures
            final(self).wf(),
            r is Err <==> predecessor@ != contract_owner@,
            r matches Err(e) ==> e == ContractError::NotContractOwner && *final(self) == *old(self),
            r matches Ok(fresh) ==> {
                &&& fresh == !old(self).roles.map().contains_key(account_id@)
                &&& final(self).roles.map().contains_key(account_id@)
                &&& final(self).roles.map()[account_id@]@ == mint_role()
                &&& final(self).roles.map() == old(self).roles.map().insert(
                    account_id@,
                    final(self).roles.map()[account_id@],
                )
                &&& *final(self) == (Contract { roles: final(self).roles, ..*old(self) })
            },
    {
        if *predecessor != *contract_owner {
            return Err(ContractError::NotContractOwner);
        }
        proof {
            reveal_strlit("contract_mint");
            assert("contract_mint"@ =~= mint_role());
        }
        let role = String::from_str("contract_mint");
        let previous = self.roles.insert(account_id, role);
        Ok(previous.is_none())
    }

    /// The tokens of an owner, given the ledger's list of them (none when
    /// the owner has no tokens).
    pub fn tokens_of_owner(owned: Option<Vec<String>>) -> (r: Vec<String>)
        ensures
            r@ == (match owned {
                Some(v) => v@,
                None => Seq::<String>::empty(),
            }),
    {
        match owned {
            Some(v) => v,
            None => Vec::new(),
        }
    }

    /// The tokens of `owner_id` with their metadata, in the order of the
    /// ledger's list `owned`; refused when a token has no metadata.
    pub fn tokens_metadata_of_owner<F: Fn(&String) -> Option<TokenMetadata>>(
        owner_id: &String,
        owned: Option<Vec<String>>,
        metadata_of: &F,
    ) -> (r: Result<Vec<DMartToken>, ContractError>)
        requires
            forall|s: &String| #[trigger] metadata_of.requires((s,)),
        ensures
            r matches Err(e) ==> e == ContractError::TokenMetadataMissing && owned is Some
                && exists|i: int|
                0 <= i < owned->0@.len() && metadata_of.ensures(
                    (&owned->0@[i],),
                    None::<TokenMetadata>,
                ),
            r matches Ok(v) ==> {
                let ids = match owned {
                    Some(o) => o@,
                    None => Seq::<String>::empty(),
                };
                &&& v@.len() == ids.len()
                &&& forall|i: int|
                    0 <= i < v@.len() ==> {
                        &&& (#[trigger] v@[i]).token_id == ids[i]
                        &&& v@[i].owner_id == *owner_id
                        &&& metadata_of.ensures((&ids[i],), Some(v@[i].metadata))
                    }
            },
    {
        let ids = Self::tokens_of_owner(owned);
        let mut out: Vec<DMartToken> = Vec::new();
        let mut i: usize = 0;
        while i < ids.len()
            invariant
                forall|s: &String| #[trigger] metadata_of.requires((s,)),
                ids@ == (match owned {
                    Some(v) => v@,
                    None => Seq::<String>::empty(),
                }),
                i <= ids.len(),
                out@.len() == i,
                forall|j: int|
                    0 <= j < i ==> {
                        &&& (#[trigger] out@[j]).token_id == ids@[j]
                        &&& out@[j].owner_id == *owner_id
                        &&& metadata_of.ensures((&ids@[j],), Some(out@[j].metadata))
                    },
            decreases ids.len() - i,
        {
            let id: &String = &ids[i];
            let metadata = match metadata_of(id) {
                Some(m) => m,
                None => return Err(ContractError::TokenMetadataMissing),
            };
            let token_id = id.clone();
            out.push(DMartToken { token_id, owner_id: owner_id.clone(), metadata });
            i += 1;
        }
        Ok(out)
    }

    /// The metadata of `token_id`; refused when the ledger has none.
    pub fn token_metadata<F: Fn(&String) -> Option<TokenMetadata>>(
        token_id: &String,
        metadata_of: &F,
    ) -> (r: Result<TokenMetadata, ContractError>)
        requires
            forall|s: &String| #[trigger] metadata_of.requires((s,)),
        ensures
            r matches Ok(m) ==> metadata_of.ensures((token_id,), Some(m)),
            r matches Err(e) ==> e == ContractError::TokenMetadataMissing && metadata_of.ensures(
                (token_id,),
                None::<TokenMetadata>,
            ),
    {
        match metadata_of(token_id) {
            Some(m) => Ok(m),
            None => Err(ContractError::TokenMetadataMissing),
        }
    }

    /// Every token minted through the contract, in the order of the mints,
    /// with its owner and metadata; refused when the ledger lacks either.
    pub fn get_nfts<G: Fn(&String) -> Option<String>, F: Fn(&String) -> Option<TokenMetadata>>(
        &self,
        owner_of: &G,
        metadata_of: &F,
    ) -> (r: Result<Vec<DMartToken>, ContractError>)
        requires
            self.wf(),
            forall|s: &String| #[trigger] owner_of.requires((s,)),
            forall|s: &String| #[trigger] metadata_of.requires((s,)),
        ensures
            r matches Err(e) ==> {
                ||| e == ContractError::TokenOwnerMissing && exists|i: int, id: String|
                    0 <= i < self.token_ids@.len() && id@ == #[trigger] self.token_ids@[i]
                        && #[trigger] owner_of.ensures((&id,), None::<String>)
                ||| e == ContractError::TokenMetadataMissing && exists|i: int, id: String|
                    0 <= i < self.token_ids@.len() && id@ == #[trigger] self.token_ids@[i]
                        && #[trigger] metadata_of.ensures((&id,), None::<TokenMetadata>)
            },
            r matches Ok(v) ==> {
                &&& v@.len() == self.token_ids@.len()
                &&& forall|i: int|
                    0 <= i < v@.len() ==> {
                        &&& (#[trigger] v@[i]).token_id@ == self.token_ids@[i]
                        &&& owner_of.ensures((&v@[i].token_id,), Some(v@[i].owner_id))
                        &&& metadata_of.ensures((&v@[i].token_id,), Some(v@[i].metadata))
                    }
            },
    {
        let n = self.token_ids.len();
        let mut out: Vec<DMartToken> = Vec::new();
        let mut i: u64 = 0;
        while i < n
            invariant
                self.wf(),
                forall|s: &String| #[trigger] owner_of.requires((s,)),
                forall|s: &String| #[trigger] metadata_of.requires((s,)),
                n == self.token_ids@.len(),
                i <= n,
                out@.len() == i,
                forall|j: int|
                    0 <= j < i ==> {
                        &&& (#[trigger] out@[j]).token_id@ == self.token_ids@[j]
                        &&& owner_of.ensures((&out@[j].token_id,), Some(out@[j].owner_id))
                        &&& metadata_of.ensures((&out@[j].token_id,), Some(out@[j].metadata))
                    },
            decreases n - i,
        {
            let id = self.token_ids.get(i).clone();
            let owner_id = match owner_of(&id) {
                Some(o) => o,
                None => {
                    assert(id@ == self.token_ids@[i as int] && owner_of.ensures(
                        (&id,),
                        None::<String>,
                    ));
                    return Err(ContractError::TokenOwnerMissing);
                },
            };
            let metadata = match Self::token_metadata(&id, metadata_of) {
                Ok(m) => m,
                Err(e) => {
                    assert(id@ == self.token_ids@[i as int] && metadata_of.ensures(
                        (&id,),
                        None::<TokenMetadata>,
                    ));
                    return Err(e);
                },
            };
            out.push(DMartToken { token_id: id, owner_id, metadata });
            i += 1;
        }
        Ok(out)
    }

    /// The number of tokens of `account_id`, as the ledger counts them
    /// (zero when it has no list for the account).
    pub fn get_num_nfts<G: Fn(&String) -> Option<u64>>(account_id: &String, count_of: &G) -> (n:
        u64)
        requires
            forall|s: &String| #[trigger] count_of.requires((s,)),
        ensures
            count_reported(*count_of, *account_id, n),
    {
        match count_of(account_id) {
            Some(n) => n,
            None => 0,
        }
    }

    /// Registers an empty profile for `account_id`.
    pub fn internal_create_account(&mut self, account_id: &String) -> (r: Result<
        Account,
        ContractError,
    >)
        requires
            old(self).wf(),
        ensures
            final(self).wf(),
            match r {
                Ok(account) => {
                    &&& !old(self).accounts.map().contains_key(account_id@)
                    &&& account.account_info@ == Seq::<char>::empty()
                    &&& account.bookmarks@ == Seq::<String>::empty()
                    &&& account.following@ == Seq::<Seq<char>>::empty()
                    &&& account.followers@ == Seq::<Seq<char>>::empty()
                    &&& final(self).accounts.map().contains_key(account_id@)
                    &&& same_account(final(self).accounts.map()[account_id@], account)
                    &&& final(self).accounts.map() == old(self).accounts.map().insert(
                        account_id@,
                        final(self).accounts.map()[account_id@],
                    )
                    &&& final(self).accounts.keys() == old(self).accounts.keys().push(account_id@)
                    &&& *final(self) == (Contract { accounts: final(self).accounts, ..*old(self) })
                },
                Err(e) => {
                    &&& e == ContractError::AccountAlreadyExists
                    &&& old(self).accounts.map().contains_key(account_id@)
                    &&& *final(self) == *old(self)
                },
            },
    {
        if self.accounts.contains_key(account_id) {
            return Err(ContractError::AccountAlreadyExists);
        }
        let account = Account {
            account_info: String::new(),
            bookmarks: Vec::new(),
            following: IndexedSet::new(),
            followers: IndexedSet::new(),
        };
        let stored = account.duplicate();
        self.internal_set_account(account_id, stored);
        Ok(account)
    }

    /// The profile of `account_id`, if it has one.
    pub fn internal_get_account_optional(&self, account_id: &String) -> (r: Option<Account>)
        requires
            self.wf(),
        ensures
            r is Some <==> self.accounts.map().contains_key(account_id@),
            r matches Some(a) ==> same_account(a, self.accounts.map()[account_id@]) && a.wf(),
    {
        match self.accounts.get(account_id) {
            Some(a) => Some(a.duplicate()),
            None => None,
        }
    }

    /// The profile of `account_id`; refused when it has none.
    pub fn internal_get_account(&self, account_id: &String) -> (r: Result<Account, ContractError>)
        requires
            self.wf(),
        ensures
            r is Ok <==> self.accounts.map().contains_key(account_id@),
            r matches Ok(a) ==> same_account(a, self.accounts.map()[account_id@]) && a.wf(),
            r matches Err(e) ==> e == ContractError::AccountNotFound,
    {
        match self.internal_get_account_optional(account_id) {
            Some(a) => Ok(a),
            None => Err(ContractError::AccountNotFound),
        }
    }

    /// Stores `account` as the profile of `account_id`.
    pub fn internal_set_account(&mut self, account_id: &String, account: Account)
        requires
            old(self).wf(),
            account.wf(),
        ensures
            final(self).wf(),
            final(self).accounts.map() == old(self).accounts.map().insert(account_id@, account),
            old(self).accounts.map().contains_key(account_id@) ==> final(self).accounts.keys()
                == old(self).accounts.keys(),
            !old(self).accounts.map().contains_key(account_id@) ==> final(self).accounts.keys()
                == old(self).accounts.keys().push(account_id@),
            *final(self) == (Contract { accounts: final(self).accounts, ..*old(self) }),
    {
        self.accounts.insert(account_id.clone(), account);
        proof {
            assert forall|k: Seq<char>| #[trigger]
                self.accounts.map().contains_key(k) implies self.accounts.map()[k].wf() by {
                if k != account_id@ {
                    assert(old(self).accounts.map().contains_key(k));
                }
            }
        }
    }

    /// Sets the caller's profile description, already validated, keeping
    /// the rest of the profile.
    pub fn set_account_info(&mut self, caller: &String, account_info: String) -> (r: Result<
        (),
        ContractError,
    >)
        requires
            old(self).wf(),
        ensures
            final(self).wf(),
            r is Ok <==> old(self).accounts.map().contains_key(caller@),
            r matches Err(e) ==> e == ContractError::AccountNotFound && *final(self) == *old(self),
            r is Ok ==> {
                let updated = final(self).accounts.map()[caller@];
                let before = old(self).accounts.map()[caller@];
                &&& final(self).accounts.map() == old(self).accounts.map().insert(caller@, updated)
                &&& final(self).accounts.keys() == old(self).accounts.keys()
                &&& updated.account_info == account_info
                &&& updated.bookmarks@ == before.bookmarks@
                &&& updated.following@ == before.following@
                &&& updated.followers@ == before.followers@
                &&& *final(self) == (Contract { accounts: final(self).accounts, ..*old(self) })
            },
    {
        let account = match self.internal_get_account(caller) {
            Ok(a) => a,
            Err(e) => return Err(e),
        };
        let updated = Account {
            account_info,
            bookmarks: account.bookmarks,
            following: account.following,
            followers: account.followers,
        };
        self.internal_set_account(caller, updated);
        Ok(())
    }

    /// The public view of the profile of `account_id`, with the ledger's
    /// count of its tokens.
    pub fn get_account<G: Fn(&String) -> Option<u64>>(&self, account_id: &String, count_of: &G) -> (r:
        Option<AccountStats>)
        requires
            self.wf(),
            forall|s: &String| #[trigger] count_of.requires((s,)),
        ensures
            r is Some <==> self.accounts.map().contains_key(account_id@),
            r matches Some(stats) ==> {
                &&& stats == stats_with_count(self.accounts.map()[account_id@], stats.num_nfts)
                &&& count_reported(*count_of, *account_id, stats.num_nfts)
            },
    {
        match self.internal_get_account_optional(account_id) {
            Some(a) => {
                let mut stats = AccountStats::from(a);
                stats.num_nfts = Self::get_num_nfts(account_id, count_of);
                Some(stats)
            },
            None => None,
        }
    }

    /// The profiles at positions `from_index` up to `from_index + limit`
    /// (exclusive) of the enumeration, with their ids and the ledger's
    /// counts of their tokens.
    pub fn get_accounts<G: Fn(&String) -> Option<u64>>(
        &self,
        from_index: u64,
        limit: u64,
        count_of: &G,
    ) -> (page: Vec<(String, AccountStats)>)
        requires
            self.wf(),
            from_index + limit <= u64::MAX,
            forall|s: &String| #[trigger] count_of.requires((s,)),
        ensures
            page@.len() == page_len(
                from_index as int,
                limit as int,
                self.accounts.keys().len() as int,
            ),
            page_view(page@).map_values(|e: (Seq<char>, AccountStats)| e.0) == page_of(
                self.accounts.keys(),
                from_index as int,
                limit as int,
            ),
            forall|i: int|
                0 <= i < page@.len() ==> {
                    &&& (#[trigger] page@[i]).0@ == self.accounts.keys()[from_index + i]
                    &&& page@[i].1 == stats_with_count(
                        self.accounts.values()[from_index + i],
                        page@[i].1.num_nfts,
                    )
                    &&& count_reported(*count_of, page@[i].0, page@[i].1.num_nfts)
                },
    {
        let n = self.accounts.len();
        let end = if from_index + limit < n {
            from_index + limit
        } else {
            n
        };
        let mut page: Vec<(String, AccountStats)> = Vec::new();
        let mut i = from_index;
        while i < end
            invariant
                self.wf(),
                forall|s: &String| #[trigger] count_of.requires((s,)),
                n == self.accounts.keys().len(),
                end <= n,
                end == crate::collections::page_end(from_index as int, limit as int, n as int),
                from_index <= i,
                i <= end || i == from_index,
                page@.len() == i - from_index,
                forall|j: int|
                    0 <= j < page@.len() ==> {
                        &&& (#[trigger] page@[j]).0@ == self.accounts.keys()[from_index + j]
                        &&& page@[j].1 == stats_with_count(
                            self.accounts.values()[from_index + j],
                            page@[j].1.num_nfts,
                        )
                        &&& count_reported(*count_of, page@[j].0, page@[j].1.num_nfts)
                    },
            decreases end - i,
        {
            let key = self.accounts.key_at(i).clone();
            let account = self.accounts.value_at(i).duplicate();
            let mut stats = AccountStats::from(account);
            stats.num_nfts = Self::get_num_nfts(&key, count_of);
            let ghost before = page@;
            page.push((key, stats));
            proof {
                assert forall|j: int| 0 <= j < page@.len() implies {
                    &&& (#[trigger] page@[j]).0@ == self.accounts.keys()[from_index + j]
                    &&& page@[j].1 == stats_with_count(
                        self.accounts.values()[from_index + j],
                        page@[j].1.num_nfts,
                    )
                    &&& count_reported(*count_of, page@[j].0, page@[j].1.num_nfts)
                } by {
                    if j < before.len() {
                        assert(page@[j] == before[j]);
                    }
                }
            }
            i = i + 1;
        }
        assert(page_view(page@).map_values(|e: (Seq<char>, AccountStats)| e.0) =~= page_of(
            self.accounts.keys(),
            from_index as int,
            limit as int,
        ));
        page
    }

    /// The number of profiles.
    pub fn get_num_accounts(&self) -> (n: u64)
        requires
            self.wf(),
        ensures
            n == self.accounts.keys().len(),
            n == self.accounts.map().dom().len(),
    {
        self.accounts.len()
    }

    /// The public views of the profiles of `account_ids`, in that order,
    /// with the ledger's counts of their tokens; refused when one of them
    /// has no profile.
    pub fn get_accounts_with_ids<G: Fn(&String) -> Option<u64>>(
        &self,
        account_ids: &Vec<String>,
        count_of: &G,
    ) -> (r: Result<Vec<AccountStats>, ContractError>)
        requires
            self.wf(),
            forall|s: &String| #[trigger] count_of.requires((s,)),
        ensures
            r is Ok <==> forall|i: int|
                0 <= i < account_ids@.len() ==> self.accounts.map().contains_key(
                    #[trigger] account_ids@[i]@,
                ),
            r matches Err(e) ==> e == ContractError::AccountIdNotRegistered,
            r matches Ok(v) ==> v@.len() == account_ids@.len() && forall|i: int|
                0 <= i < v@.len() ==> {
                    &&& #[trigger] v@[i] == stats_with_count(
                        self.accounts.map()[account_ids@[i]@],
                        v@[i].num_nfts,
                    )
                    &&& count_reported(*count_of, account_ids@[i], v@[i].num_nfts)
                },
    {
        let mut out: Vec<AccountStats> = Vec::new();
        let mut i: usize = 0;
        while i < account_ids.len()
            invariant
                self.wf(),
                forall|s: &String| #[trigger] count_of.requires((s,)),
                i <= account_ids.len(),
                out@.len() == i,
                forall|j: int|
                    0 <= j < i ==> self.accounts.map().contains_key(#[trigger] account_ids@[j]@),
                forall|j: int|
                    0 <= j < i ==> {
                        &&& #[trigger] out@[j] == stats_with_count(
                            self.accounts.map()[account_ids@[j]@],
                            out@[j].num_nfts,
                        )
                        &&& count_reported(*count_of, account_ids@[j], out@[j].num_nfts)
                    },
            decreases account_ids.len() - i,
        {
            let id: &String = &account_ids[i];
            match self.internal_get_account_optional(id) {
                Some(a) => {
                    let mut stats = AccountStats::from(a);
                    stats.num_nfts = Self::get_num_nfts(id, count_of);
                    out.push(stats);
                },
                None => {
                    return Err(ContractError::AccountIdNotRegistered);
                },
            }
            i += 1;
        }
        Ok(out)
    }

    /// The profiles of those of `account_ids[from_index .. from_index +
    /// limit]` that have one, in that order, with their ids.
    pub fn get_account_range(&self, account_ids: &Vec<String>, from_index: u64, limit: u64) -> (r:
        Vec<(String, AccountStats)>)
        requires
            self.wf(),
            from_index + limit <= u64::MAX,
        ensures
            page_view(r@) == Seq::new(
                page_len(from_index as int, limit as int, account_ids@.len() as int) as nat,
                |i: int| string_views(account_ids@)[from_index + i],
            ).filter(|id: Seq<char>| self.accounts.map().contains_key(id)).map_values(
                |id: Seq<char>| (id, stats_of(self.accounts.map()[id])),
            ),
    {
        let n = account_ids.len() as u64;
        let end = if from_index + limit < n {
            from_index + limit
        } else {
            n
        };
        let ghost ids = Seq::new(
            page_len(from_index as int, limit as int, account_ids@.len() as int) as nat,
            |i: int| string_views(account_ids@)[from_index + i],
        );
        let ghost present = |id: Seq<char>| self.accounts.map().contains_key(id);
        let ghost shown = |id: Seq<char>| (id, stats_of(self.accounts.map()[id]));
        let mut out: Vec<(String, AccountStats)> = Vec::new();
        let mut i = from_index;
        while i < end
            invariant
                self.wf(),
                n == account_ids@.len(),
                end <= n,
                end == crate::collections::page_end(from_index as int, limit as int, n as int),
                ids.len() == page_len(from_index as int, limit as int, n as int),
                ids == Seq::new(
                    page_len(from_index as int, limit as int, account_ids@.len() as int) as nat,
                    |i: int| string_views(account_ids@)[from_index + i],
                ),
                present == (|id: Seq<char>| self.accounts.map().contains_key(id)),
                shown == (|id: Seq<char>| (id, stats_of(self.accounts.map()[id]))),
                from_index <= i,
                i <= end || i == from_index,
                page_view(out@) == ids.take(i - from_index).filter(present).map_values(shown),
            decreases end - i,
        {
            let ghost k = (i - from_index) as int;
            proof {
                assert(i < account_ids.len());
            }
            let id: &String = &account_ids[i as usize];
            let ghost before = out@;
            proof {
                assert(ids[k] == id@);
                assert(ids.take(k + 1).drop_last() =~= ids.take(k));
                reveal_with_fuel(Seq::<_>::filter, 1);
            }
            match self.internal_get_account_optional(id) {
                Some(account) => {
                    out.push((id.clone(), AccountStats::from(account)));
                    assert(page_view(out@) =~= page_view(before).push(shown(id@)));
                },
                None => {},
            }
            assert(page_view(out@) =~= ids.take(k + 1).filter(present).map_values(shown));
            i = i + 1;
        }
        assert(ids.take(ids.len() as int) =~= ids);
        out
    }

    /// The orders listed under `ids`, in that order, with their tokens'
    /// metadata.
    fn order_dtos<F: Fn(&String) -> Option<TokenMetadata>>(
        &self,
        ids: &IndexedSet,
        metadata_of: &F,
    ) -> (r: Result<Vec<OrderDto>, ContractError>)
        requires
            self.wf(),
            forall|s: &String| #[trigger] metadata_of.requires((s,)),
        ensures
            listing_outcome(self.orders.map(), ids@, *metadata_of, r),
    {
        let n = ids.len();
        let mut out: Vec<OrderDto> = Vec::new();
        let mut i: u64 = 0;
        while i < n
            invariant
                self.wf(),
                forall|s: &String| #[trigger] metadata_of.requires((s,)),
                n == ids@.len(),
                i <= n,
                out@.len() == i,
                forall|j: int| 0 <= j < i ==> self.orders.map().contains_key(#[trigger] ids@[j]),
                forall|j: int|
                    0 <= j < i ==> {
                        &&& dto_lists(#[trigger] out@[j], ids@[j], self.orders.map()[ids@[j]])
                        &&& metadata_of.ensures(
                            (&self.orders.map()[ids@[j]].nft_id,),
                            Some(out@[j].metadata),
                        )
                    },
            decreases n - i,
        {
            let id = ids.get(i);
            let order = match self.orders.get(id) {
                Some(o) => o,
                None => {
                    assert(!self.orders.map().contains_key(ids@[i as int]));
                    return Err(ContractError::InvalidOrders);
                },
            };
            let metadata = match metadata_of(&order.nft_id) {
                Some(m) => m,
                None => {
                    assert(self.orders.map().contains_key(ids@[i as int]));
                    return Err(ContractError::NftNotFound);
                },
            };
            out.push(
                OrderDto {
                    order_id: id.clone(),
                    owner_id: order.owner_id.clone(),
                    nft_id: order.nft_id.clone(),
                    price: order.price,
                    create_at: order.create_at,
                    is_sold: order.is_sold,
                    metadata,
                },
            );
            i += 1;
        }
        Ok(out)
    }

    /// Every order on the market, in the market's order, with its token's
    /// metadata; refused when the market lists an unknown order or a token
    /// has no metadata.
    pub fn get_orders<F: Fn(&String) -> Option<TokenMetadata>>(&self, metadata_of: &F) -> (r:
        Result<Vec<OrderDto>, ContractError>)
        requires
            self.wf(),
            forall|s: &String| #[trigger] metadata_of.requires((s,)),
        ensures
            listing_outcome(self.orders.map(), self.marketplace@, *metadata_of, r),
    {
        self.order_dtos(&self.marketplace, metadata_of)
    }

    /// The orders that `account_id` made, in the order of its order list,
    /// with their tokens' metadata; refused as `get_orders` is.
    pub fn get_account_orders<F: Fn(&String) -> Option<TokenMetadata>>(
        &self,
        account_id: &String,
        metadata_of: &F,
    ) -> (r: Result<Vec<OrderDto>, ContractError>)
        requires
            self.wf(),
            forall|s: &String| #[trigger] metadata_of.requires((s,)),
        ensures
            listing_outcome(
                self.orders.map(),
                orders_of(self.order_by_user.map(), account_id@),
                *metadata_of,
                r,
            ),
    {
        match self.order_by_user.get(account_id) {
            Some(ids) => self.order_dtos(ids, metadata_of),
            None => {
                let none = IndexedSet::new();
                self.order_dtos(&none, metadata_of)
            },
        }
    }

    /// Mints an invitation token for `receiver_id` (the caller when none is
    /// named), which the caller needs a profile for: the token id is the
    /// block time in seconds, `_invite_` and the receiver. The token is
    /// recorded here; the ledger mints it.
    pub fn mint_art_nft(
        &mut self,
        caller: &String,
        receiver_id: Option<String>,
        block_timestamp: u64,
    ) -> (r: Result<MintOrder, ContractError>)
        requires
            old(self).wf(),
        ensures
            final(self).wf(),
            r is Ok <==> old(self).accounts.map().contains_key(caller@),
            r matches Err(e) ==> e == ContractError::AccountNotFound && *final(self) == *old(self),
            r matches Ok(order) ==> {
                let receiver = match receiver_id {
                    Some(rid) => rid@,
                    None => caller@,
                };
                &&& order.receiver_id@ == receiver
                &&& order.token_id@ == token_id_of(block_timestamp, "_invite_"@, receiver)
                &&& final(self).token_ids@ == with_member(old(self).token_ids@, order.token_id@)
                &&& *final(self) == (Contract { token_ids: final(self).token_ids, ..*old(self) })
            },
    {
        if !self.accounts.contains_key(caller) {
            return Err(ContractError::AccountNotFound);
        }
        let receiver = match receiver_id {
            Some(rid) => rid,
            None => caller.clone(),
        };
        let token = token_id(block_timestamp, "_invite_", &receiver);
        self.record_mint(token.clone());
        Ok(MintOrder { token_id: token, receiver_id: receiver })
    }

    /// Puts `nft_id` up for sale at `price` by its owner, given the ledger's
    /// owner `nft_owner` of the token. The order id is the block time in
    /// seconds, `_` and the token id. Hands back the move of the token to
    /// `current_account`, the contract, that the ledger then makes.
    ///
    /// The test for a token already on sale looks the token id up among
    /// the order ids, by which the book is keyed; a token that
    /// `order_by_nft` links to an open order is not refused here. Such a
    /// token is held by the contract, and the ledger refuses to move it
    /// from the contract to itself, which aborts the whole call.
    pub fn sell_nft(
        &mut self,
        caller: &String,
        nft_id: String,
        price: u128,
        nft_owner: Option<String>,
        block_timestamp: u64,
        current_account: &String,
    ) -> (r: Result<LedgerTransfer, ContractError>)
        requires
            old(self).wf(),
        ensures
            final(self).wf(),
            match sell_refusal(old(self).orders.map(), caller@, nft_id@, nft_owner) {
                Some(e) => r matches Err(e2) && e2 == e && *final(self) == *old(self),
                None => r is Ok,
            },
            r is Ok <==> (nft_owner matches Some(o) && o@ == caller@
                && !old(self).orders.map().contains_key(nft_id@)),
            r matches Ok(escrow) ==> {
                let order_id = token_id_of(block_timestamp, seq!['_'], nft_id@);
                let owner = nft_owner->0;
                &&& escrow.receiver_id == *current_account
                &&& escrow.token_id == nft_id
                &&& final(self).orders.map() == old(self).orders.map().insert(
                    order_id,
                    Order {
                        owner_id: owner,
                        nft_id: nft_id,
                        price: price,
                        create_at: block_timestamp,
                        is_sold: false,
                    },
                )
                &&& final(self).order_by_nft.map().contains_key(nft_id@)
                &&& final(self).order_by_nft.map()[nft_id@]@ == order_id
                &&& final(self).order_by_nft.map() == old(self).order_by_nft.map().insert(
                    nft_id@,
                    final(self).order_by_nft.map()[nft_id@],
                )
                &&& final(self).order_by_user.map().contains_key(owner@)
                &&& final(self).order_by_user.map()[owner@]@ == with_member(
                    if old(self).order_by_user.map().contains_key(owner@) {
                        old(self).order_by_user.map()[owner@]@
                    } else {
                        Seq::<Seq<char>>::empty()
                    },
                    order_id,
                )
                &&& final(self).order_by_user.map() == old(self).order_by_user.map().insert(
                    owner@,
                    final(self).order_by_user.map()[owner@],
                )
                &&& final(self).marketplace@ == with_member(old(self).marketplace@, order_id)
                &&& final(self).roles == old(self).roles
                &&& final(self).token_ids == old(self).token_ids
                &&& final(self).accounts == old(self).accounts
                &&& final(self).storage_accounts == old(self).storage_accounts
            },
            old(self).book_consistent() ==> final(self).book_consistent(),
            ({
                let order_id = token_id_of(block_timestamp, seq!['_'], nft_id@);
                &&& old(self).seller_lists_consistent()
                &&& old(self).orders.map().contains_key(order_id) ==> nft_owner is Some
                    && old(self).orders.map()[order_id].owner_id@ == nft_owner->0@
            }) ==> final(self).seller_lists_consistent(),
    {
        proof {
            law_sale_refused_only_for_owner_or_token_id(
                old(self).orders.map(),
                caller@,
                nft_id@,
                nft_owner,
            );
        }
        let owner_id = match nft_owner {
            Some(o) => o,
            None => return Err(ContractError::NftOwnerNotFound),
        };
        if *caller != owner_id {
            return Err(ContractError::NotTokenOwner);
        }
        if self.orders.contains_key(&nft_id) {
            return Err(ContractError::NftAlreadySelling);
        }
        proof {
            reveal_strlit("_");
            assert("_"@ =~= seq!['_']);
        }
        let order_id = token_id(block_timestamp, "_", &nft_id);
        let ghost oid = order_id@;
        let escrow = LedgerTransfer { receiver_id: current_account.clone(), token_id: nft_id.clone() };
        let order = Order {
            owner_id: owner_id.clone(),
            nft_id: nft_id.clone(),
            price,
            create_at: block_timestamp,
            is_sold: false,
        };
        let ghost order_v = order;
        self.orders.insert(order_id.clone(), order);
        self.order_by_nft.insert(nft_id, order_id.clone());
        let mut orders = match self.order_by_user.get(&owner_id) {
            Some(s) => s.duplicate(),
            None => IndexedSet::new(),
        };
        orders.insert(order_id.clone());
        let ghost user_set = orders;
        self.order_by_user.insert(owner_id.clone(), orders);
        let ghost market_before = self.marketplace;
        self.marketplace.insert(order_id);
        proof {
            assert(self.order_by_user.map()[owner_id@] == user_set);
            assert forall|k: Seq<char>| #[trigger]
                self.order_by_user.map().contains_key(k) implies self.order_by_user.map()[k].wf() by {
                if k != owner_id@ {
                    assert(old(self).order_by_user.map().contains_key(k));
                }
            }
            if old(self).book_consistent() {
                let om = old(self).orders.map();
                let nm = self.orders.map();
                assert(self.marketplace.contents() =~= nm.dom());
                assert forall|k: Seq<char>| #[trigger] nm.contains_key(k) implies !nm[k].is_sold by {
                    if k != oid {
                        assert(om.contains_key(k));
                    }
                }
                assert forall|k: Seq<char>| #[trigger] nm.contains_key(k) implies k == token_id_of(
                    nm[k].create_at,
                    seq!['_'],
                    nm[k].nft_id@,
                ) by {
                    if k != oid {
                        assert(om.contains_key(k));
                    }
                }
                assert forall|nft: Seq<char>| #[trigger]
                    self.order_by_nft.map().contains_key(nft) implies {
                    let k = self.order_by_nft.map()[nft]@;
                    &&& nm.contains_key(k)
                    &&& nm[k].nft_id@ == nft
                } by {
                    if nft != nft_id@ {
                        assert(old(self).order_by_nft.map().contains_key(nft));
                        let k = old(self).order_by_nft.map()[nft]@;
                        assert(om.contains_key(k) && om[k].nft_id@ == nft);
                        if k == oid {
                            lemma_token_id_injective(om[k].create_at, block_timestamp, nft, nft_id@);
                        }
                    }
                }
                assert forall|k: Seq<char>| #[trigger] nm.contains_key(k) implies {
                    let seller = nm[k].owner_id@;
                    &&& self.order_by_user.map().contains_key(seller)
                    &&& self.order_by_user.map()[seller].contents().contains(k)
                } by {
                    if k != oid {
                        assert(om.contains_key(k));
                        let seller = om[k].owner_id@;
                        assert(old(self).order_by_user.map().contains_key(seller));
                        assert(old(self).order_by_user.map()[seller].contents().contains(k));
                        if seller == owner_id@ {
                            assert(user_set.contents().contains(k));
                        }
                    } else {
                        assert(user_set.contents().contains(oid));
                    }
                }
            }
            if old(self).seller_lists_consistent() && (old(self).orders.map().contains_key(oid)
                ==> old(self).orders.map()[oid].owner_id@ == owner_id@) {
                assert forall|u: Seq<char>, k: Seq<char>|
                    self.order_by_user.map().contains_key(u) && #[trigger] self.order_by_user.map()[u].contents().contains(
                        k,
                    ) implies self.orders.map().contains_key(k) && self.orders.map()[k].owner_id@
                    == u by {
                    if u == owner_id@ {
                        assert(user_set.contents().contains(k));
                        if k != oid {
                            assert(old(self).order_by_user.map().contains_key(u));
                            assert(old(self).order_by_user.map()[u].contents().contains(k));
                        }
                    } else {
                        assert(old(self).order_by_user.map().contains_key(u));
                        assert(old(self).order_by_user.map()[u].contents().contains(k));
                    }
                }
            }
        }
        Ok(escrow)
    }

    /// Sells the order `order_id` to the caller, who attaches its price:
    /// pays the price into the seller's storage account, takes the order
    /// off the book, and hands back the transfer of the token to the
    /// buyer.
    pub fn buy_nft(
        &mut self,
        caller: &String,
        order_id: &String,
        attached_deposit: u128,
        current_account: &String,
    ) -> (r: Result<TransferRequest, ContractError>)
        requires
            old(self).wf(),
        ensures
            final(self).wf(),
            match buy_refusal(
                old(self).orders.map(),
                old(self).storage_accounts.map(),
                caller@,
                order_id@,
                attached_deposit,
            ) {
                Some(e) => r matches Err(e2) && e2 == e && *final(self) == *old(self),
                None => r is Ok,
            },
            r is Ok ==> old(self).orders.map().contains_key(order_id@) && attached_deposit
                == old(self).orders.map()[order_id@].price,
            r matches Ok(transfer) ==> {
                let order = old(self).orders.map()[order_id@];
                let seller = order.owner_id@;
                &&& transfer.contract_id == *current_account
                &&& transfer.method@ == transfer_method()
                &&& transfer.receiver_id == *caller
                &&& transfer.token_id == order.nft_id
                &&& transfer.deposit == 1
                &&& transfer.gas == DEFAULT_GAS_FEE
                &&& final(self).orders.map() == old(self).orders.map().remove(order_id@)
                &&& final(self).order_by_nft.map() == old(self).order_by_nft.map().remove(
                    order.nft_id@,
                )
                &&& final(self).storage_accounts.map() == old(self).storage_accounts.map().insert(
                    seller,
                    StorageAccount {
                        balance: (old(self).storage_accounts.map()[seller].balance
                            + order.price) as u128,
                    },
                )
                &&& final(self).order_by_user.map().contains_key(seller)
                &&& final(self).order_by_user.map()[seller]@ == without_member(
                    orders_of(old(self).order_by_user.map(), seller),
                    order_id@,
                )
                &&& final(self).order_by_user.map() == old(self).order_by_user.map().insert(
                    seller,
                    final(self).order_by_user.map()[seller],
                )
                &&& final(self).marketplace@ == without_member(old(self).marketplace@, order_id@)
                &&& final(self).roles == old(self).roles
                &&& final(self).token_ids == old(self).token_ids
                &&& final(self).accounts == old(self).accounts
            },
            old(self).book_consistent() ==> final(self).book_consistent(),
            old(self).seller_lists_consistent() ==> final(self).seller_lists_consistent(),
    {
        proof {
            law_buy_needs_exact_price(
                old(self).orders.map(),
                old(self).storage_accounts.map(),
                caller@,
                order_id@,
                attached_deposit,
            );
        }
        let mut order = match self.orders.get(order_id) {
            Some(o) => o.duplicate(),
            None => return Err(ContractError::OrderNotFound),
        };
        if order.is_sold {
            return Err(ContractError::OrderAlreadySold);
        }
        if *caller == order.owner_id {
            return Err(ContractError::BuyOwnOrder);
        }
        if attached_deposit != order.price {
            return Err(ContractError::WrongOrderPayment);
        }
        let mut storage_account = match self.storage_accounts.get(&order.owner_id) {
            Some(s) => *s,
            None => return Err(ContractError::SellerStorageNotFound),
        };
        let balance = match storage_account.balance.checked_add(order.price) {
            Some(b) => b,
            None => return Err(ContractError::BalanceOverflow),
        };
        let ghost before = *self;
        // The order is written back unchanged but for its sold flag, which
        // stays false, before it leaves the book.
        order.is_sold = false;
        self.orders.insert(order_id.clone(), order.duplicate());
        assert(self.orders.map() =~= before.orders.map());
        storage_account.balance = balance;
        self.storage_accounts.insert(order.owner_id.clone(), storage_account);
        self.orders.remove(order_id);
        self.order_by_nft.remove(&order.nft_id);
        let mut orders = match self.order_by_user.get(&order.owner_id) {
            Some(s) => s.duplicate(),
            None => {
                let s = IndexedSet::new();
                assert(s.contents() =~= Set::<Seq<char>>::empty());
                s
            },
        };
        orders.remove(order_id);
        let ghost user_set = orders;
        self.order_by_user.insert(order.owner_id.clone(), orders);
        self.marketplace.remove(order_id);
        proof {
            assert(self.order_by_user.map()[order.owner_id@] == user_set);
            assert forall|k: Seq<char>| #[trigger]
                self.order_by_user.map().contains_key(k) implies self.order_by_user.map()[k].wf() by {
                if k != order.owner_id@ {
                    assert(old(self).order_by_user.map().contains_key(k));
                }
            }
            if old(self).book_consistent() {
                assert(self.marketplace.contents() =~= self.orders.map().dom());
            }
            if old(self).seller_lists_consistent() {
                let seller = order.owner_id@;
                assert forall|u: Seq<char>, k: Seq<char>|
                    self.order_by_user.map().contains_key(u) && #[trigger] self.order_by_user.map()[u].contents().contains(
                        k,
                    ) implies self.orders.map().contains_key(k) && self.orders.map()[k].owner_id@
                    == u by {
                    if u == seller {
                        assert(user_set.contents().contains(k));
                        if old(self).order_by_user.map().contains_key(seller) {
                            assert(old(self).order_by_user.map()[seller].contents().contains(k));
                        }
                        assert(k != order_id@);
                    } else {
                        assert(old(self).order_by_user.map().contains_key(u));
                        assert(old(self).order_by_user.map()[u].contents().contains(k));
                        if k == order_id@ {
                            assert(old(self).orders.map()[k].owner_id@ == u);
                        }
                    }
                }
            }
        }
        proof {
            reveal_strlit("nft_transfer");
            assert("nft_transfer"@ =~= transfer_method());
        }
        let method = String::from_str("nft_transfer");
        Ok(
            TransferRequest {
                contract_id: current_account.clone(),
                method,
                receiver_id: caller.clone(),
                token_id: order.nft_id,
                deposit: 1,
                gas: DEFAULT_GAS_FEE,
            },
        )
    }
}

/// Once `set_account_info` by an account has succeeded, `get_account` for
/// that account shows the new description, with the follower counts it
/// showed before and the ledger's count of its tokens.
pub proof fn law_account_info_read_after_write(before: Account, after: Account, info: String, count: u64)
    requires
        after.account_info == info,
        after.following@ == before.following@,
        after.followers@ == before.followers@,
    ensures
        stats_with_count(after, count) == (AccountStats {
            account_info: info,
            num_followers: stats_of(before).num_followers,
            num_following: stats_of(before).num_following,
            num_nfts: count,
        }),
{
}

/// Once `set_role` has given an account the mint role, `nft_mint` by that
/// account passes the role checks, whatever roles the others hold: it is
/// admitted when the account is the contract's owner, and refused as
/// unauthorized otherwise.
pub proof fn law_set_role_admits_mint(
    roles: Map<Seq<char>, String>,
    account: Seq<char>,
    role: String,
    contract_owner: Seq<char>,
)
    requires
        role@ == mint_role(),
    ensures
        mint_refusal(roles.insert(account, role), account, contract_owner) == (if account
            == contract_owner {
            None::<ContractError>
        } else {
            Some(ContractError::UnauthorizedMinter)
        }),
{
}

/// An order on a consistent book can be bought by anyone but its seller
/// who attaches its price, as long as the seller's storage account can take
/// the payment.
pub proof fn law_listed_order_is_buyable(
    c: Contract,
    buyer: Seq<char>,
    order_id: Seq<char>,
)
    requires
        c.book_consistent(),
        c.marketplace.contents().contains(order_id),
        buyer != c.orders.map()[order_id].owner_id@,
        c.storage_accounts.map().contains_key(c.orders.map()[order_id].owner_id@),
        c.storage_accounts.map()[c.orders.map()[order_id].owner_id@].balance
            + c.orders.map()[order_id].price <= u128::MAX,
    ensures
        buy_refusal(
            c.orders.map(),
            c.storage_accounts.map(),
            buyer,
            order_id,
            c.orders.map()[order_id].price,
        ) is None,
{
}

/// Selling a token and then buying its order leaves no trace of the order
/// on the book: the order, its market entry and its token's order link are
/// gone.
pub proof fn law_sell_then_buy_clears_order(
    orders: Map<Seq<char>, Order>,
    market: Set<Seq<char>>,
    order_id: Seq<char>,
    order: Order,
)
    requires
        !orders.contains_key(order_id),
        !market.contains(order_id),
    ensures
        orders.insert(order_id, order).remove(order_id) == orders,
        market.insert(order_id).remove(order_id) == market,
{
    assert(orders.insert(order_id, order).remove(order_id) =~= orders);
    assert(market.insert(order_id).remove(order_id) =~= market);
}

/// A listing of the market that succeeds shows each order it lists exactly
/// once, as the order stands, with the metadata the ledger gave for its
/// token; a listing of a seller's orders that succeeds shows each order in
/// the seller's list the same way. Right after `sell_nft` the new order is
/// in the market and in its seller's list (its contract says so), and on a
/// consistent book every open order is in both.
pub proof fn law_open_order_is_listed<F: Fn(&String) -> Option<TokenMetadata>>(
    c: Contract,
    order_id: Seq<char>,
    metadata_of: F,
    market: Result<Vec<OrderDto>, ContractError>,
    mine: Result<Vec<OrderDto>, ContractError>,
)
    requires
        c.wf(),
        c.orders.map().contains_key(order_id),
        listing_outcome(c.orders.map(), c.marketplace@, metadata_of, market),
        listing_outcome(
            c.orders.map(),
            orders_of(c.order_by_user.map(), c.orders.map()[order_id].owner_id@),
            metadata_of,
            mine,
        ),
    ensures
        c.book_consistent() ==> c.marketplace@.contains(order_id) && orders_of(
            c.order_by_user.map(),
            c.orders.map()[order_id].owner_id@,
        ).contains(order_id),
        c.marketplace@.contains(order_id) ==> (market matches Ok(v) ==> exists|i: int|
            0 <= i < v@.len() && dto_lists(#[trigger] v@[i], order_id, c.orders.map()[order_id])
                && metadata_of.ensures(
                (&c.orders.map()[order_id].nft_id,),
                Some(v@[i].metadata),
            ) && forall|j: int| 0 <= j < v@.len() && v@[j].order_id@ == order_id ==> j == i),
        orders_of(c.order_by_user.map(), c.orders.map()[order_id].owner_id@).contains(order_id) ==> (
        mine matches Ok(v) ==> exists|i: int|
            0 <= i < v@.len() && dto_lists(#[trigger] v@[i], order_id, c.orders.map()[order_id])
                && metadata_of.ensures((&c.orders.map()[order_id].nft_id,), Some(v@[i].metadata))),
{
    let order = c.orders.map()[order_id];
    let seller = order.owner_id@;
    let ids = orders_of(c.order_by_user.map(), seller);
    if c.book_consistent() {
        assert(c.marketplace.contents().contains(order_id));
        assert(c.order_by_user.map()[seller].contents().contains(order_id));
    }
    if c.marketplace@.contains(order_id) {
        let i = c.marketplace@.index_of(order_id);
        assert(0 <= i < c.marketplace@.len() && c.marketplace@[i] == order_id);
        if market is Ok {
            let v = market->Ok_0;
            assert(dto_lists(v@[i], c.marketplace@[i], c.orders.map()[c.marketplace@[i]]));
            assert forall|j: int| 0 <= j < v@.len() && v@[j].order_id@ == order_id implies j
                == i by {
                assert(dto_lists(v@[j], c.marketplace@[j], c.orders.map()[c.marketplace@[j]]));
            }
        }
    }
    if ids.contains(order_id) {
        let k = ids.index_of(order_id);
        assert(0 <= k < ids.len() && ids[k] == order_id);
        if mine is Ok {
            let v = mine->Ok_0;
            assert(dto_lists(v@[k], ids[k], c.orders.map()[ids[k]]));
        }
    }
}

/// Minting through `nft_mint` is open exactly to the contract's owner, and
/// only while it holds the role `contract_mint`: an account with no role is
/// refused for lacking one, whether or not it is the owner.
pub proof fn law_mint_needs_owner_with_mint_role(
    roles: Map<Seq<char>, String>,
    predecessor: Seq<char>,
    contract_owner: Seq<char>,
)
    ensures
        !roles.contains_key(predecessor) ==> mint_refusal(roles, predecessor, contract_owner)
            == Some(ContractError::NoMintRole),
        mint_refusal(roles, predecessor, contract_owner) is None <==> {
            &&& roles.contains_key(predecessor)
            &&& roles[predecessor]@ == seq![
                'c',
                'o',
                'n',
                't',
                'r',
                'a',
                'c',
                't',
                '_',
                'm',
                'i',
                'n',
                't',
            ]
            &&& predecessor == contract_owner
        },
{
}

/// A purchase goes through only when the deposit is exactly the order's
/// price: any other deposit, larger or smaller, on an open unsold order of
/// someone else is refused as a wrong payment.
pub proof fn law_buy_needs_exact_price(
    orders: Map<Seq<char>, Order>,
    storage: Map<Seq<char>, StorageAccount>,
    caller: Seq<char>,
    order_id: Seq<char>,
    deposit: u128,
)
    ensures
        buy_refusal(orders, storage, caller, order_id, deposit) is None ==> orders.contains_key(
            order_id,
        ) && deposit == orders[order_id].price,
        orders.contains_key(order_id) && !orders[order_id].is_sold && caller
            != orders[order_id].owner_id@ && deposit != orders[order_id].price ==> buy_refusal(
            orders,
            storage,
            caller,
            order_id,
            deposit,
        ) == Some(ContractError::WrongOrderPayment),
{
}

/// Whether the contract metadata is accepted depends on its spec, its
/// reference and its reference hash alone: metadata that names
/// `nft-1.0.0`, carries a reference exactly when it carries a hash, and
/// whose hash is 32 bytes is accepted whatever its name, symbol, icon and
/// base URI; two metadata that agree on those three fields get the same
/// answer.
pub proof fn law_metadata_check_reads_only_spec_and_reference(m: ContractMetadata)
    ensures
        metadata_refusal(m) is None <==> {
            &&& m.spec@ == seq!['n', 'f', 't', '-', '1', '.', '0', '.', '0']
            &&& (m.reference is Some) == (m.reference_hash is Some)
            &&& m.reference_hash is Some ==> m.reference_hash->0@.len() == 32
        },
        forall|other: ContractMetadata|
            other.spec@ == m.spec@ && (other.reference is Some) == (m.reference is Some)
                && other.reference_hash == m.reference_hash ==> #[trigger] metadata_refusal(other)
                == metadata_refusal(m),
{
}

/// Putting a token up for sale is refused only for a missing ledger owner,
/// a caller who is not that owner, or a token id that is already an order
/// id: when the caller owns the token and no order has its id, the sale
/// goes through, however many orders the book holds.
pub proof fn law_sale_refused_only_for_owner_or_token_id(
    orders: Map<Seq<char>, Order>,
    caller: Seq<char>,
    nft_id: Seq<char>,
    nft_owner: Option<String>,
)
    ensures
        sell_refusal(orders, caller, nft_id, nft_owner) is None <==> (nft_owner matches Some(o)
            && o@ == caller && !orders.contains_key(nft_id)),
{
}

} // verus!
