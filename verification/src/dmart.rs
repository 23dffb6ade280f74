//! The DMart front contract: user profiles (an avatar and a thumbnail per
//! account), the NFTs each user minted through it, and the paid mint request
//! that it sends to the NFT contract.
use vstd::prelude::*;
use crate::collections::{IndexedMap, IndexedSet, page_of, with_member};
use crate::errors::ContractError;
use crate::storage::StorageAccount;
use crate::text::{token_id, token_id_of};

verus! {

/// One NEAR in yoctoNEAR: the price of a mint.
pub const ONE_NEAR: u128 = 1_000_000_000_000_000_000_000_000;

/// The deposit the mint call carries to the NFT contract (0.02 NEAR).
pub const MINT_CALL_DEPOSIT: u128 = 20_000_000_000_000_000_000_000;

/// The gas the contract attaches to its outgoing calls (20 TGas).
pub const DEFAULT_GAS_FEE: u64 = 20_000_000_000_000;

/// A user's profile.
#[derive(PartialEq, Eq, Debug)]
pub struct Account {
    pub avatar: String,
    pub thumbnail: String,
}

/// What a user's profile shows to others.
#[derive(PartialEq, Eq, Debug)]
pub struct AccountStats {
    pub avatar: String,
    pub thumbnail: String,
}

impl Account {
    /// A copy of this profile.
    pub fn duplicate(&self) -> (a: Self)
        ensures
            a == *self,
    {
        Account { avatar: self.avatar.clone(), thumbnail: self.thumbnail.clone() }
    }
}

impl From<Account> for AccountStats {
    fn from(account: Account) -> (stats: Self) {
        AccountStats { avatar: account.avatar, thumbnail: account.thumbnail }
    }
}

impl vstd::std_specs::convert::FromSpecImpl<Account> for AccountStats {
    open spec fn obeys_from_spec() -> bool {
        true
    }

    open spec fn from_spec(account: Account) -> AccountStats {
        stats_of(account)
    }
}

/// The public view of a profile.
pub open spec fn stats_of(a: Account) -> AccountStats {
    AccountStats { avatar: a.avatar, thumbnail: a.thumbnail }
}

/// The public view of the profile of `id`, if it has one.
pub open spec fn stats_lookup(accounts: Map<Seq<char>, Account>, id: Seq<char>) -> Option<
    AccountStats,
> {
    if accounts.contains_key(id) {
        Some(stats_of(accounts[id]))
    } else {
        None
    }
}

/// A profile with its avatar replaced.
pub open spec fn with_avatar(a: Account, avatar: String) -> Account {
    Account { avatar: avatar, thumbnail: a.thumbnail }
}

/// A profile with its thumbnail replaced.
pub open spec fn with_thumbnail(a: Account, thumbnail: String) -> Account {
    Account { avatar: a.avatar, thumbnail: thumbnail }
}

/// The entries of a page of profiles, by id.
pub open spec fn page_view(page: Seq<(String, AccountStats)>) -> Seq<(Seq<char>, AccountStats)> {
    page.map_values(|e: (String, AccountStats)| (e.0@, e.1))
}

/// The profiles of `accounts` with their ids, in enumeration order.
pub open spec fn account_entries(accounts: IndexedMap<Account>) -> Seq<(Seq<char>, AccountStats)> {
    Seq::new(
        accounts.keys().len(),
        |i: int| (accounts.keys()[i], stats_of(accounts.values()[i])),
    )
}

/// The call that mints a token on the NFT contract for a paying user.
pub struct MintRequest {
    /// The NFT contract that is called.
    pub nft_contract: String,
    pub token_id: String,
    pub receiver_id: String,
    pub title: String,
    pub description: String,
    pub media: String,
    /// The number of copies of the token.
    pub copies: u64,
    /// The deposit attached to the call.
    pub deposit: u128,
    /// The gas attached to the call.
    pub gas: u64,
}

/// The state of the DMart contract.
pub struct Contract {
    /// The NFT contract that mints for this contract.
    pub nft_contract: String,
    pub storage_accounts: IndexedMap<StorageAccount>,
    pub storage_account_in_bytes: u64,
    /// The profiles, by account id.
    pub accounts: IndexedMap<Account>,
    /// The NFTs minted for each account through this contract.
    pub user_nfts: IndexedMap<IndexedSet>,
    pub marketplace: IndexedSet,
    pub auction: IndexedSet,
}

impl Contract {
    /// Every collection is well formed.
    pub open spec fn wf(&self) -> bool {
        &&& self.storage_accounts.wf()
        &&& self.accounts.wf()
        &&& self.user_nfts.wf()
        &&& forall|k: Seq<char>| #[trigger]
            self.user_nfts.map().contains_key(k) ==> self.user_nfts.map()[k].wf()
        &&& self.marketplace.wf()
        &&& self.auction.wf()
    }

    /// A fresh contract that mints through `nft_contract`.
    pub fn new(nft_contract: String) -> (c: Self)
        ensures
            c.wf(),
            c.nft_contract == nft_contract,
            c.storage_accounts.map() == Map::<Seq<char>, StorageAccount>::empty(),
            c.storage_account_in_bytes == 0,
            c.accounts.keys() == Seq::<Seq<char>>::empty(),
            c.accounts.map() == Map::<Seq<char>, Account>::empty(),
            c.user_nfts.map() == Map::<Seq<char>, IndexedSet>::empty(),
            c.marketplace@ == Seq::<Seq<char>>::empty(),
            c.auction@ == Seq::<Seq<char>>::empty(),
    {
        Contract {
            nft_contract,
            storage_accounts: IndexedMap::new(),
            storage_account_in_bytes: 0,
            accounts: IndexedMap::new(),
            user_nfts: IndexedMap::new(),
            marketplace: IndexedSet::new(),
            auction: IndexedSet::new(),
        }
    }

    /// Registers an empty profile for `account_id`.
    pub fn internal_create_account(&mut self, account_id: &String) -> (r: Result<
        Account,
        ContractError,
    >)
        requires
            old(self).wf(),
        ensures
            final(self).wf(),
            match r {
                Ok(account) => {
                    &&& !old(self).accounts.map().contains_key(account_id@)
                    &&& account.avatar@ == Seq::<char>::empty()
                    &&& account.thumbnail@ == Seq::<char>::empty()
                    &&& final(self).accounts.map() == old(self).accounts.map().insert(
                        account_id@,
                        account,
                    )
                    &&& final(self).accounts.keys() == old(self).accounts.keys().push(account_id@)
                    &&& *final(self) == (Contract { accounts: final(self).accounts, ..*old(self) })
                },
                Err(e) => {
                    &&& e == ContractError::AccountAlreadyExists
                    &&& old(self).accounts.map().contains_key(account_id@)
                    &&& *final(self) == *old(self)
                },
            },
    {
        if self.accounts.contains_key(account_id) {
            return Err(ContractError::AccountAlreadyExists);
        }
        let account = Account { avatar: String::new(), thumbnail: String::new() };
        let stored = account.duplicate();
        self.accounts.insert(account_id.clone(), stored);
        Ok(account)
    }

    /// The profile of `account_id`, if it has one.
    pub fn internal_get_account_optional(&self, account_id: &String) -> (r: Option<Account>)
        requires
            self.wf(),
        ensures
            r == (if self.accounts.map().contains_key(account_id@) {
                Some(self.accounts.map()[account_id@])
            } else {
                None::<Account>
            }),
    {
        match self.accounts.get(account_id) {
            Some(a) => Some(a.duplicate()),
            None => None,
        }
    }

    /// The profile of `account_id`; refused when it has none.
    pub fn internal_get_account(&self, account_id: &String) -> (r: Result<Account, ContractError>)
        requires
            self.wf(),
        ensures
            match r {
                Ok(a) => self.accounts.map().contains_key(account_id@) && a
                    == self.accounts.map()[account_id@],
                Err(e) => e == ContractError::AccountNotFound && !self.accounts.map().contains_key(
                    account_id@,
                ),
            },
    {
        match self.internal_get_account_optional(account_id) {
            Some(a) => Ok(a),
            None => Err(ContractError::AccountNotFound),
        }
    }

    /// Stores `account` as the profile of `account_id`.
    pub fn internal_set_account(&mut self, account_id: &String, account: Account)
        requires
            old(self).wf(),
        ensures
            final(self).wf(),
            final(self).accounts.map() == old(self).accounts.map().insert(account_id@, account),
            old(self).accounts.map().contains_key(account_id@) ==> final(self).accounts.keys()
                == old(self).accounts.keys(),
            !old(self).accounts.map().contains_key(account_id@) ==> final(self).accounts.keys()
                == old(self).accounts.keys().push(account_id@),
            *final(self) == (Contract { accounts: final(self).accounts, ..*old(self) }),
    {
        self.accounts.insert(account_id.clone(), account);
    }

    /// Sets the avatar of the caller's profile.
    pub fn set_avatar(&mut self, caller: &String, avatar: String) -> (r: Result<(), ContractError>)
        requires
            old(self).wf(),
        ensures
            final(self).wf(),
            r is Ok <==> old(self).accounts.map().contains_key(caller@),
            r is Ok ==> {
                &&& final(self).accounts.map() == old(self).accounts.map().insert(
                    caller@,
                    with_avatar(old(self).accounts.map()[caller@], avatar),
                )
                &&& final(self).accounts.keys() == old(self).accounts.keys()
                &&& *final(self) == (Contract { accounts: final(self).accounts, ..*old(self) })
            },
            r matches Err(e) ==> e == ContractError::AccountNotFound && *final(self) == *old(self),
    {
        let account = match self.internal_get_account(caller) {
            Ok(a) => a,
            Err(e) => return Err(e),
        };
        let updated = Account { avatar, thumbnail: account.thumbnail };
        self.internal_set_account(caller, updated);
        Ok(())
    }

    /// Sets the thumbnail of the caller's profile.
    pub fn set_thumbnail(&mut self, caller: &String, thumbnail: String) -> (r: Result<
        (),
        ContractError,
    >)
        requires
            old(self).wf(),
        ensures
            final(self).wf(),
            r is Ok <==> old(self).accounts.map().contains_key(caller@),
            r is Ok ==> {
                &&& final(self).accounts.map() == old(self).accounts.map().insert(
                    caller@,
                    with_thumbnail(old(self).accounts.map()[caller@], thumbnail),
                )
                &&& final(self).accounts.keys() == old(self).accounts.keys()
                &&& *final(self) == (Contract { accounts: final(self).accounts, ..*old(self) })
            },
            r matches Err(e) ==> e == ContractError::AccountNotFound && *final(self) == *old(self),
    {
        let account = match self.internal_get_account(caller) {
            Ok(a) => a,
            Err(e) => return Err(e),
        };
        let updated = Account { avatar: account.avatar, thumbnail };
        self.internal_set_account(caller, updated);
        Ok(())
    }

    /// The public view of the profile of `account_id`, if it has one.
    pub fn get_account(&self, account_id: &String) -> (r: Option<AccountStats>)
        requires
            self.wf(),
        ensures
            r == stats_lookup(self.accounts.map(), account_id@),
    {
        match self.internal_get_account_optional(account_id) {
            Some(a) => Some(AccountStats::from(a)),
            None => None,
        }
    }

    /// The profiles at positions `from_index` up to `from_index + limit`
    /// (exclusive) of the enumeration, with their ids.
    pub fn get_accounts(&self, from_index: u64, limit: u64) -> (page: Vec<(String, AccountStats)>)
        requires
            self.wf(),
            from_index + limit <= u64::MAX,
        ensures
            page_view(page@) == page_of(account_entries(self.accounts), from_index as int, limit as int),
    {
        let n = self.accounts.len();
        let end = if from_index + limit < n {
            from_index + limit
        } else {
            n
        };
        let mut page: Vec<(String, AccountStats)> = Vec::new();
        let mut i = from_index;
        while i < end
            invariant
                self.wf(),
                n == self.accounts.keys().len(),
                end <= n,
                end == crate::collections::page_end(from_index as int, limit as int, n as int),
                from_index <= i,
                i <= end || i == from_index,
                page@.len() == i - from_index,
                forall|j: int|
                    0 <= j < page@.len() ==> #[trigger] page_view(page@)[j] == (
                        self.accounts.keys()[from_index + j],
                        stats_of(self.accounts.values()[from_index + j]),
                    ),
            decreases end - i,
        {
            let key = self.accounts.key_at(i).clone();
            let account = self.accounts.value_at(i).duplicate();
            let ghost before = page@;
            page.push((key, AccountStats::from(account)));
            proof {
                assert forall|j: int| 0 <= j < page@.len() implies #[trigger] page_view(page@)[j]
                    == (
                    self.accounts.keys()[from_index + j],
                    stats_of(self.accounts.values()[from_index + j]),
                ) by {
                    if j < before.len() {
                        assert(page@[j] == before[j]);
                        assert(page_view(before)[j] == page_view(page@)[j]);
                    }
                }
            }
            i = i + 1;
        }
        assert(page_view(page@) =~= page_of(account_entries(self.accounts), from_index as int, limit as int));
        page
    }

    /// The number of profiles.
    pub fn get_num_accounts(&self) -> (n: u64)
        requires
            self.wf(),
        ensures
            n == self.accounts.keys().len(),
            n == self.accounts.map().dom().len(),
    {
        self.accounts.len()
    }

    /// The public views of the profiles of `account_ids`, in that order;
    /// refused when one of them has no profile.
    pub fn get_accounts_with_ids(&self, account_ids: &Vec<String>) -> (r: Result<
        Vec<AccountStats>,
        ContractError,
    >)
        requires
            self.wf(),
        ensures
            r is Ok <==> forall|i: int|
                0 <= i < account_ids@.len() ==> self.accounts.map().contains_key(
                    #[trigger] account_ids@[i]@,
                ),
            r matches Ok(v) ==> v@.len() == account_ids@.len() && forall|i: int|
                0 <= i < v@.len() ==> #[trigger] v@[i] == stats_of(
                    self.accounts.map()[account_ids@[i]@],
                ),
            r matches Err(e) ==> e == ContractError::AccountIdNotRegistered,
    {
        let mut out: Vec<AccountStats> = Vec::new();
        let mut i: usize = 0;
        while i < account_ids.len()
            invariant
                self.wf(),
                i <= account_ids.len(),
                out@.len() == i,
                forall|j: int|
                    0 <= j < i ==> self.accounts.map().contains_key(#[trigger] account_ids@[j]@),
                forall|j: int|
                    0 <= j < i ==> #[trigger] out@[j] == stats_of(
                        self.accounts.map()[account_ids@[j]@],
                    ),
            decreases account_ids.len() - i,
        {
            match self.internal_get_account_optional(&account_ids[i]) {
                Some(a) => {
                    out.push(AccountStats::from(a));
                },
                None => {
                    return Err(ContractError::AccountIdNotRegistered);
                },
            }
            i += 1;
        }
        Ok(out)
    }

    /// The callback of a mint: on success, records `nft_id` as minted for
    /// `owner_id`; refused when the mint failed or the owner has no profile.
    pub fn on_minted_nft(&mut self, owner_id: &String, nft_id: String, mint_succeeded: bool) -> (r:
        Result<bool, ContractError>)
        requires
            old(self).wf(),
        ensures
            final(self).wf(),
            r == (if !mint_succeeded {
                Err(ContractError::MintFailed)
            } else if !old(self).accounts.map().contains_key(owner_id@) {
                Err(ContractError::OwnerAccountNotFound)
            } else {
                Ok(true)
            }),
            r is Err ==> *final(self) == *old(self),
            r is Ok ==> {
                &&& final(self).user_nfts.map().contains_key(owner_id@)
                &&& final(self).user_nfts.map() == old(self).user_nfts.map().insert(
                    owner_id@,
                    final(self).user_nfts.map()[owner_id@],
                )
                &&& final(self).user_nfts.map()[owner_id@]@ == with_member(
                    if old(self).user_nfts.map().contains_key(owner_id@) {
                        old(self).user_nfts.map()[owner_id@]@
                    } else {
                        Seq::<Seq<char>>::empty()
                    },
                    nft_id@,
                )
                &&& *final(self) == (Contract { user_nfts: final(self).user_nfts, ..*old(self) })
            },
    {
        if !mint_succeeded {
            return Err(ContractError::MintFailed);
        }
        if !self.accounts.contains_key(owner_id) {
            return Err(ContractError::OwnerAccountNotFound);
        }
        let mut nfts = match self.user_nfts.get(owner_id) {
            Some(s) => s.duplicate(),
            None => IndexedSet::new(),
        };
        let ghost prior = nfts@;
        nfts.insert(nft_id);
        let ghost set_after = nfts;
        self.user_nfts.insert(owner_id.clone(), nfts);
        proof {
            assert(self.user_nfts.map()[owner_id@] == set_after);
            assert forall|k: Seq<char>| #[trigger]
                self.user_nfts.map().contains_key(k) implies self.user_nfts.map()[k].wf() by {
                if k != owner_id@ {
                    assert(old(self).user_nfts.map().contains_key(k));
                }
            }
        }
        Ok(true)
    }

    /// Points the contract at another NFT contract; only the contract itself
    /// may do so.
    pub fn set_nft_contract(
        &mut self,
        predecessor: &String,
        current_account: &String,
        nft_contract: String,
    ) -> (r: Result<(), ContractError>)
        requires
            old(self).wf(),
        ensures
            final(self).wf(),
            r is Ok <==> predecessor@ == current_account@,
            r is Ok ==> *final(self) == (Contract { nft_contract: nft_contract, ..*old(self) }),
            r matches Err(e) ==> e == ContractError::NotContractItself && *final(self) == *old(
                self,
            ),
    {
        if *predecessor != *current_account {
            return Err(ContractError::NotContractItself);
        }
        self.nft_contract = nft_contract;
        Ok(())
    }

    /// The mint call that a payment of one NEAR buys: a token for
    /// `account_id` (the caller when none is named), with an id made of the
    /// block time in seconds and the receiver. Refused unless exactly one
    /// NEAR is attached.
    pub fn mint_nft(
        &self,
        predecessor: &String,
        account_id: Option<String>,
        title: String,
        description: String,
        media: String,
        nft_type: String,
        attached_deposit: u128,
        block_timestamp: u64,
    ) -> (r: Result<MintRequest, ContractError>)
        requires
            self.wf(),
        ensures
            r is Ok <==> attached_deposit == ONE_NEAR,
            r matches Err(e) ==> e == ContractError::WrongMintDeposit,
            r matches Ok(req) ==> {
                let receiver = match account_id {
                    Some(a) => a@,
                    None => predecessor@,
                };
                &&& req.nft_contract == self.nft_contract
                &&& req.receiver_id@ == receiver
                &&& req.token_id@ == token_id_of(block_timestamp, seq!['_'], receiver)
                &&& req.title == title
                &&& req.description == description
                &&& req.media == media
                &&& req.copies == 1
                &&& req.deposit == MINT_CALL_DEPOSIT
                &&& req.gas == DEFAULT_GAS_FEE
            },
    {
        let receiver_id = match account_id {
            Some(a) => a,
            None => predecessor.clone(),
        };
        if attached_deposit != ONE_NEAR {
            return Err(ContractError::WrongMintDeposit);
        }
        proof {
            reveal_strlit("_");
        }
        let token = token_id(block_timestamp, "_", &receiver_id);
        Ok(
            MintRequest {
                nft_contract: self.nft_contract.clone(),
                token_id: token,
                receiver_id,
                title,
                description,
                media,
                copies: 1,
                deposit: MINT_CALL_DEPOSIT,
                gas: DEFAULT_GAS_FEE,
            },
        )
    }
}

/// Once `set_avatar` by an account has succeeded, `get_account` for that
/// account shows the new avatar beside the thumbnail it had.
pub proof fn law_avatar_read_after_write(
    accounts: Map<Seq<char>, Account>,
    caller: Seq<char>,
    avatar: String,
)
    requires
        accounts.contains_key(caller),
    ensures
        stats_lookup(accounts.insert(caller, with_avatar(accounts[caller], avatar)), caller) == Some(
            (AccountStats { avatar: avatar, thumbnail: accounts[caller].thumbnail }),
        ),
{
}

/// Once `set_thumbnail` by an account has succeeded, `get_account` for that
/// account shows the new thumbnail beside the avatar it had.
pub proof fn law_thumbnail_read_after_write(
    accounts: Map<Seq<char>, Account>,
    caller: Seq<char>,
    thumbnail: String,
)
    requires
        accounts.contains_key(caller),
    ensures
        stats_lookup(accounts.insert(caller, with_thumbnail(accounts[caller], thumbnail)), caller)
            == Some((AccountStats { avatar: accounts[caller].avatar, thumbnail: thumbnail })),
{
}

/// Changing one profile leaves what `get_account` shows of every other
/// account as it was.
pub proof fn law_profile_update_is_local(
    accounts: Map<Seq<char>, Account>,
    caller: Seq<char>,
    updated: Account,
    other: Seq<char>,
)
    requires
        other != caller,
    ensures
        stats_lookup(accounts.insert(caller, updated), other) == stats_lookup(accounts, other),
{
}

} // verus!
