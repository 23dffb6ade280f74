# dmart

The rules of two NEAR contracts, verified with Verus: the DMart front
contract (profiles, NFTs minted per user, the paid mint request) and the NFT
contract (minting roles, profiles with follower sets, and an order book in
which owners sell their tokens).

- `src/` is the verified library. `collections` holds the insertion-ordered
  set and map the state lives in (removal moves the last entry into the gap,
  as the chain's unordered collections do). The chain's own collections are
  handles into contract storage, read and written through host calls, so the
  state is held here as values and stored by the contract code; `dmart` and `nft` hold the two
  contracts' state and operations; `text` renders block times and token ids;
  `validator` holds the base64 ends of profile validation; `errors` the
  refusals and their messages.
- `app/` is the contract code around it: it reads the chain environment and
  the NFT standard's token ledger, stores the library state, serialises
  values, and performs the mint and transfer calls the library decides.
- `tests/` runs the library on concrete values.
