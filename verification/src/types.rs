//! Shared host-facing value types: identifiers, coins, block metadata,
//! expirations, and the instructions an operation emits for the host to
//! carry out.

use vstd::prelude::*;

verus! {

/// Canonical numeric handle for an account or contract address.
pub type Addr = u64;

/// Canonical numeric handle for a token within a collection.
pub type TokenId = u64;

/// An amount of one native denomination.
#[derive(Debug, PartialEq)]
pub struct Coin {
    pub denom: String,
    pub amount: u128,
}

impl Clone for Coin {
    fn clone(&self) -> (res: Coin)
        ensures
            res == *self,
    {
        Coin { denom: self.denom.clone(), amount: self.amount }
    }
}

impl Coin {
    /// Two coins are the same payment exactly when both the denomination
    /// and the amount agree.
    pub open spec fn spec_same(self, other: Coin) -> bool {
        self.denom@ == other.denom@ && self.amount == other.amount
    }

    pub fn same(&self, other: &Coin) -> (r: bool)
        ensures
            r == self.spec_same(*other),
    {
        self.denom == other.denom && self.amount == other.amount
    }
}

/// The host's logical clock at the moment an operation runs.
#[derive(Clone, Copy, Debug, PartialEq, Eq, Structural)]
pub struct BlockInfo {
    /// Current block height.
    pub height: u64,
    /// Current block time, in nanoseconds since the epoch.
    pub time: u64,
}

/// A point after which something no longer holds: a fixed block height, a
/// fixed time, or never.
#[derive(Clone, Copy, Debug, PartialEq, Eq, Structural)]
pub enum Expiration {
    AtHeight(u64),
    AtTime(u64),
    Never,
}

impl Expiration {
    /// Whether this expiration has passed at the given block.
    pub open spec fn spec_is_expired(self, block: BlockInfo) -> bool {
        match self {
            Expiration::AtHeight(height) => block.height >= height,
            Expiration::AtTime(time) => block.time >= time,
            Expiration::Never => false,
        }
    }

    pub fn is_expired(&self, block: &BlockInfo) -> (r: bool)
        ensures
            r == self.spec_is_expired(*block),
    {
        match self {
            Expiration::AtHeight(height) => block.height >= *height,
            Expiration::AtTime(time) => block.time >= *time,
            Expiration::Never => false,
        }
    }

    /// Rank of the variant in the total order on expirations: all heights
    /// order before all times, and both before `Never`.
    pub open spec fn spec_rank(self) -> int {
        match self {
            Expiration::AtHeight(_) => 0,
            Expiration::AtTime(_) => 1,
            Expiration::Never => 2,
        }
    }

    /// Total order on expirations: by variant rank first, then by value
    /// within a variant.
    pub open spec fn spec_lt(self, other: Expiration) -> bool {
        self.spec_rank() < other.spec_rank() || (match (self, other) {
            (Expiration::AtHeight(a), Expiration::AtHeight(b)) => a < b,
            (Expiration::AtTime(a), Expiration::AtTime(b)) => a < b,
            _ => false,
        })
    }

    pub fn lt(&self, other: &Expiration) -> (r: bool)
        ensures
            r == self.spec_lt(*other),
    {
        match (self, other) {
            (Expiration::AtHeight(a), Expiration::AtHeight(b)) => a < b,
            (Expiration::AtTime(a), Expiration::AtTime(b)) => a < b,
            (Expiration::AtHeight(_), Expiration::AtTime(_)) => true,
            (Expiration::AtHeight(_), Expiration::Never) => true,
            (Expiration::AtTime(_), Expiration::Never) => true,
            _ => false,
        }
    }
}

/// Where an operation came from: the calling account and the native coins
/// attached to the call.
#[derive(Debug)]
pub struct MessageInfo {
    pub sender: Addr,
    pub funds: Vec<Coin>,
}

/// Ambient data the host supplies with every call.
#[derive(Clone, Copy, Debug, PartialEq, Eq, Structural)]
pub struct Env {
    pub block: BlockInfo,
    /// The marketplace's own address, the spender named in custody
    /// approvals.
    pub contract_address: Addr,
}

/// One outgoing side effect of a successful operation.  The engine only
/// decides what must happen; the host executes these in order.
#[derive(Debug, PartialEq)]
#[allow(inconsistent_fields)]
pub enum Instruction {
    /// Instruct the asset-custody service to move a token to a recipient.
    TransferNft { collection: Addr, token_id: TokenId, recipient: Addr },
    /// Move attached native funds from the marketplace to a recipient.
    Send { to_address: Addr, amount: Coin },
    /// Instruct the fungible-token service to move tokens it holds an
    /// allowance for from `owner` to `recipient`.
    Cw20TransferFrom { token_address: Addr, owner: Addr, recipient: Addr, amount: u128 },
}

/// What a successful operation hands back to the host: the ordered list of
/// instructions to carry out.
#[derive(Debug)]
pub struct Response {
    pub messages: Vec<Instruction>,
}

impl Response {
    pub fn new() -> (r: Response)
        ensures
            r.messages@ =~= Seq::<Instruction>::empty(),
    {
        Response { messages: Vec::new() }
    }
}

} // verus!
