use vstd::prelude::*;
use crate::fixed_point::U64F64;

verus! {

/// Number of assets in a group. The last one is the shared quote currency.
pub const NUM_TOKENS: usize = 3;

/// Number of spot markets: one for each asset but the quote currency.
pub const NUM_MARKETS: usize = NUM_TOKENS - 1;

pub const MINUTE: u64 = 60;

pub const HOUR: u64 = 3600;

pub const DAY: u64 = 86400;

pub const YEAR: u64 = 31536000;

/// A 32-byte identity of a record or a signer, as four 64-bit words.
#[derive(Clone, Copy, PartialEq, Eq, Structural, Debug)]
pub struct Address {
    pub w0: u64,
    pub w1: u64,
    pub w2: u64,
    pub w3: u64,
}

impl Address {
    /// The all-zero identity, which marks a reference that is not set.
    pub open spec fn unset() -> Address {
        Address { w0: 0, w1: 0, w2: 0, w3: 0 }
    }

    pub fn new_unset() -> (r: Address)
        ensures
            r == Address::unset(),
    {
        Address { w0: 0, w1: 0, w2: 0, w3: 0 }
    }

    pub fn is_unset(&self) -> (r: bool)
        ensures
            r == (*self == Address::unset()),
    {
        self.w0 == 0 && self.w1 == 0 && self.w2 == 0 && self.w3 == 0
    }
}

/// The kinds a ledger record can be flagged with.
#[derive(Clone, Copy, PartialEq, Eq, Structural, Debug)]
pub enum AccountFlag {
    Initialized,
    MangoGroup,
    MarginAccount,
}

impl AccountFlag {
    pub open spec fn mask(self) -> u64 {
        match self {
            AccountFlag::Initialized => 1,
            AccountFlag::MangoGroup => 2,
            AccountFlag::MarginAccount => 4,
        }
    }

    /// The bit that stands for the flag in a record's flag word.
    pub fn bits(self) -> (r: u64)
        ensures
            r == self.mask(),
    {
        match self {
            AccountFlag::Initialized => 1,
            AccountFlag::MangoGroup => 2,
            AccountFlag::MarginAccount => 4,
        }
    }
}

/// The flag word of an initialized group record.
pub const GROUP_FLAGS: u64 = 3;

/// The flag word of an initialized margin account record.
pub const MARGIN_ACCOUNT_FLAGS: u64 = 5;

/// The pair of factors that turn an asset's shares into native amounts.
#[derive(Clone, Copy, PartialEq, Eq, Structural, Debug)]
pub struct MangoIndex {
    pub last_update: u64,
    pub borrow: U64F64,
    pub deposit: U64F64,
}

/// A group of spot markets that are cross margined together.
#[derive(Clone, Copy, Debug, PartialEq, Eq)]
pub struct MangoGroup {
    pub account_flags: u64,
    pub tokens: [Address; NUM_TOKENS],
    pub vaults: [Address; NUM_TOKENS],
    pub indexes: [MangoIndex; NUM_TOKENS],
    pub spot_markets: [Address; NUM_MARKETS],
    pub oracles: [Address; NUM_MARKETS],
    pub signer_nonce: u64,
    pub signer_key: Address,
    pub dex_program_id: Address,
    pub total_deposits: [U64F64; NUM_TOKENS],
    pub total_borrows: [U64F64; NUM_TOKENS],
    pub maint_coll_ratio: U64F64,
    pub init_coll_ratio: U64F64,
    pub srm_vault: Address,
    pub admin: Address,
    pub borrow_limits: [u64; NUM_TOKENS],
    pub mint_decimals: [u8; NUM_TOKENS],
    pub oracle_decimals: [u8; NUM_MARKETS],
}

/// What a group record holds, as sequences.
pub struct GroupState {
    pub account_flags: u64,
    pub tokens: Seq<Address>,
    pub vaults: Seq<Address>,
    pub indexes: Seq<MangoIndex>,
    pub spot_markets: Seq<Address>,
    pub oracles: Seq<Address>,
    pub signer_nonce: u64,
    pub signer_key: Address,
    pub dex_program_id: Address,
    pub total_deposits: Seq<U64F64>,
    pub total_borrows: Seq<U64F64>,
    pub maint_coll_ratio: U64F64,
    pub init_coll_ratio: U64F64,
    pub srm_vault: Address,
    pub admin: Address,
    pub borrow_limits: Seq<u64>,
    pub mint_decimals: Seq<u8>,
    pub oracle_decimals: Seq<u8>,
}

impl View for MangoGroup {
    type V = GroupState;

    open spec fn view(&self) -> GroupState {
        GroupState {
            account_flags: self.account_flags,
            tokens: self.tokens@,
            vaults: self.vaults@,
            indexes: self.indexes@,
            spot_markets: self.spot_markets@,
            oracles: self.oracles@,
            signer_nonce: self.signer_nonce,
            signer_key: self.signer_key,
            dex_program_id: self.dex_program_id,
            total_deposits: self.total_deposits@,
            total_borrows: self.total_borrows@,
            maint_coll_ratio: self.maint_coll_ratio,
            init_coll_ratio: self.init_coll_ratio,
            srm_vault: self.srm_vault,
            admin: self.admin,
            borrow_limits: self.borrow_limits@,
            mint_decimals: self.mint_decimals@,
            oracle_decimals: self.oracle_decimals@,
        }
    }
}

impl GroupState {
    /// Every sequence has the length of the array it came from.
    pub open spec fn wf(self) -> bool {
        &&& self.tokens.len() == NUM_TOKENS
        &&& self.vaults.len() == NUM_TOKENS
        &&& self.indexes.len() == NUM_TOKENS
        &&& self.spot_markets.len() == NUM_MARKETS
        &&& self.oracles.len() == NUM_MARKETS
        &&& self.total_deposits.len() == NUM_TOKENS
        &&& self.total_borrows.len() == NUM_TOKENS
        &&& self.borrow_limits.len() == NUM_TOKENS
        &&& self.mint_decimals.len() == NUM_TOKENS
        &&& self.oracle_decimals.len() == NUM_MARKETS
    }
}

/// Who asks for an operation, and whether they signed the request.
#[derive(Clone, Copy, PartialEq, Eq, Structural, Debug)]
pub struct Signer {
    pub key: Address,
    pub is_signer: bool,
}

/// What the trading venue records for one account on one market: the
/// balances that rest there, free or locked in orders, in native units.
#[derive(Clone, Copy, PartialEq, Eq, Structural, Debug)]
pub struct OpenOrders {
    pub key: Address,
    pub account_flags: u64,
    pub owner: Address,
    pub native_coin_free: u64,
    pub native_coin_total: u64,
    pub native_pc_free: u64,
    pub native_pc_total: u64,
}

/// The flag word of an initialized open-orders record on the venue.
pub const OPEN_ORDERS_FLAGS: u64 = 5;

/// The side of the book an order rests on.
#[derive(Clone, Copy, PartialEq, Eq, Structural, Debug)]
pub enum Side {
    Bid,
    Ask,
}

/// What the venue did with an order that was placed for an account: the
/// balance of the vault that the order spends from, before and after.
#[derive(Clone, Copy, PartialEq, Eq, Structural, Debug)]
pub struct OrderReport {
    pub spot_market: Address,
    pub dex_program: Address,
    pub side: Side,
    pub vault: Address,
    pub pre_amount: u64,
    pub post_amount: u64,
}

/// What the venue did with an order that was placed and settled at once:
/// the balances of the market's two vaults, before and after.
#[derive(Clone, Copy, PartialEq, Eq, Structural, Debug)]
pub struct TradeReport {
    pub spot_market: Address,
    pub dex_program: Address,
    pub side: Side,
    pub base_vault: Address,
    pub quote_vault: Address,
    pub pre_base: u64,
    pub pre_quote: u64,
    pub post_base: u64,
    pub post_quote: u64,
}

/// What the venue paid out when an account's free balances on one market
/// were settled: the free balances of its open-orders record, before and
/// after.
#[derive(Clone, Copy, PartialEq, Eq, Structural, Debug)]
pub struct FundsReport {
    pub spot_market: Address,
    pub dex_program: Address,
    pub open_orders: Address,
    pub base_vault: Address,
    pub quote_vault: Address,
    pub pre_base: u64,
    pub pre_quote: u64,
    pub post_base: u64,
    pub post_quote: u64,
}

/// The last price an oracle reported for a base asset.
#[derive(Clone, Copy, PartialEq, Eq, Structural, Debug)]
pub struct OracleFeed {
    pub key: Address,
    pub median: u64,
}

/// One user's deposits and borrows in a group, in shares.
#[derive(Clone, Copy, Debug, PartialEq, Eq)]
pub struct MarginAccount {
    pub account_flags: u64,
    pub mango_group: Address,
    pub owner: Address,
    pub deposits: [U64F64; NUM_TOKENS],
    pub borrows: [U64F64; NUM_TOKENS],
    pub open_orders: [Address; NUM_MARKETS],
    pub srm_balance: u64,
}

/// What a margin account record holds, as sequences.
pub struct AccountState {
    pub account_flags: u64,
    pub mango_group: Address,
    pub owner: Address,
    pub deposits: Seq<U64F64>,
    pub borrows: Seq<U64F64>,
    pub open_orders: Seq<Address>,
    pub srm_balance: u64,
}

impl View for MarginAccount {
    type V = AccountState;

    open spec fn view(&self) -> AccountState {
        AccountState {
            account_flags: self.account_flags,
            mango_group: self.mango_group,
            owner: self.owner,
            deposits: self.deposits@,
            borrows: self.borrows@,
            open_orders: self.open_orders@,
            srm_balance: self.srm_balance,
        }
    }
}

impl AccountState {
    pub open spec fn wf(self) -> bool {
        &&& self.deposits.len() == NUM_TOKENS
        &&& self.borrows.len() == NUM_TOKENS
        &&& self.open_orders.len() == NUM_MARKETS
    }
}

} // verus!
