use mango::error::MangoError;
use mango::fixed_point::U64F64;
use mango::genesis::{GroupGenesis, MarketInfo, MintInfo, OracleInfo, VaultInfo};
use mango::layout::{
    load_asks_mut, load_bids_mut, load_market_state, load_open_orders, read_u64, record_kind,
    remove_slop, strip_dex_padding, strip_header, OrderBookStateHeader, RecordKind, ASKS_FLAGS,
    BIDS_FLAGS,
};
use mango::processor::Processor;
use mango::state::{
    Address, MangoGroup, MangoIndex, MarginAccount, Signer, GROUP_FLAGS, MARGIN_ACCOUNT_FLAGS,
    NUM_MARKETS, NUM_TOKENS,
};

fn addr(n: u64) -> Address {
    Address { w0: n, w1: 0, w2: 0, w3: 0 }
}

fn unset() -> Address {
    Address { w0: 0, w1: 0, w2: 0, w3: 0 }
}

fn fx(n: u64) -> U64F64 {
    U64F64::from_num(n)
}

/// A record as the host hands it out before its first use: all zero.
fn blank_group() -> MangoGroup {
    MangoGroup {
        account_flags: 0,
        tokens: [unset(); NUM_TOKENS],
        vaults: [unset(); NUM_TOKENS],
        indexes: [MangoIndex { last_update: 0, borrow: fx(0), deposit: fx(0) }; NUM_TOKENS],
        spot_markets: [unset(); NUM_MARKETS],
        oracles: [unset(); NUM_MARKETS],
        signer_nonce: 0,
        signer_key: unset(),
        dex_program_id: unset(),
        total_deposits: [fx(0); NUM_TOKENS],
        total_borrows: [fx(0); NUM_TOKENS],
        maint_coll_ratio: fx(0),
        init_coll_ratio: fx(0),
        srm_vault: unset(),
        admin: unset(),
        borrow_limits: [0; NUM_TOKENS],
        mint_decimals: [0; NUM_TOKENS],
        oracle_decimals: [0; NUM_MARKETS],
    }
}

fn blank_account() -> MarginAccount {
    MarginAccount {
        account_flags: 0,
        mango_group: unset(),
        owner: unset(),
        deposits: [fx(0); NUM_TOKENS],
        borrows: [fx(0); NUM_TOKENS],
        open_orders: [unset(); NUM_MARKETS],
        srm_balance: 0,
    }
}

fn vault(key: u64, mint: u64) -> VaultInfo {
    VaultInfo {
        key: addr(key),
        program_owner: addr(70),
        is_initialized: true,
        owner: addr(50),
        mint: addr(mint),
    }
}

fn genesis() -> GroupGenesis {
    GroupGenesis {
        program_owned: true,
        rent_exempt: true,
        now: 1_600_000_000,
        signer_nonce: 3,
        signer_key: addr(50),
        derived_signer_key: addr(50),
        dex_program: addr(51),
        token_program: addr(70),
        srm_mint: addr(71),
        srm_vault: vault(52, 71),
        admin: Signer { key: addr(53), is_signer: true },
        maint_coll_ratio: U64F64 { bits: 11 << 60 },
        init_coll_ratio: U64F64 { bits: 12 << 60 },
        borrow_limits: [100, 200, 300],
        mints: [
            MintInfo { key: addr(11), decimals: 6 },
            MintInfo { key: addr(12), decimals: 9 },
            MintInfo { key: addr(13), decimals: 6 },
        ],
        vaults: [vault(21, 11), vault(22, 12), vault(23, 13)],
        markets: [
            MarketInfo { key: addr(31), coin_mint: addr(11), pc_mint: addr(13) },
            MarketInfo { key: addr(32), coin_mint: addr(12), pc_mint: addr(13) },
        ],
        oracles: [
            OracleInfo { key: addr(41), decimals: 2 },
            OracleInfo { key: addr(42), decimals: 4 },
        ],
    }
}

#[test]
fn a_group_starts_with_every_index_at_exactly_one() {
    let mut group = blank_group();
    assert_eq!(Processor::init_mango_group(&mut group, &genesis()), Ok(()));
    for i in 0..NUM_TOKENS {
        assert_eq!(
            group.indexes[i],
            MangoIndex { last_update: 1_600_000_000, borrow: fx(1), deposit: fx(1) }
        );
    }
    assert_eq!(group.account_flags, GROUP_FLAGS);
    assert_eq!(group.tokens, [addr(11), addr(12), addr(13)]);
    assert_eq!(group.vaults, [addr(21), addr(22), addr(23)]);
    assert_eq!(group.spot_markets, [addr(31), addr(32)]);
    assert_eq!(group.oracles, [addr(41), addr(42)]);
    assert_eq!(group.signer_nonce, 3);
    assert_eq!(group.signer_key, addr(50));
    assert_eq!(group.dex_program_id, addr(51));
    assert_eq!(group.srm_vault, addr(52));
    assert_eq!(group.admin, addr(53));
    assert_eq!(group.maint_coll_ratio, U64F64 { bits: 11 << 60 });
    assert_eq!(group.init_coll_ratio, U64F64 { bits: 12 << 60 });
    assert_eq!(group.borrow_limits, [100, 200, 300]);
    assert_eq!(group.mint_decimals, [6, 9, 6]);
    assert_eq!(group.oracle_decimals, [2, 4]);
    assert_eq!(group.total_deposits, [fx(0); NUM_TOKENS]);
    assert_eq!(group.total_borrows, [fx(0); NUM_TOKENS]);
}

#[test]
fn a_group_is_made_only_once() {
    let mut group = blank_group();
    Processor::init_mango_group(&mut group, &genesis()).unwrap();
    let mut second = genesis();
    second.admin.key = addr(99);
    assert_eq!(
        Processor::init_mango_group(&mut group, &second),
        Err(MangoError::InvalidRecord)
    );
    assert_eq!(group.admin, addr(53));
}

fn rejected(change: impl Fn(&mut GroupGenesis)) -> MangoError {
    let mut group = blank_group();
    let mut g = genesis();
    change(&mut g);
    let error = Processor::init_mango_group(&mut group, &g).unwrap_err();
    assert_eq!(group.account_flags, 0);
    assert_eq!(group.tokens, [unset(); NUM_TOKENS]);
    assert_eq!(group.spot_markets, [unset(); NUM_MARKETS]);
    assert_eq!(group.indexes[0].deposit, fx(0));
    error
}

#[test]
fn a_group_is_not_made_from_what_does_not_fit() {
    assert_eq!(rejected(|g| g.program_owned = false), MangoError::WrongOwner);
    assert_eq!(rejected(|g| g.rent_exempt = false), MangoError::InvalidRecord);
    assert_eq!(rejected(|g| g.derived_signer_key = addr(9)), MangoError::ReferenceMismatch);
    assert_eq!(rejected(|g| g.srm_vault.is_initialized = false), MangoError::InvalidRecord);
    assert_eq!(rejected(|g| g.srm_vault.owner = addr(9)), MangoError::WrongOwner);
    assert_eq!(rejected(|g| g.srm_vault.mint = addr(9)), MangoError::ReferenceMismatch);
    assert_eq!(rejected(|g| g.srm_vault.program_owner = addr(9)), MangoError::WrongOwner);
    assert_eq!(rejected(|g| g.admin.is_signer = false), MangoError::MissingSignature);
    for i in 0..NUM_TOKENS {
        assert_eq!(rejected(|g| g.vaults[i].is_initialized = false), MangoError::InvalidRecord);
        assert_eq!(rejected(|g| g.vaults[i].owner = addr(9)), MangoError::WrongOwner);
        assert_eq!(rejected(|g| g.vaults[i].mint = addr(9)), MangoError::ReferenceMismatch);
        assert_eq!(rejected(|g| g.vaults[i].program_owner = addr(9)), MangoError::WrongOwner);
    }
    for i in 0..NUM_MARKETS {
        assert_eq!(rejected(|g| g.markets[i].coin_mint = addr(13)), MangoError::ReferenceMismatch);
        assert_eq!(rejected(|g| g.markets[i].pc_mint = addr(11)), MangoError::ReferenceMismatch);
    }
    // the first thing that does not fit decides
    assert_eq!(
        rejected(|g| {
            g.markets[0].pc_mint = addr(11);
            g.vaults[2].is_initialized = false;
            g.vaults[1].owner = addr(9);
        }),
        MangoError::WrongOwner
    );
}

#[test]
fn a_margin_account_is_opened_for_its_signer() {
    let mut account = blank_account();
    let owner = Signer { key: addr(100), is_signer: true };
    assert_eq!(
        Processor::init_margin_account(&mut account, &addr(1), &owner, true, true),
        Ok(())
    );
    assert_eq!(account.account_flags, MARGIN_ACCOUNT_FLAGS);
    assert_eq!(account.mango_group, addr(1));
    assert_eq!(account.owner, addr(100));
    assert_eq!(account.deposits, [fx(0); NUM_TOKENS]);
    assert_eq!(account.borrows, [fx(0); NUM_TOKENS]);
    assert_eq!(account.open_orders, [unset(); NUM_MARKETS]);
    // and only once
    let other = Signer { key: addr(101), is_signer: true };
    assert_eq!(
        Processor::init_margin_account(&mut account, &addr(1), &other, true, true),
        Err(MangoError::InvalidRecord)
    );
    assert_eq!(account.owner, addr(100));
}

#[test]
fn a_margin_account_is_not_opened_without_what_it_needs() {
    let owner = Signer { key: addr(100), is_signer: true };
    let mut account = blank_account();
    assert_eq!(
        Processor::init_margin_account(&mut account, &addr(1), &owner, false, true),
        Err(MangoError::WrongOwner)
    );
    assert_eq!(
        Processor::init_margin_account(&mut account, &addr(1), &owner, true, false),
        Err(MangoError::InvalidRecord)
    );
    let unsigned = Signer { key: addr(100), is_signer: false };
    assert_eq!(
        Processor::init_margin_account(&mut account, &addr(1), &unsigned, true, true),
        Err(MangoError::MissingSignature)
    );
    assert_eq!(account.account_flags, 0);
    assert_eq!(account.owner, unset());
}

#[test]
fn the_flag_word_tells_what_a_record_is() {
    assert_eq!(record_kind(GROUP_FLAGS), Ok(RecordKind::MangoGroup));
    assert_eq!(record_kind(MARGIN_ACCOUNT_FLAGS), Ok(RecordKind::MarginAccount));
    for flags in [0u64, 1, 2, 4, 6, 7, 8, u64::MAX] {
        assert_eq!(record_kind(flags), Err(MangoError::InvalidRecord));
    }
}

#[test]
fn a_loaded_group_is_checked() {
    let mut group = blank_group();
    Processor::init_mango_group(&mut group, &genesis()).unwrap();
    assert_eq!(group.load_checked(744, 744, &addr(80), &addr(80)), Ok(()));
    assert_eq!(group.load_checked(743, 744, &addr(80), &addr(80)), Err(MangoError::InvalidRecord));
    assert_eq!(group.load_checked(744, 744, &addr(81), &addr(80)), Err(MangoError::WrongOwner));
    assert_eq!(
        blank_group().load_checked(744, 744, &addr(80), &addr(80)),
        Err(MangoError::InvalidRecord)
    );
    group.account_flags = MARGIN_ACCOUNT_FLAGS;
    assert_eq!(group.load_checked(744, 744, &addr(80), &addr(80)), Err(MangoError::InvalidRecord));
}

#[test]
fn a_loaded_margin_account_is_checked() {
    let mut account = blank_account();
    let owner = Signer { key: addr(100), is_signer: true };
    Processor::init_margin_account(&mut account, &addr(1), &owner, true, true).unwrap();
    assert_eq!(account.load_checked(200, 200, &addr(1)), Ok(()));
    assert_eq!(account.load_checked(201, 200, &addr(1)), Err(MangoError::InvalidRecord));
    assert_eq!(account.load_checked(200, 200, &addr(2)), Err(MangoError::ReferenceMismatch));
    assert_eq!(blank_account().load_checked(200, 200, &unset()), Err(MangoError::InvalidRecord));
}

#[test]
fn dex_padding_is_five_bytes_before_and_seven_after() {
    let data: Vec<u8> = (0..20).collect();
    assert_eq!(strip_dex_padding(&data), Ok(&data[5..13]));
    let data: Vec<u8> = (0..12).collect();
    assert_eq!(strip_dex_padding(&data), Ok(&data[5..5]));
    let data: Vec<u8> = (0..11).collect();
    assert_eq!(strip_dex_padding(&data), Err(MangoError::InvalidRecord));
    assert_eq!(strip_dex_padding(&[]), Err(MangoError::InvalidRecord));
}

#[test]
fn an_open_orders_record_has_its_exact_length() {
    let data: Vec<u8> = (0..52).collect();
    assert_eq!(load_open_orders(&data, 40), Ok(&data[5..45]));
    assert_eq!(load_open_orders(&data, 39), Err(MangoError::InvalidRecord));
    assert_eq!(load_open_orders(&data, 41), Err(MangoError::InvalidRecord));
    assert_eq!(load_open_orders(&data[..11], 0), Err(MangoError::InvalidRecord));
    assert_eq!(load_open_orders(&data[..12], 0), Ok(&data[5..5]));
    assert_eq!(load_open_orders(&data, usize::MAX), Err(MangoError::InvalidRecord));
}

#[test]
fn slop_is_what_does_not_fill_an_item() {
    let data: Vec<u8> = (0..22).collect();
    assert_eq!(remove_slop(&data, 8), &data[..16]);
    assert_eq!(remove_slop(&data, 1), &data[..]);
    assert_eq!(remove_slop(&data, 11), &data[..]);
    assert_eq!(remove_slop(&data, 23), &data[..0]);
    assert_eq!(remove_slop(&[], 4), &[] as &[u8]);
}

#[test]
fn a_header_is_split_from_the_items_that_follow() {
    let data: Vec<u8> = (0..30).collect();
    assert_eq!(strip_header(&data, 8, 16), Ok((&data[..8], &data[8..24])));
    assert_eq!(strip_header(&data, 8, 1), Ok((&data[..8], &data[8..])));
    assert_eq!(strip_header(&data, 30, 4), Ok((&data[..], &data[30..])));
    assert_eq!(strip_header(&data, 0, 7), Ok((&data[..0], &data[..28])));
    assert_eq!(strip_header(&data, 31, 4), Err(MangoError::InvalidRecord));
}

#[test]
fn numbers_are_read_lowest_byte_first() {
    let data = [9, 0x88, 0x77, 0x66, 0x55, 0x44, 0x33, 0x22, 0x11, 9];
    assert_eq!(read_u64(&data, 1), 0x1122_3344_5566_7788);
    assert_eq!(read_u64(&data, 1), u64::from_le_bytes(data[1..9].try_into().unwrap()));
    assert_eq!(read_u64(&[0xFF; 8], 0), u64::MAX);
    assert_eq!(read_u64(&data, 2), u64::from_le_bytes(data[2..10].try_into().unwrap()));
}

fn book(flags: u64, orders: usize) -> Vec<u8> {
    let mut data = b"serum".to_vec();
    data.extend_from_slice(&flags.to_le_bytes());
    data.extend(std::iter::repeat(0xAB).take(orders));
    data.extend_from_slice(b"padding");
    data
}

#[test]
fn the_orders_of_a_book_lie_behind_padding_and_header() {
    let header = OrderBookStateHeader { account_flags: BIDS_FLAGS };
    assert_eq!(header.account_flags, 1 | (1 << 5));
    assert_eq!(ASKS_FLAGS, 1 | (1 << 6));
    let data = book(BIDS_FLAGS, 100);
    assert_eq!(load_bids_mut(&addr(5), &addr(5), &data), Ok((13, 113)));
    assert!(data[13..113].iter().all(|b| *b == 0xAB));
    assert_eq!(load_asks_mut(&addr(5), &addr(5), &data), Err(MangoError::InvalidRecord));
    assert_eq!(load_bids_mut(&addr(5), &addr(6), &data), Err(MangoError::ReferenceMismatch));
    let data = book(ASKS_FLAGS, 0);
    assert_eq!(load_asks_mut(&addr(5), &addr(5), &data), Ok((13, 13)));
    assert_eq!(load_bids_mut(&addr(5), &addr(5), &data), Err(MangoError::InvalidRecord));
    assert_eq!(load_asks_mut(&addr(5), &addr(5), &data[1..]), Err(MangoError::InvalidRecord));
    assert_eq!(load_asks_mut(&addr(5), &addr(5), &[]), Err(MangoError::InvalidRecord));
    let data = book(ASKS_FLAGS | 2, 8);
    assert_eq!(load_asks_mut(&addr(5), &addr(5), &data), Err(MangoError::InvalidRecord));
}

#[test]
fn a_market_s_state_lies_between_the_padding() {
    assert_eq!(load_market_state(&addr(51), &addr(51), 400), Ok((5, 393)));
    assert_eq!(load_market_state(&addr(51), &addr(51), 12), Ok((5, 5)));
    assert_eq!(load_market_state(&addr(51), &addr(51), 11), Err(MangoError::InvalidRecord));
    assert_eq!(load_market_state(&addr(52), &addr(51), 400), Err(MangoError::WrongOwner));
}
