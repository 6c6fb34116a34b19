use vstd::prelude::*;
use crate::error::{MangoError, MangoResult};
use crate::fixed_point::{SCALE, U64F64};
use crate::processor::Processor;
use crate::state::{
    AccountState, Address, GroupState, MangoGroup, MangoIndex, MarginAccount, Signer, GROUP_FLAGS,
    MARGIN_ACCOUNT_FLAGS, NUM_MARKETS, NUM_TOKENS,
};
use crate::steps::{first_error, lemma_first_error_stays};

verus! {

/// What is known of a token vault offered to a group.
#[derive(Clone, Copy, PartialEq, Eq, Structural, Debug)]
pub struct VaultInfo {
    pub key: Address,
    /// The program that owns the vault's record.
    pub program_owner: Address,
    pub is_initialized: bool,
    /// Who may move the vault's tokens.
    pub owner: Address,
    pub mint: Address,
}

/// What is known of an asset's mint.
#[derive(Clone, Copy, PartialEq, Eq, Structural, Debug)]
pub struct MintInfo {
    pub key: Address,
    pub decimals: u8,
}

/// What is known of a spot market offered to a group.
#[derive(Clone, Copy, PartialEq, Eq, Structural, Debug)]
pub struct MarketInfo {
    pub key: Address,
    pub coin_mint: Address,
    pub pc_mint: Address,
}

/// What is known of a price oracle offered to a group.
#[derive(Clone, Copy, PartialEq, Eq, Structural, Debug)]
pub struct OracleInfo {
    pub key: Address,
    pub decimals: u8,
}

/// All that a group is made from.
#[derive(Clone, Copy, Debug)]
pub struct GroupGenesis {
    /// The group's record is owned by this program.
    pub program_owned: bool,
    /// The group's record holds enough to be exempt from rent.
    pub rent_exempt: bool,
    pub now: u64,
    pub signer_nonce: u64,
    /// The signer that was supplied.
    pub signer_key: Address,
    /// The signer that the nonce and the group's own key give.
    pub derived_signer_key: Address,
    pub dex_program: Address,
    pub token_program: Address,
    pub srm_mint: Address,
    pub srm_vault: VaultInfo,
    pub admin: Signer,
    pub maint_coll_ratio: U64F64,
    pub init_coll_ratio: U64F64,
    pub borrow_limits: [u64; NUM_TOKENS],
    pub mints: [MintInfo; NUM_TOKENS],
    pub vaults: [VaultInfo; NUM_TOKENS],
    pub markets: [MarketInfo; NUM_MARKETS],
    pub oracles: [OracleInfo; NUM_MARKETS],
}

/// A vault may serve a group: it is initialized, the group's signer moves
/// its tokens, it holds the expected mint, and the token program owns it.
pub open spec fn vault_check(
    vault: VaultInfo,
    signer: Address,
    mint: Address,
    token_program: Address,
) -> Result<(), MangoError> {
    if !vault.is_initialized {
        Err(MangoError::InvalidRecord)
    } else if vault.owner != signer {
        Err(MangoError::WrongOwner)
    } else if vault.mint != mint {
        Err(MangoError::ReferenceMismatch)
    } else if vault.program_owner != token_program {
        Err(MangoError::WrongOwner)
    } else {
        Ok(())
    }
}

/// A market may serve a group: it trades base asset `k` against the
/// group's quote currency.
pub open spec fn market_check(genesis: GroupGenesis, k: int) -> Result<(), MangoError> {
    if genesis.markets[k].coin_mint != genesis.mints[k].key || genesis.markets[k].pc_mint
        != genesis.mints[NUM_MARKETS as int].key {
        Err(MangoError::ReferenceMismatch)
    } else {
        Ok(())
    }
}

/// The checks on the group's record, its signer, its fee vault and its
/// administrator.
pub open spec fn founding_check(flags: u64, genesis: GroupGenesis) -> Result<(), MangoError> {
    if !genesis.program_owned {
        Err(MangoError::WrongOwner)
    } else if flags != 0 {
        Err(MangoError::InvalidRecord)
    } else if !genesis.rent_exempt {
        Err(MangoError::InvalidRecord)
    } else if genesis.derived_signer_key != genesis.signer_key {
        Err(MangoError::ReferenceMismatch)
    } else {
        match vault_check(
            genesis.srm_vault,
            genesis.signer_key,
            genesis.srm_mint,
            genesis.token_program,
        ) {
            Ok(_) => if !genesis.admin.is_signer {
                Err(MangoError::MissingSignature)
            } else {
                Ok(())
            },
            Err(e) => Err(e),
        }
    }
}

/// The checks on the group's assets, in order: first each asset's vault,
/// then each market.
pub open spec fn listing_checks(genesis: GroupGenesis) -> Seq<Result<(), MangoError>> {
    Seq::new(
        (NUM_TOKENS + NUM_MARKETS) as nat,
        |k: int|
            if k < NUM_TOKENS {
                vault_check(
                    genesis.vaults[k],
                    genesis.signer_key,
                    genesis.mints[k].key,
                    genesis.token_program,
                )
            } else {
                market_check(genesis, k - NUM_TOKENS)
            },
    )
}

/// The index of an asset that has just been listed: both factors are
/// exactly one.
pub open spec fn fresh_index(now: u64) -> MangoIndex {
    MangoIndex { last_update: now, borrow: U64F64 { bits: SCALE }, deposit: U64F64 { bits: SCALE } }
}

/// A group's genesis: a record that has never been used becomes a group
/// with the given assets, markets, oracles, thresholds and limits.
pub open spec fn founded(g: GroupState, genesis: GroupGenesis) -> Result<GroupState, MangoError> {
    match founding_check(g.account_flags, genesis) {
        Ok(_) => match first_error(listing_checks(genesis), (NUM_TOKENS + NUM_MARKETS) as nat) {
            Ok(_) => Ok(
                GroupState {
                    account_flags: GROUP_FLAGS,
                    tokens: Seq::new(NUM_TOKENS as nat, |k: int| genesis.mints[k].key),
                    vaults: Seq::new(NUM_TOKENS as nat, |k: int| genesis.vaults[k].key),
                    indexes: Seq::new(NUM_TOKENS as nat, |k: int| fresh_index(genesis.now)),
                    spot_markets: Seq::new(NUM_MARKETS as nat, |k: int| genesis.markets[k].key),
                    oracles: Seq::new(NUM_MARKETS as nat, |k: int| genesis.oracles[k].key),
                    signer_nonce: genesis.signer_nonce,
                    signer_key: genesis.signer_key,
                    dex_program_id: genesis.dex_program,
                    total_deposits: g.total_deposits,
                    total_borrows: g.total_borrows,
                    maint_coll_ratio: genesis.maint_coll_ratio,
                    init_coll_ratio: genesis.init_coll_ratio,
                    srm_vault: genesis.srm_vault.key,
                    admin: genesis.admin.key,
                    borrow_limits: genesis.borrow_limits@,
                    mint_decimals: Seq::new(NUM_TOKENS as nat, |k: int| genesis.mints[k].decimals),
                    oracle_decimals: Seq::new(
                        NUM_MARKETS as nat,
                        |k: int| genesis.oracles[k].decimals,
                    ),
                },
            ),
            Err(e) => Err(e),
        },
        Err(e) => Err(e),
    }
}

/// A margin account's opening: a record that has never been used becomes
/// an account of the group, owned by the signer.
pub open spec fn account_opened(
    a: AccountState,
    group: Address,
    owner: Signer,
    program_owned: bool,
    rent_exempt: bool,
) -> Result<AccountState, MangoError> {
    if !program_owned {
        Err(MangoError::WrongOwner)
    } else if !rent_exempt {
        Err(MangoError::InvalidRecord)
    } else if a.account_flags != 0 {
        Err(MangoError::InvalidRecord)
    } else if !owner.is_signer {
        Err(MangoError::MissingSignature)
    } else {
        Ok(
            AccountState {
                account_flags: MARGIN_ACCOUNT_FLAGS,
                mango_group: group,
                owner: owner.key,
                ..a
            },
        )
    }
}

/// Checks a vault offered to a group.
fn check_vault(vault: &VaultInfo, signer: &Address, mint: &Address, token_program: &Address) -> (r:
    MangoResult<()>)
    ensures
        r == vault_check(*vault, *signer, *mint, *token_program),
{
    if !vault.is_initialized {
        return Err(MangoError::InvalidRecord);
    }
    if vault.owner != *signer {
        return Err(MangoError::WrongOwner);
    }
    if vault.mint != *mint {
        return Err(MangoError::ReferenceMismatch);
    }
    if vault.program_owner != *token_program {
        return Err(MangoError::WrongOwner);
    }
    Ok(())
}

/// Checks the group's record, signer, fee vault and administrator.
fn check_founding(flags: u64, genesis: &GroupGenesis) -> (r: MangoResult<()>)
    ensures
        r == founding_check(flags, *genesis),
{
    if !genesis.program_owned {
        return Err(MangoError::WrongOwner);
    }
    if flags != 0 {
        return Err(MangoError::InvalidRecord);
    }
    if !genesis.rent_exempt {
        return Err(MangoError::InvalidRecord);
    }
    if genesis.derived_signer_key != genesis.signer_key {
        return Err(MangoError::ReferenceMismatch);
    }
    check_vault(&genesis.srm_vault, &genesis.signer_key, &genesis.srm_mint, &genesis.token_program)?;
    if !genesis.admin.is_signer {
        return Err(MangoError::MissingSignature);
    }
    Ok(())
}

impl Processor {
    /// Makes a group out of a record that has never been used. Every
    /// asset's indexes start at exactly one.
    pub fn init_mango_group(mango_group: &mut MangoGroup, genesis: &GroupGenesis) -> (r:
        MangoResult<()>)
        ensures
            match founded(old(mango_group)@, *genesis) {
                Ok(g) => r is Ok && final(mango_group)@ == g,
                Err(e) => r == Err::<(), MangoError>(e) && *final(mango_group) == *old(
                    mango_group,
                ),
            },
    {
        check_founding(mango_group.account_flags, genesis)?;
        let ghost checks = listing_checks(*genesis);
        let mut group = *mango_group;
        group.account_flags = GROUP_FLAGS;
        group.signer_nonce = genesis.signer_nonce;
        group.signer_key = genesis.signer_key;
        group.dex_program_id = genesis.dex_program;
        group.maint_coll_ratio = genesis.maint_coll_ratio;
        group.init_coll_ratio = genesis.init_coll_ratio;
        group.srm_vault = genesis.srm_vault.key;
        group.admin = genesis.admin.key;
        group.borrow_limits = genesis.borrow_limits;
        let mut i: usize = 0;
        while i < NUM_TOKENS
            invariant
                i <= NUM_TOKENS,
                checks == listing_checks(*genesis),
                first_error(checks, i as nat) is Ok,
                founding_check(old(mango_group)@.account_flags, *genesis) is Ok,
                *mango_group == *old(mango_group),
                forall|k: int| 0 <= k < i ==> (#[trigger] group.tokens@[k]) == genesis.mints[k].key,
                forall|k: int|
                    0 <= k < i ==> (#[trigger] group.vaults@[k]) == genesis.vaults[k].key,
                forall|k: int|
                    0 <= k < i ==> (#[trigger] group.indexes@[k]) == fresh_index(genesis.now),
                forall|k: int|
                    0 <= k < i ==> (#[trigger] group.mint_decimals@[k])
                        == genesis.mints[k].decimals,
                group == (MangoGroup {
                    tokens: group.tokens,
                    vaults: group.vaults,
                    indexes: group.indexes,
                    mint_decimals: group.mint_decimals,
                    account_flags: GROUP_FLAGS,
                    signer_nonce: genesis.signer_nonce,
                    signer_key: genesis.signer_key,
                    dex_program_id: genesis.dex_program,
                    maint_coll_ratio: genesis.maint_coll_ratio,
                    init_coll_ratio: genesis.init_coll_ratio,
                    srm_vault: genesis.srm_vault.key,
                    admin: genesis.admin.key,
                    borrow_limits: genesis.borrow_limits,
                    ..*old(mango_group)
                }),
            decreases NUM_TOKENS - i,
        {
            let check = check_vault(
                &genesis.vaults[i],
                &genesis.signer_key,
                &genesis.mints[i].key,
                &genesis.token_program,
            );
            if let Err(e) = check {
                proof {
                    lemma_first_error_stays(
                        checks,
                        (i + 1) as nat,
                        (NUM_TOKENS + NUM_MARKETS) as nat,
                    );
                }
                return Err(e);
            }
            group.tokens[i] = genesis.mints[i].key;
            group.vaults[i] = genesis.vaults[i].key;
            group.indexes[i] = MangoIndex {
                last_update: genesis.now,
                borrow: U64F64::one(),
                deposit: U64F64::one(),
            };
            group.mint_decimals[i] = genesis.mints[i].decimals;
            i += 1;
        }
        let mut i: usize = 0;
        while i < NUM_MARKETS
            invariant
                i <= NUM_MARKETS,
                checks == listing_checks(*genesis),
                first_error(checks, (NUM_TOKENS + i) as nat) is Ok,
                founding_check(old(mango_group)@.account_flags, *genesis) is Ok,
                *mango_group == *old(mango_group),
                forall|k: int|
                    0 <= k < NUM_TOKENS ==> (#[trigger] group.tokens@[k]) == genesis.mints[k].key,
                forall|k: int|
                    0 <= k < NUM_TOKENS ==> (#[trigger] group.vaults@[k]) == genesis.vaults[k].key,
                forall|k: int|
                    0 <= k < NUM_TOKENS ==> (#[trigger] group.indexes@[k]) == fresh_index(
                        genesis.now,
                    ),
                forall|k: int|
                    0 <= k < NUM_TOKENS ==> (#[trigger] group.mint_decimals@[k])
                        == genesis.mints[k].decimals,
                forall|k: int|
                    0 <= k < i ==> (#[trigger] group.spot_markets@[k]) == genesis.markets[k].key,
                forall|k: int|
                    0 <= k < i ==> (#[trigger] group.oracles@[k]) == genesis.oracles[k].key,
                forall|k: int|
                    0 <= k < i ==> (#[trigger] group.oracle_decimals@[k])
                        == genesis.oracles[k].decimals,
                group == (MangoGroup {
                    tokens: group.tokens,
                    vaults: group.vaults,
                    indexes: group.indexes,
                    mint_decimals: group.mint_decimals,
                    spot_markets: group.spot_markets,
                    oracles: group.oracles,
                    oracle_decimals: group.oracle_decimals,
                    account_flags: GROUP_FLAGS,
                    signer_nonce: genesis.signer_nonce,
                    signer_key: genesis.signer_key,
                    dex_program_id: genesis.dex_program,
                    maint_coll_ratio: genesis.maint_coll_ratio,
                    init_coll_ratio: genesis.init_coll_ratio,
                    srm_vault: genesis.srm_vault.key,
                    admin: genesis.admin.key,
                    borrow_limits: genesis.borrow_limits,
                    ..*old(mango_group)
                }),
            decreases NUM_MARKETS - i,
        {
            let check = if genesis.markets[i].coin_mint != genesis.mints[i].key
                || genesis.markets[i].pc_mint != genesis.mints[NUM_MARKETS].key {
                Err(MangoError::ReferenceMismatch)
            } else {
                Ok(())
            };
            if let Err(e) = check {
                proof {
                    lemma_first_error_stays(
                        checks,
                        (NUM_TOKENS + i + 1) as nat,
                        (NUM_TOKENS + NUM_MARKETS) as nat,
                    );
                }
                return Err(e);
            }
            group.spot_markets[i] = genesis.markets[i].key;
            group.oracles[i] = genesis.oracles[i].key;
            group.oracle_decimals[i] = genesis.oracles[i].decimals;
            i += 1;
        }
        proof {
            let g = founded(old(mango_group)@, *genesis)->Ok_0;
            assert(group@.tokens =~= g.tokens);
            assert(group@.vaults =~= g.vaults);
            assert(group@.indexes =~= g.indexes);
            assert(group@.mint_decimals =~= g.mint_decimals);
            assert(group@.spot_markets =~= g.spot_markets);
            assert(group@.oracles =~= g.oracles);
            assert(group@.oracle_decimals =~= g.oracle_decimals);
        }
        *mango_group = group;
        Ok(())
    }

    /// Makes a margin account of the group out of a record that has never
    /// been used.
    pub fn init_margin_account(
        margin_account: &mut MarginAccount,
        mango_group: &Address,
        owner: &Signer,
        program_owned: bool,
        rent_exempt: bool,
    ) -> (r: MangoResult<()>)
        ensures
            match account_opened(
                old(margin_account)@,
                *mango_group,
                *owner,
                program_owned,
                rent_exempt,
            ) {
                Ok(a) => r is Ok && final(margin_account)@ == a,
                Err(e) => r == Err::<(), MangoError>(e) && *final(margin_account) == *old(
                    margin_account,
                ),
            },
    {
        if !program_owned {
            return Err(MangoError::WrongOwner);
        }
        if !rent_exempt {
            return Err(MangoError::InvalidRecord);
        }
        if margin_account.account_flags != 0 {
            return Err(MangoError::InvalidRecord);
        }
        if !owner.is_signer {
            return Err(MangoError::MissingSignature);
        }
        margin_account.account_flags = MARGIN_ACCOUNT_FLAGS;
        margin_account.mango_group = *mango_group;
        margin_account.owner = owner.key;
        Ok(())
    }
}

} // verus!
