use vstd::prelude::*;
use crate::error::{MangoError, MangoResult};
use crate::fixed_point::{SCALE, U64F64};
use crate::state::{GroupState, MangoGroup, OracleFeed, NUM_MARKETS, NUM_TOKENS};

verus! {

/// Ten to the power `n`.
pub open spec fn pow10(n: nat) -> nat
    decreases n,
{
    if n == 0 {
        1
    } else {
        10 * pow10((n - 1) as nat)
    }
}

/// Powers of ten grow with the exponent.
pub proof fn lemma_pow10_grows(n: nat, m: nat)
    requires
        n <= m,
    ensures
        1 <= pow10(n) <= pow10(m),
    decreases m,
{
    if n < m {
        lemma_pow10_grows(n, (m - 1) as nat);
    } else if n > 0 {
        lemma_pow10_grows((n - 1) as nat, (n - 1) as nat);
    }
}

/// Ten to the power `exp`, where it fits in 64 bits.
pub fn checked_pow10(exp: u8) -> (r: Option<u64>)
    ensures
        match r {
            Some(v) => v == pow10(exp as nat),
            None => pow10(exp as nat) > u64::MAX,
        },
{
    let mut power: u64 = 1;
    let mut k: u8 = 0;
    while k < exp
        invariant
            k <= exp,
            power == pow10(k as nat),
        decreases exp - k,
    {
        power = match power.checked_mul(10) {
            Some(v) => v,
            None => {
                proof {
                    lemma_pow10_grows((k + 1) as nat, exp as nat);
                }
                return None;
            },
        };
        k += 1;
    }
    Some(power)
}

/// The price of one native unit of base asset `i` in native units of the
/// quote currency, from an oracle value with the oracle's own number of
/// decimals: ten to the quote decimals less the oracle decimals, divided by
/// ten to the base decimals, times the value.
pub open spec fn base_price(g: GroupState, i: int, median: u64) -> Option<U64F64> {
    let quote_decimals = g.mint_decimals[NUM_MARKETS as int];
    let oracle_decimals = g.oracle_decimals[i];
    let base_decimals = g.mint_decimals[i];
    if quote_decimals < oracle_decimals {
        None
    } else if pow10((quote_decimals - oracle_decimals) as nat) > u64::MAX || pow10(
        base_decimals as nat,
    ) > u64::MAX {
        None
    } else {
        let quote_adj = U64F64::of_int(pow10((quote_decimals - oracle_decimals) as nat) as u64);
        let base_adj = U64F64::of_int(pow10(base_decimals as nat) as u64);
        match quote_adj.quot(base_adj) {
            Some(adj) => adj.prod(U64F64::of_int(median)),
            None => None,
        }
    }
}

/// The prices once the first `n` feeds have been read, in order. A feed
/// must be the one the group has bound to its market. The quote currency's
/// own price is one.
pub open spec fn prices_upto(g: GroupState, feeds: Seq<OracleFeed>, n: nat) -> Result<
    Seq<U64F64>,
    MangoError,
>
    decreases n,
{
    if n == 0 {
        Ok(
            Seq::new(
                NUM_TOKENS as nat,
                |k: int|
                    if k == NUM_MARKETS {
                        U64F64 { bits: SCALE }
                    } else {
                        U64F64 { bits: 0 }
                    },
            ),
        )
    } else {
        match prices_upto(g, feeds, (n - 1) as nat) {
            Ok(p) => if g.oracles[n - 1] != feeds[n - 1].key {
                Err(MangoError::ReferenceMismatch)
            } else {
                match base_price(g, n - 1, feeds[n - 1].median) {
                    Some(v) => Ok(p.update(n - 1, v)),
                    None => Err(MangoError::Arithmetic),
                }
            },
            Err(e) => Err(e),
        }
    }
}

/// The price of every asset in the quote currency.
pub open spec fn prices(g: GroupState, feeds: Seq<OracleFeed>) -> Result<Seq<U64F64>, MangoError> {
    prices_upto(g, feeds, NUM_MARKETS as nat)
}

/// A failure at one feed is the failure of the whole reading.
pub proof fn lemma_prices_error_stays(g: GroupState, feeds: Seq<OracleFeed>, n: nat, m: nat)
    requires
        n <= m,
        prices_upto(g, feeds, n) is Err,
    ensures
        prices_upto(g, feeds, m) == prices_upto(g, feeds, n),
    decreases m,
{
    if n < m {
        lemma_prices_error_stays(g, feeds, n, (m - 1) as nat);
    }
}

/// Prices that were read hold, for each market, the price computed from
/// its own feed, and one for the quote currency.
pub proof fn lemma_prices_read(g: GroupState, feeds: Seq<OracleFeed>, n: nat)
    requires
        n <= NUM_MARKETS,
        prices_upto(g, feeds, n) is Ok,
    ensures
        prices_upto(g, feeds, n)->Ok_0.len() == NUM_TOKENS,
        prices_upto(g, feeds, n)->Ok_0[NUM_MARKETS as int] == (U64F64 { bits: SCALE }),
        forall|i: int|
            0 <= i < n ==> g.oracles[i] == feeds[i].key && base_price(g, i, feeds[i].median)
                == Some(#[trigger] prices_upto(g, feeds, n)->Ok_0[i]),
    decreases n,
{
    if n > 0 {
        lemma_prices_read(g, feeds, (n - 1) as nat);
    }
}

/// The price of base asset `i` from its oracle's value.
fn price_of(mango_group: &MangoGroup, i: usize, median: u64) -> (r: Option<U64F64>)
    requires
        i < NUM_MARKETS,
    ensures
        r == base_price(mango_group@, i as int, median),
{
    let quote_decimals: u8 = mango_group.mint_decimals[NUM_MARKETS];
    let exp: u8 = match quote_decimals.checked_sub(mango_group.oracle_decimals[i]) {
        Some(v) => v,
        None => { return None; },
    };
    let quote_adj = match checked_pow10(exp) {
        Some(v) => U64F64::from_num(v),
        None => { return None; },
    };
    let base_adj = match checked_pow10(mango_group.mint_decimals[i]) {
        Some(v) => U64F64::from_num(v),
        None => { return None; },
    };
    let value = U64F64::from_num(median);
    match quote_adj.checked_div(base_adj) {
        Some(adj) => adj.checked_mul(value),
        None => None,
    }
}

/// Reads the price of every asset from the oracle feeds.
pub fn get_prices(mango_group: &MangoGroup, oracles: &[OracleFeed; NUM_MARKETS]) -> (r:
    MangoResult<[U64F64; NUM_TOKENS]>)
    ensures
        match prices(mango_group@, oracles@) {
            Ok(p) => r is Ok && r->Ok_0@ == p,
            Err(e) => r == Err::<[U64F64; NUM_TOKENS], MangoError>(e),
        },
{
    let mut prices = [U64F64::zero();NUM_TOKENS];
    prices[NUM_MARKETS] = U64F64::one();
    assert(prices@ =~= prices_upto(mango_group@, oracles@, 0)->Ok_0);
    let mut i: usize = 0;
    while i < NUM_MARKETS
        invariant
            i <= NUM_MARKETS,
            prices_upto(mango_group@, oracles@, i as nat) == Ok::<Seq<U64F64>, MangoError>(
                prices@,
            ),
        decreases NUM_MARKETS - i,
    {
        if mango_group.oracles[i] != oracles[i].key {
            proof {
                lemma_prices_error_stays(mango_group@, oracles@, (i + 1) as nat, NUM_MARKETS as nat);
            }
            return Err(MangoError::ReferenceMismatch);
        }
        match price_of(mango_group, i, oracles[i].median) {
            Some(v) => {
                prices[i] = v;
            },
            None => {
                proof {
                    lemma_prices_error_stays(
                        mango_group@,
                        oracles@,
                        (i + 1) as nat,
                        NUM_MARKETS as nat,
                    );
                }
                return Err(MangoError::Arithmetic);
            },
        }
        i += 1;
    }
    Ok(prices)
}

} // verus!
