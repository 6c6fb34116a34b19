use vstd::prelude::*;
use crate::error::{or_arithmetic, MangoError, MangoResult};
use crate::fixed_point::{SCALE, U64F64};
use crate::rates::{
    max_rate, rate_curve, HIGH_SLOPE_BITS, LOW_SLOPE_BITS, MAX_RATE_BITS, OPTIMAL_RATE_BITS,
    OPTIMAL_UTIL_BITS,
};
use crate::state::{Address, GroupState, MangoGroup, MangoIndex, NUM_MARKETS, NUM_TOKENS};

verus! {

/// The first place at which `key` stands in `keys`, if it stands there at all.
pub open spec fn first_position(keys: Seq<Address>, key: Address) -> Option<usize> {
    if exists|i: int| 0 <= i < keys.len() && keys[i] == key {
        Some(
            (choose|i: int|
                0 <= i < keys.len() && keys[i] == key && forall|j: int|
                    0 <= j < i ==> keys[j] != key) as usize,
        )
    } else {
        None
    }
}

/// Finds `key` among `keys`.
pub fn position<const N: usize>(keys: &[Address; N], key: &Address) -> (r: Option<usize>)
    ensures
        r == first_position(keys@, *key),
        match r {
            Some(i) => i < N && keys@[i as int] == *key && forall|j: int|
                0 <= j < i ==> keys@[j] != *key,
            None => forall|j: int| 0 <= j < N ==> keys@[j] != *key,
        },
{
    let mut i: usize = 0;
    while i < N
        invariant
            i <= N,
            forall|j: int| 0 <= j < i ==> keys@[j] != *key,
        decreases N - i,
    {
        if keys[i] == *key {
            return Some(i);
        }
        i += 1;
    }
    None
}

/// With borrows below deposits the utilization is below one.
proof fn lemma_utilization_bound(nb: int, nd: int)
    by (nonlinear_arith)
    requires
        0 <= nb <= nd,
        0 < nd,
    ensures
        0 <= nb * 0x1_0000_0000_0000_0000 / nd <= 0x1_0000_0000_0000_0000,
{
}

impl GroupState {
    /// The asset's deposits in native units.
    pub open spec fn native_deposits(self, i: int) -> Option<U64F64> {
        self.total_deposits[i].prod(self.indexes[i].deposit)
    }

    /// The asset's borrows in native units.
    pub open spec fn native_borrows(self, i: int) -> Option<U64F64> {
        self.total_borrows[i].prod(self.indexes[i].borrow)
    }

    /// The asset's native deposits cover its native borrows.
    pub open spec fn solvent(self, i: int) -> bool {
        &&& self.native_deposits(i) is Some
        &&& self.native_borrows(i) is Some
        &&& self.native_borrows(i)->0.bits <= self.native_deposits(i)->0.bits
    }

    /// The asset's borrow rate per second: the maximum rate where borrows are
    /// not below deposits, else the rate curve at borrows over deposits.
    pub open spec fn interest_rate(self, i: int) -> Option<U64F64> {
        match (self.native_deposits(i), self.native_borrows(i)) {
            (Some(nd), Some(nb)) => Some(
                if nd.bits <= nb.bits {
                    max_rate()
                } else {
                    rate_curve(nb.quot(nd)->0)
                },
            ),
            _ => None,
        }
    }

    /// The asset's index after interest has accrued from its last update to
    /// `now` on native deposits `nd` and native borrows `nb`.
    pub open spec fn accrued(self, i: int, nd: U64F64, nb: U64F64, now: u64) -> Option<
        MangoIndex,
    > {
        let index = self.indexes[i];
        match (nb.quot(nd), self.interest_rate(i)) {
            (Some(utilization), Some(rate)) => {
                match rate.prod(U64F64::of_int((now - index.last_update) as u64)) {
                    Some(borrow_growth) => match borrow_growth.prod(utilization) {
                        Some(deposit_growth) => match (
                            index.borrow.prod(borrow_growth),
                            index.deposit.prod(deposit_growth),
                        ) {
                            (Some(b), Some(d)) => match (b.sum(index.borrow), d.sum(index.deposit)) {
                                (Some(borrow), Some(deposit)) => Some(
                                    MangoIndex { last_update: now, borrow, deposit },
                                ),
                                _ => None,
                            },
                            _ => None,
                        },
                        None => None,
                    },
                    None => None,
                }
            },
            _ => None,
        }
    }

    /// The asset's index once it has been brought up to `now`. An index that
    /// was already updated at `now` stays, and so does that of an asset
    /// without deposits, which must not have borrows.
    pub open spec fn accrue(self, i: int, now: u64) -> Result<MangoIndex, MangoError> {
        let index = self.indexes[i];
        if index.last_update == now {
            Ok(index)
        } else {
            match (self.native_deposits(i), self.native_borrows(i)) {
                (Some(nd), Some(nb)) => {
                    if nb.bits > nd.bits {
                        Err(MangoError::InvariantViolated)
                    } else if self.total_deposits[i].bits == 0 {
                        Ok(index)
                    } else if now < index.last_update {
                        Err(MangoError::Arithmetic)
                    } else {
                        or_arithmetic(self.accrued(i, nd, nb, now))
                    }
                },
                _ => Err(MangoError::Arithmetic),
            }
        }
    }

    /// The group once the indexes of its first `n` assets have been brought
    /// up to `now`, in order.
    pub open spec fn refresh_upto(self, now: u64, n: nat) -> Result<GroupState, MangoError>
        decreases n,
    {
        if n == 0 {
            Ok(self)
        } else {
            match self.refresh_upto(now, (n - 1) as nat) {
                Ok(g) => match self.accrue(n - 1, now) {
                    Ok(index) => Ok(GroupState { indexes: g.indexes.update(n - 1, index), ..g }),
                    Err(e) => Err(e),
                },
                Err(e) => Err(e),
            }
        }
    }

    /// The group once every index has been brought up to `now`.
    pub open spec fn refresh(self, now: u64) -> Result<GroupState, MangoError> {
        self.refresh_upto(now, NUM_TOKENS as nat)
    }

    /// The asset's native deposits, rounded down to whole units.
    pub open spec fn total_native_deposit(self, i: int) -> Option<u64> {
        match self.native_deposits(i) {
            Some(nd) => Some(nd.int_part()),
            None => None,
        }
    }

    /// The asset's native borrows, rounded up to whole units.
    pub open spec fn total_native_borrow(self, i: int) -> Option<u64> {
        match self.native_borrows(i) {
            Some(nb) => match nb.ceil() {
                Some(c) => Some(c.int_part()),
                None => None,
            },
            None => None,
        }
    }

    /// Whether the asset's whole native deposits cover its whole native borrows.
    pub open spec fn covered(self, i: int) -> Option<bool> {
        match (self.total_native_deposit(i), self.total_native_borrow(i)) {
            (Some(d), Some(b)) => Some(d >= b),
            _ => None,
        }
    }
}

/// A failure at one asset is the failure of the whole refresh.
pub proof fn lemma_refresh_error_stays(g: GroupState, now: u64, n: nat, m: nat)
    requires
        n <= m,
        g.refresh_upto(now, n) is Err,
    ensures
        g.refresh_upto(now, m) == g.refresh_upto(now, n),
    decreases m,
{
    if n < m {
        lemma_refresh_error_stays(g, now, n, (m - 1) as nat);
    }
}

/// A refresh changes nothing but the indexes.
pub proof fn lemma_refresh_frame(g: GroupState, now: u64, n: nat)
    requires
        g.wf(),
        n <= NUM_TOKENS,
        g.refresh_upto(now, n) is Ok,
    ensures
        g.refresh_upto(now, n)->Ok_0 == (GroupState {
            indexes: g.refresh_upto(now, n)->Ok_0.indexes,
            ..g
        }),
        g.refresh_upto(now, n)->Ok_0.indexes.len() == NUM_TOKENS,
        forall|i: int|
            0 <= i < n ==> g.accrue(i, now) == Ok::<MangoIndex, MangoError>(
                #[trigger] g.refresh_upto(now, n)->Ok_0.indexes[i],
            ),
        forall|i: int|
            n <= i < NUM_TOKENS ==> #[trigger] g.refresh_upto(now, n)->Ok_0.indexes[i]
                == g.indexes[i],
    decreases n,
{
    if n > 0 {
        lemma_refresh_frame(g, now, (n - 1) as nat);
    }
}

impl MangoGroup {
    /// The asset with the given mint.
    pub fn get_token_index(&self, mint_pk: &Address) -> (r: Option<usize>)
        ensures
            r == first_position(self@.tokens, *mint_pk),
            r matches Some(i) ==> i < NUM_TOKENS && self@.tokens[i as int] == *mint_pk,
    {
        position(&self.tokens, mint_pk)
    }

    /// The asset that is held in the given vault.
    pub fn get_token_index_with_vault(&self, vault: &Address) -> (r: Option<usize>)
        ensures
            r == first_position(self@.vaults, *vault),
            r matches Some(i) ==> i < NUM_TOKENS && self@.vaults[i as int] == *vault,
    {
        position(&self.vaults, vault)
    }

    /// The market with the given key.
    pub fn get_market_index(&self, spot_market_pk: &Address) -> (r: Option<usize>)
        ensures
            r == first_position(self@.spot_markets, *spot_market_pk),
            r matches Some(i) ==> i < NUM_MARKETS && self@.spot_markets[i as int]
                == *spot_market_pk,
    {
        position(&self.spot_markets, spot_market_pk)
    }

    /// The rate curve at a utilization of at most one.
    fn curve(utilization: U64F64) -> (r: U64F64)
        requires
            utilization.bits <= SCALE,
        ensures
            r == rate_curve(utilization),
    {
        let optimal_util = U64F64 { bits: OPTIMAL_UTIL_BITS };
        let optimal_r = U64F64 { bits: OPTIMAL_RATE_BITS };
        if utilization.bits > optimal_util.bits {
            let extra_util = utilization.checked_sub(optimal_util).unwrap();
            let slope = U64F64 { bits: HIGH_SLOPE_BITS };
            optimal_r.checked_add(slope.checked_mul(extra_util).unwrap()).unwrap()
        } else {
            let slope = U64F64 { bits: LOW_SLOPE_BITS };
            slope.checked_mul(utilization).unwrap()
        }
    }

    /// Interest is in units per second: 0.01 stands for 1% interest per second.
    pub fn get_interest_rate(&self, token_index: usize) -> (r: MangoResult<U64F64>)
        requires
            token_index < NUM_TOKENS,
        ensures
            r == or_arithmetic(self@.interest_rate(token_index as int)),
            r matches Ok(rate) ==> rate.bits <= MAX_RATE_BITS,
    {
        let index = self.indexes[token_index];
        let native_deposits = match self.total_deposits[token_index].checked_mul(index.deposit) {
            Some(v) => v,
            None => { return Err(MangoError::Arithmetic); },
        };
        let native_borrows = match self.total_borrows[token_index].checked_mul(index.borrow) {
            Some(v) => v,
            None => { return Err(MangoError::Arithmetic); },
        };
        if native_deposits.bits <= native_borrows.bits {
            return Ok(U64F64 { bits: MAX_RATE_BITS });
        }
        proof {
            lemma_utilization_bound(native_borrows.bits as int, native_deposits.bits as int);
        }
        match native_borrows.checked_div(native_deposits) {
            Some(utilization) => Ok(Self::curve(utilization)),
            None => Err(MangoError::Arithmetic),
        }
    }

    /// The asset's index brought up to `now`.
    pub fn accrue_index(&self, token_index: usize, now: u64) -> (r: MangoResult<MangoIndex>)
        requires
            token_index < NUM_TOKENS,
        ensures
            r == self@.accrue(token_index as int, now),
            r matches Ok(index) ==> {
                &&& index.borrow.bits >= self@.indexes[token_index as int].borrow.bits
                &&& index.deposit.bits >= self@.indexes[token_index as int].deposit.bits
                &&& index.last_update >= self@.indexes[token_index as int].last_update
            },
    {
        let index = self.indexes[token_index];
        if index.last_update == now {
            return Ok(index);
        }
        let native_deposits = match self.total_deposits[token_index].checked_mul(index.deposit) {
            Some(v) => v,
            None => { return Err(MangoError::Arithmetic); },
        };
        let native_borrows = match self.total_borrows[token_index].checked_mul(index.borrow) {
            Some(v) => v,
            None => { return Err(MangoError::Arithmetic); },
        };
        if native_borrows.bits > native_deposits.bits {
            return Err(MangoError::InvariantViolated);
        }
        if self.total_deposits[token_index].bits == 0 {
            return Ok(index);
        }
        if now < index.last_update {
            return Err(MangoError::Arithmetic);
        }
        let utilization = match native_borrows.checked_div(native_deposits) {
            Some(v) => v,
            None => { return Err(MangoError::Arithmetic); },
        };
        let interest_rate = self.get_interest_rate(token_index)?;
        let elapsed: u64 = now - index.last_update;
        let borrow_interest = match interest_rate.checked_mul(U64F64::from_num(elapsed)) {
            Some(v) => v,
            None => { return Err(MangoError::Arithmetic); },
        };
        let deposit_interest = match borrow_interest.checked_mul(utilization) {
            Some(v) => v,
            None => { return Err(MangoError::Arithmetic); },
        };
        let borrow_rise = match index.borrow.checked_mul(borrow_interest) {
            Some(v) => v,
            None => { return Err(MangoError::Arithmetic); },
        };
        let deposit_rise = match index.deposit.checked_mul(deposit_interest) {
            Some(v) => v,
            None => { return Err(MangoError::Arithmetic); },
        };
        let borrow = match borrow_rise.checked_add(index.borrow) {
            Some(v) => v,
            None => { return Err(MangoError::Arithmetic); },
        };
        let deposit = match deposit_rise.checked_add(index.deposit) {
            Some(v) => v,
            None => { return Err(MangoError::Arithmetic); },
        };
        Ok(MangoIndex { last_update: now, borrow, deposit })
    }

    /// Brings every asset's index up to `now`. Neither index of any asset
    /// ever falls, and on failure nothing changes.
    pub fn update_indexes(&mut self, now: u64) -> (r: MangoResult<()>)
        ensures
            match old(self)@.refresh(now) {
                Ok(g) => r is Ok && final(self)@ == g,
                Err(e) => r == Err::<(), MangoError>(e) && *final(self) == *old(self),
            },
            forall|i: int|
                0 <= i < NUM_TOKENS ==> {
                    &&& (#[trigger] final(self)@.indexes[i]).borrow.bits >= old(
                        self,
                    )@.indexes[i].borrow.bits
                    &&& final(self)@.indexes[i].deposit.bits >= old(self)@.indexes[i].deposit.bits
                    &&& final(self)@.indexes[i].last_update >= old(self)@.indexes[i].last_update
                },
    {
        let mut indexes = self.indexes;
        let mut i: usize = 0;
        while i < NUM_TOKENS
            invariant
                i <= NUM_TOKENS,
                *self == *old(self),
                self@.refresh_upto(now, i as nat) == Ok::<GroupState, MangoError>(
                    GroupState { indexes: indexes@, ..self@ },
                ),
                forall|j: int|
                    0 <= j < NUM_TOKENS ==> {
                        &&& (#[trigger] indexes@[j]).borrow.bits >= self@.indexes[j].borrow.bits
                        &&& indexes@[j].deposit.bits >= self@.indexes[j].deposit.bits
                        &&& indexes@[j].last_update >= self@.indexes[j].last_update
                    },
            decreases NUM_TOKENS - i,
        {
            match self.accrue_index(i, now) {
                Ok(index) => {
                    indexes[i] = index;
                },
                Err(e) => {
                    proof {
                        lemma_refresh_error_stays(self@, now, (i + 1) as nat, NUM_TOKENS as nat);
                    }
                    return Err(e);
                },
            }
            i += 1;
        }
        self.indexes = indexes;
        Ok(())
    }

    /// Rounds toward +inf.
    pub fn get_total_native_borrow(&self, token_i: usize) -> (r: MangoResult<u64>)
        requires
            token_i < NUM_TOKENS,
        ensures
            r == or_arithmetic(self@.total_native_borrow(token_i as int)),
    {
        match self.total_borrows[token_i].checked_mul(self.indexes[token_i].borrow) {
            Some(native) => match native.checked_ceil() {
                Some(c) => Ok(c.to_num()),
                None => Err(MangoError::Arithmetic),
            },
            None => Err(MangoError::Arithmetic),
        }
    }

    /// Rounds toward -inf.
    pub fn get_total_native_deposit(&self, token_i: usize) -> (r: MangoResult<u64>)
        requires
            token_i < NUM_TOKENS,
        ensures
            r == or_arithmetic(self@.total_native_deposit(token_i as int)),
    {
        match self.total_deposits[token_i].checked_mul(self.indexes[token_i].deposit) {
            Some(native) => Ok(native.to_num()),
            None => Err(MangoError::Arithmetic),
        }
    }

    /// Whether the asset's whole native deposits cover its whole native
    /// borrows.
    pub fn has_valid_deposits_borrows(&self, token_i: usize) -> (r: MangoResult<bool>)
        requires
            token_i < NUM_TOKENS,
        ensures
            r == or_arithmetic(self@.covered(token_i as int)),
    {
        let deposit: u64 = self.get_total_native_deposit(token_i)?;
        let borrow: u64 = self.get_total_native_borrow(token_i)?;
        Ok(deposit >= borrow)
    }

    pub fn checked_add_borrow(&mut self, token_i: usize, v: U64F64) -> (r: MangoResult<()>)
        requires
            token_i < NUM_TOKENS,
        ensures
            match old(self)@.total_borrows[token_i as int].sum(v) {
                Some(s) => r is Ok && final(self)@ == (GroupState {
                    total_borrows: old(self)@.total_borrows.update(token_i as int, s),
                    ..old(self)@
                }),
                None => r == Err::<(), MangoError>(MangoError::Arithmetic) && *final(self) == *old(
                    self,
                ),
            },
    {
        match self.total_borrows[token_i].checked_add(v) {
            Some(s) => {
                self.total_borrows[token_i] = s;
                Ok(())
            },
            None => Err(MangoError::Arithmetic),
        }
    }

    pub fn checked_sub_borrow(&mut self, token_i: usize, v: U64F64) -> (r: MangoResult<()>)
        requires
            token_i < NUM_TOKENS,
        ensures
            match old(self)@.total_borrows[token_i as int].diff(v) {
                Some(s) => r is Ok && final(self)@ == (GroupState {
                    total_borrows: old(self)@.total_borrows.update(token_i as int, s),
                    ..old(self)@
                }),
                None => r == Err::<(), MangoError>(MangoError::Arithmetic) && *final(self) == *old(
                    self,
                ),
            },
    {
        match self.total_borrows[token_i].checked_sub(v) {
            Some(s) => {
                self.total_borrows[token_i] = s;
                Ok(())
            },
            None => Err(MangoError::Arithmetic),
        }
    }

    pub fn checked_add_deposit(&mut self, token_i: usize, v: U64F64) -> (r: MangoResult<()>)
        requires
            token_i < NUM_TOKENS,
        ensures
            match old(self)@.total_deposits[token_i as int].sum(v) {
                Some(s) => r is Ok && final(self)@ == (GroupState {
                    total_deposits: old(self)@.total_deposits.update(token_i as int, s),
                    ..old(self)@
                }),
                None => r == Err::<(), MangoError>(MangoError::Arithmetic) && *final(self) == *old(
                    self,
                ),
            },
    {
        match self.total_deposits[token_i].checked_add(v) {
            Some(s) => {
                self.total_deposits[token_i] = s;
                Ok(())
            },
            None => Err(MangoError::Arithmetic),
        }
    }

    pub fn checked_sub_deposit(&mut self, token_i: usize, v: U64F64) -> (r: MangoResult<()>)
        requires
            token_i < NUM_TOKENS,
        ensures
            match old(self)@.total_deposits[token_i as int].diff(v) {
                Some(s) => r is Ok && final(self)@ == (GroupState {
                    total_deposits: old(self)@.total_deposits.update(token_i as int, s),
                    ..old(self)@
                }),
                None => r == Err::<(), MangoError>(MangoError::Arithmetic) && *final(self) == *old(
                    self,
                ),
            },
    {
        match self.total_deposits[token_i].checked_sub(v) {
            Some(s) => {
                self.total_deposits[token_i] = s;
                Ok(())
            },
            None => Err(MangoError::Arithmetic),
        }
    }
}

} // verus!
