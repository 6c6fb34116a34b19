use vstd::prelude::*;
use vstd::slice::slice_subrange;
use crate::error::{MangoError, MangoResult};
use crate::state::{
    Address, MangoGroup, MarginAccount, GROUP_FLAGS, MARGIN_ACCOUNT_FLAGS,
};

verus! {

/// Bytes that the venue puts before the content of each of its records.
pub const DEX_HEAD_PADDING: usize = 5;

/// Bytes that the venue puts after the content of each of its records.
pub const DEX_TAIL_PADDING: usize = 7;

/// Size of the header of one side of an order book.
pub const ORDER_BOOK_HEADER_LEN: usize = 8;

/// The flag word of the initialized bid side of an order book.
pub const BIDS_FLAGS: u64 = 33;

/// The flag word of the initialized ask side of an order book.
pub const ASKS_FLAGS: u64 = 65;

/// What leads one side of an order book: its flags, which say that it is
/// initialized and which side it is.
#[derive(Clone, Copy, PartialEq, Eq, Structural, Debug)]
pub struct OrderBookStateHeader {
    pub account_flags: u64,
}

/// The 64-bit number that the eight bytes from `at` on hold, lowest byte first.
pub open spec fn le_u64(data: Seq<u8>, at: int) -> int {
    data[at] + data[at + 1] * 0x100 + data[at + 2] * 0x1_0000 + data[at + 3] * 0x100_0000 + data[at
        + 4] * 0x1_0000_0000 + data[at + 5] * 0x100_0000_0000 + data[at + 6] * 0x1_0000_0000_0000
        + data[at + 7] * 0x100_0000_0000_0000
}

/// Reads a 64-bit number, lowest byte first.
pub fn read_u64(data: &[u8], at: usize) -> (r: u64)
    requires
        at + 8 <= data@.len(),
    ensures
        r == le_u64(data@, at as int),
{
    (data[at] as u64) + (data[at + 1] as u64) * 0x100 + (data[at + 2] as u64) * 0x1_0000 + (data[at
        + 3] as u64) * 0x100_0000 + (data[at + 4] as u64) * 0x1_0000_0000 + (data[at + 5] as u64)
        * 0x100_0000_0000 + (data[at + 6] as u64) * 0x1_0000_0000_0000 + (data[at + 7] as u64)
        * 0x100_0000_0000_0000
}

/// The content of a record of the venue: the record without the five
/// bytes before and the seven bytes after it.
pub fn strip_dex_padding(data: &[u8]) -> (r: MangoResult<&[u8]>)
    ensures
        match r {
            Ok(content) => data@.len() >= DEX_HEAD_PADDING + DEX_TAIL_PADDING && content@
                == data@.subrange(DEX_HEAD_PADDING as int, data@.len() - DEX_TAIL_PADDING),
            Err(e) => e == MangoError::InvalidRecord && data@.len() < DEX_HEAD_PADDING
                + DEX_TAIL_PADDING,
        },
{
    if data.len() < DEX_HEAD_PADDING + DEX_TAIL_PADDING {
        return Err(MangoError::InvalidRecord);
    }
    Ok(slice_subrange(data, DEX_HEAD_PADDING, data.len() - DEX_TAIL_PADDING))
}

/// The content of an open-orders record of the venue, which must have
/// exactly the length of such a record.
pub fn load_open_orders(data: &[u8], record_len: usize) -> (r: MangoResult<&[u8]>)
    ensures
        match r {
            Ok(content) => data@.len() == DEX_HEAD_PADDING + record_len + DEX_TAIL_PADDING
                && content@ == data@.subrange(
                DEX_HEAD_PADDING as int,
                DEX_HEAD_PADDING + record_len,
            ),
            Err(e) => e == MangoError::InvalidRecord && data@.len() != DEX_HEAD_PADDING
                + record_len + DEX_TAIL_PADDING,
        },
{
    let content = strip_dex_padding(data)?;
    if content.len() != record_len {
        return Err(MangoError::InvalidRecord);
    }
    Ok(content)
}

/// The longest prefix of the bytes that holds whole items only.
pub fn remove_slop(bytes: &[u8], item_size: usize) -> (r: &[u8])
    requires
        item_size > 0,
    ensures
        r@ == bytes@.subrange(0, bytes@.len() - (bytes@.len() as int) % (item_size as int)),
        (r@.len() as int) % (item_size as int) == 0,
{
    let slop: usize = bytes.len() % item_size;
    proof {
        vstd::arithmetic::div_mod::lemma_mod_decreases(bytes@.len(), item_size as nat);
    }
    let new_len: usize = bytes.len() - slop;
    proof {
        vstd::arithmetic::div_mod::lemma_fundamental_div_mod(
            bytes@.len() as int,
            item_size as int,
        );
        vstd::arithmetic::div_mod::lemma_mod_multiples_basic(
            bytes@.len() as int / item_size as int,
            item_size as int,
        );
        assert(item_size * (bytes@.len() as int / item_size as int) == (bytes@.len() as int
            / item_size as int) * item_size) by (nonlinear_arith);
    }
    slice_subrange(bytes, 0, new_len)
}

/// Splits a record into its header and the whole items that follow it.
pub fn strip_header(data: &[u8], header_size: usize, item_size: usize) -> (r: MangoResult<
    (&[u8], &[u8]),
>)
    requires
        item_size > 0,
    ensures
        match r {
            Ok((header, items)) => {
                &&& data@.len() >= header_size
                &&& header@ == data@.subrange(0, header_size as int)
                &&& items@ == data@.subrange(
                    header_size as int,
                    data@.len() - (data@.len() - header_size) % (item_size as int),
                )
                &&& (items@.len() as int) % (item_size as int) == 0
            },
            Err(e) => e == MangoError::InvalidRecord && data@.len() < header_size,
        },
{
    if data.len() < header_size {
        return Err(MangoError::InvalidRecord);
    }
    let header = slice_subrange(data, 0, header_size);
    let rest = slice_subrange(data, header_size, data.len());
    let items = remove_slop(rest, item_size);
    proof {
        vstd::arithmetic::div_mod::lemma_mod_decreases(rest@.len(), item_size as nat);
    }
    Ok((header, items))
}

/// Where the orders of one side of an order book lie within its record:
/// behind the venue's padding and the side's header. The record must be
/// the one the market names for that side, and its header must carry the
/// side's flags.
pub open spec fn book_bounds(expected: Address, key: Address, data: Seq<u8>, flags: u64) -> Result<
    (usize, usize),
    MangoError,
> {
    if key != expected {
        Err(MangoError::ReferenceMismatch)
    } else if data.len() < DEX_HEAD_PADDING + DEX_TAIL_PADDING + ORDER_BOOK_HEADER_LEN {
        Err(MangoError::InvalidRecord)
    } else if le_u64(data, DEX_HEAD_PADDING as int) != flags {
        Err(MangoError::InvalidRecord)
    } else {
        Ok(
            (
                (DEX_HEAD_PADDING + ORDER_BOOK_HEADER_LEN) as usize,
                (data.len() - DEX_TAIL_PADDING) as usize,
            ),
        )
    }
}

/// Finds the orders of one side of an order book within its record.
fn load_book(expected: &Address, key: &Address, data: &[u8], flags: u64) -> (r: MangoResult<
    (usize, usize),
>)
    ensures
        r == book_bounds(*expected, *key, data@, flags),
        r matches Ok((start, end)) ==> start <= end <= data@.len(),
{
    if *key != *expected {
        return Err(MangoError::ReferenceMismatch);
    }
    if data.len() < DEX_HEAD_PADDING + DEX_TAIL_PADDING + ORDER_BOOK_HEADER_LEN {
        return Err(MangoError::InvalidRecord);
    }
    let header = OrderBookStateHeader { account_flags: read_u64(data, DEX_HEAD_PADDING) };
    if header.account_flags != flags {
        return Err(MangoError::InvalidRecord);
    }
    Ok((DEX_HEAD_PADDING + ORDER_BOOK_HEADER_LEN, data.len() - DEX_TAIL_PADDING))
}

/// Finds the bids of a market within the record `bids`, which must be the
/// one that the market names: the caller may change the bytes from the
/// first bound up to the second.
pub fn load_bids_mut(market_bids: &Address, bids: &Address, data: &[u8]) -> (r: MangoResult<
    (usize, usize),
>)
    ensures
        r == book_bounds(*market_bids, *bids, data@, BIDS_FLAGS),
        r matches Ok((start, end)) ==> start <= end <= data@.len(),
{
    load_book(market_bids, bids, data, BIDS_FLAGS)
}

/// Finds the asks of a market within the record `asks`, which must be the
/// one that the market names: the caller may change the bytes from the
/// first bound up to the second.
pub fn load_asks_mut(market_asks: &Address, asks: &Address, data: &[u8]) -> (r: MangoResult<
    (usize, usize),
>)
    ensures
        r == book_bounds(*market_asks, *asks, data@, ASKS_FLAGS),
        r matches Ok((start, end)) ==> start <= end <= data@.len(),
{
    load_book(market_asks, asks, data, ASKS_FLAGS)
}

/// Where a market's state lies within its record, which the venue's
/// program must own.
pub open spec fn market_bounds(record_owner: Address, program_id: Address, len: usize) -> Result<
    (usize, usize),
    MangoError,
> {
    if record_owner != program_id {
        Err(MangoError::WrongOwner)
    } else if len < DEX_HEAD_PADDING + DEX_TAIL_PADDING {
        Err(MangoError::InvalidRecord)
    } else {
        Ok((DEX_HEAD_PADDING, (len - DEX_TAIL_PADDING) as usize))
    }
}

/// Finds a market's state within its record. The caller reads the state
/// from the first bound up to the second and has the venue check its flags.
pub fn load_market_state(record_owner: &Address, program_id: &Address, data_len: usize) -> (r:
    MangoResult<(usize, usize)>)
    ensures
        r == market_bounds(*record_owner, *program_id, data_len),
{
    if *record_owner != *program_id {
        return Err(MangoError::WrongOwner);
    }
    if data_len < DEX_HEAD_PADDING + DEX_TAIL_PADDING {
        return Err(MangoError::InvalidRecord);
    }
    Ok((DEX_HEAD_PADDING, data_len - DEX_TAIL_PADDING))
}

/// What a record of the ledger is.
#[derive(Clone, Copy, PartialEq, Eq, Structural, Debug)]
pub enum RecordKind {
    MangoGroup,
    MarginAccount,
}

/// The kind that a flag word stands for: the word of an initialized record
/// of one kind, and of no other.
pub open spec fn kind_of(account_flags: u64) -> Result<RecordKind, MangoError> {
    if account_flags == GROUP_FLAGS {
        Ok(RecordKind::MangoGroup)
    } else if account_flags == MARGIN_ACCOUNT_FLAGS {
        Ok(RecordKind::MarginAccount)
    } else {
        Err(MangoError::InvalidRecord)
    }
}

/// Tells from its flag word what a record is.
pub fn record_kind(account_flags: u64) -> (r: MangoResult<RecordKind>)
    ensures
        r == kind_of(account_flags),
{
    if account_flags == GROUP_FLAGS {
        Ok(RecordKind::MangoGroup)
    } else if account_flags == MARGIN_ACCOUNT_FLAGS {
        Ok(RecordKind::MarginAccount)
    } else {
        Err(MangoError::InvalidRecord)
    }
}

impl MangoGroup {
    /// Checks a record that was read as a group: it has the size of a
    /// group record, this program owns it, and it is flagged as an
    /// initialized group.
    pub fn load_checked(
        &self,
        data_len: usize,
        record_len: usize,
        record_owner: &Address,
        program_id: &Address,
    ) -> (r: MangoResult<()>)
        ensures
            r == (if data_len != record_len {
                Err::<(), MangoError>(MangoError::InvalidRecord)
            } else if *record_owner != *program_id {
                Err(MangoError::WrongOwner)
            } else if kind_of(self.account_flags) != Ok::<RecordKind, MangoError>(
                RecordKind::MangoGroup,
            ) {
                Err(MangoError::InvalidRecord)
            } else {
                Ok(())
            }),
    {
        if data_len != record_len {
            return Err(MangoError::InvalidRecord);
        }
        if *record_owner != *program_id {
            return Err(MangoError::WrongOwner);
        }
        match record_kind(self.account_flags)? {
            RecordKind::MangoGroup => Ok(()),
            RecordKind::MarginAccount => Err(MangoError::InvalidRecord),
        }
    }
}

impl MarginAccount {
    /// Checks a record that was read as a margin account: it has the size
    /// of a margin account record, it is flagged as an initialized margin
    /// account, and it belongs to the group.
    pub fn load_checked(&self, data_len: usize, record_len: usize, mango_group_pk: &Address) -> (r:
        MangoResult<()>)
        ensures
            r == (if data_len != record_len {
                Err::<(), MangoError>(MangoError::InvalidRecord)
            } else if kind_of(self.account_flags) != Ok::<RecordKind, MangoError>(
                RecordKind::MarginAccount,
            ) {
                Err(MangoError::InvalidRecord)
            } else if self.mango_group != *mango_group_pk {
                Err(MangoError::ReferenceMismatch)
            } else {
                Ok(())
            }),
    {
        if data_len != record_len {
            return Err(MangoError::InvalidRecord);
        }
        match record_kind(self.account_flags)? {
            RecordKind::MarginAccount => {},
            RecordKind::MangoGroup => { return Err(MangoError::InvalidRecord); },
        }
        if self.mango_group != *mango_group_pk {
            return Err(MangoError::ReferenceMismatch);
        }
        Ok(())
    }
}

} // verus!
