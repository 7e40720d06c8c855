//! The image header and the relocation table, as laid out in flash.

use vstd::prelude::*;
use crate::words::{word_at, read_word};

verus! {

/// Bytes taken by the header at the start of the flash image.
pub const HEADER_LEN: usize = 40;

/// Bytes taken by one relocation record.
pub const RECORD_LEN: usize = 12;

/// Where each segment of the image lives and how large it is. Offsets named
/// `*_sym_start` and `reldata_start` are relative to the flash base, the
/// others to the memory base.
#[derive(Clone, Copy, Debug, PartialEq, Eq, Structural)]
pub struct ImageHeader {
    pub got_sym_start: u32,
    pub got_start: u32,
    pub got_size: u32,
    pub data_sym_start: u32,
    pub data_start: u32,
    pub data_size: u32,
    pub bss_start: u32,
    pub bss_size: u32,
    pub reldata_start: u32,
    pub stack_size: u32,
}

/// One fix-up instruction. Only `offset` is consulted: the word it names
/// carries its own tag.
#[derive(Clone, Copy, Debug, PartialEq, Eq, Structural)]
pub struct RelocationRecord {
    pub offset: u32,
    pub info: u32,
    pub addend: u32,
}

/// The header stored in the first bytes of `flash`.
pub open spec fn header_of(flash: Seq<u8>) -> ImageHeader {
    ImageHeader {
        got_sym_start: word_at(flash, 0),
        got_start: word_at(flash, 4),
        got_size: word_at(flash, 8),
        data_sym_start: word_at(flash, 12),
        data_start: word_at(flash, 16),
        data_size: word_at(flash, 20),
        bss_start: word_at(flash, 24),
        bss_size: word_at(flash, 28),
        reldata_start: word_at(flash, 32),
        stack_size: word_at(flash, 36),
    }
}

/// The record stored at byte `at` of `flash`.
pub open spec fn record_at(flash: Seq<u8>, at: int) -> RelocationRecord {
    RelocationRecord {
        offset: word_at(flash, at),
        info: word_at(flash, at + 4),
        addend: word_at(flash, at + 8),
    }
}

/// Number of records in the table that `h` points at; its length word counts bytes.
pub open spec fn record_count(flash: Seq<u8>, h: ImageHeader) -> nat {
    (word_at(flash, h.reldata_start as int) / (RECORD_LEN as u32)) as nat
}

/// Whether the relocation table, length word and records, lies within `flash`.
pub open spec fn table_fits(flash: Seq<u8>, h: ImageHeader) -> bool {
    &&& h.reldata_start as int + 4 <= flash.len()
    &&& h.reldata_start as int + 4 + RECORD_LEN * record_count(flash, h) <= flash.len()
}

/// The records of the table that `h` points at.
pub open spec fn records_of(flash: Seq<u8>, h: ImageHeader) -> Seq<RelocationRecord> {
    Seq::new(
        record_count(flash, h),
        |k: int| record_at(flash, h.reldata_start as int + 4 + RECORD_LEN * k),
    )
}

impl ImageHeader {
    /// Reads the header at the start of `flash`; `None` when `flash` is too short to hold one.
    pub fn parse(flash: &Vec<u8>) -> (r: Option<ImageHeader>)
        ensures
            r.is_some() <==> flash@.len() >= HEADER_LEN,
            r.is_some() ==> r == Some(header_of(flash@)),
    {
        if flash.len() < HEADER_LEN {
            return None;
        }
        Some(ImageHeader {
            got_sym_start: read_word(flash, 0),
            got_start: read_word(flash, 4),
            got_size: read_word(flash, 8),
            data_sym_start: read_word(flash, 12),
            data_start: read_word(flash, 16),
            data_size: read_word(flash, 20),
            bss_start: read_word(flash, 24),
            bss_size: read_word(flash, 28),
            reldata_start: read_word(flash, 32),
            stack_size: read_word(flash, 36),
        })
    }
}

/// Reads the relocation table that `h` points at; `None` when it does not lie within `flash`.
pub fn relocation_records(flash: &Vec<u8>, h: &ImageHeader) -> (r: Option<Vec<RelocationRecord>>)
    ensures
        r.is_some() <==> table_fits(flash@, *h),
        r matches Some(v) ==> v@ == records_of(flash@, *h),
{
    let n: usize = flash.len();
    let start: usize = h.reldata_start as usize;
    if start > n || n - start < 4 {
        return None;
    }
    let count: usize = (read_word(flash, start) / (RECORD_LEN as u32)) as usize;
    if count > (n - start - 4) / RECORD_LEN {
        return None;
    }
    assert(RECORD_LEN * count <= n - start - 4) by (nonlinear_arith)
        requires count <= (n - start - 4) / 12int, RECORD_LEN == 12;
    let mut out: Vec<RelocationRecord> = Vec::new();
    let mut k: usize = 0;
    while k < count
        invariant
            k <= count,
            count == record_count(flash@, *h),
            n == flash@.len(),
            start == h.reldata_start,
            start + 4 + RECORD_LEN * count <= n,
            out@ == records_of(flash@, *h).take(k as int),
        decreases count - k,
    {
        assert(RECORD_LEN * k + RECORD_LEN <= RECORD_LEN * count) by (nonlinear_arith)
            requires k < count;
        let at: usize = start + 4 + RECORD_LEN * k;
        out.push(RelocationRecord {
            offset: read_word(flash, at),
            info: read_word(flash, at + 4),
            addend: read_word(flash, at + 8),
        });
        k = k + 1;
        assert(out@ =~= records_of(flash@, *h).take(k as int));
    }
    assert(out@ =~= records_of(flash@, *h));
    Some(out)
}

} // verus!
