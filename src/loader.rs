//! Turns a flash image and a fresh memory region into a running image: fixes
//! the offset table, copies initialised data, zeroes the BSS and applies the
//! relocation table, in that order.

use vstd::prelude::*;
use crate::address::{LoadBases, resolved, resolve};
use crate::words::{word_at, put_word, read_word, write_word};
use crate::header::{
    ImageHeader, RelocationRecord, header_of, records_of, table_fits, relocation_records,
    HEADER_LEN,
};

verus! {

/// A span of bytes, `len` long from `start`, within one region.
#[derive(Clone, Copy, Debug, PartialEq, Eq, Structural)]
pub struct Segment {
    pub start: u32,
    pub len: u32,
}

impl Segment {
    pub open spec fn end(self) -> int {
        self.start as int + self.len as int
    }

    /// Whether the segment lies within a region of `total` bytes.
    pub open spec fn fits_spec(self, total: nat) -> bool {
        self.end() <= total
    }

    pub fn fits(&self, total: usize) -> (r: bool)
        ensures
            r == self.fits_spec(total as nat),
    {
        (self.start as usize) <= total && (self.len as usize) <= total - (self.start as usize)
    }
}

/// Why an image could not be loaded. Each is found before memory is touched.
#[derive(Clone, Copy, Debug, PartialEq, Eq, Structural)]
pub enum LoadFault {
    HeaderTruncated,
    OffsetTableOutOfBounds,
    DataOutOfBounds,
    BssOutOfBounds,
    RelocationTableOutOfBounds,
    RelocationTargetOutOfBounds,
}

pub open spec fn got_source(h: ImageHeader) -> Segment {
    Segment { start: h.got_sym_start, len: h.got_size }
}

pub open spec fn got_dest(h: ImageHeader) -> Segment {
    Segment { start: h.got_start, len: h.got_size }
}

pub open spec fn data_source(h: ImageHeader) -> Segment {
    Segment { start: h.data_sym_start, len: h.data_size }
}

pub open spec fn data_dest(h: ImageHeader) -> Segment {
    Segment { start: h.data_start, len: h.data_size }
}

pub open spec fn bss_dest(h: ImageHeader) -> Segment {
    Segment { start: h.bss_start, len: h.bss_size }
}

/// Whether every record names a whole word within a region of `total` bytes.
pub open spec fn targets_fit(records: Seq<RelocationRecord>, total: nat) -> bool {
    forall|k: int| 0 <= k < records.len() ==> #[trigger] records[k].offset as int + 4 <= total
}

/// The first fault found in loading `flash` into a region of `mem_len` bytes, if any.
pub open spec fn fault_of(flash: Seq<u8>, mem_len: nat) -> Option<LoadFault> {
    let h = header_of(flash);
    if flash.len() < HEADER_LEN {
        Some(LoadFault::HeaderTruncated)
    } else if !got_source(h).fits_spec(flash.len()) || !got_dest(h).fits_spec(mem_len) {
        Some(LoadFault::OffsetTableOutOfBounds)
    } else if !data_source(h).fits_spec(flash.len()) || !data_dest(h).fits_spec(mem_len) {
        Some(LoadFault::DataOutOfBounds)
    } else if !bss_dest(h).fits_spec(mem_len) {
        Some(LoadFault::BssOutOfBounds)
    } else if !table_fits(flash, h) {
        Some(LoadFault::RelocationTableOutOfBounds)
    } else if !targets_fit(records_of(flash, h), mem_len) {
        Some(LoadFault::RelocationTargetOutOfBounds)
    } else {
        None
    }
}

/// `mem` with the first `n` offset-table entries resolved from flash.
pub open spec fn fix_got(mem: Seq<u8>, flash: Seq<u8>, h: ImageHeader, bases: LoadBases, n: nat) -> Seq<u8>
    decreases n,
{
    if n == 0 {
        mem
    } else {
        let k = n - 1;
        put_word(
            fix_got(mem, flash, h, bases, k as nat),
            h.got_start + 4 * k,
            resolved(word_at(flash, h.got_sym_start + 4 * k), bases),
        )
    }
}

/// `s` with `src` written from byte `at` on.
pub open spec fn splice(s: Seq<u8>, at: int, src: Seq<u8>) -> Seq<u8> {
    s.subrange(0, at) + src + s.subrange(at + src.len(), s.len() as int)
}

pub open spec fn zeros(n: nat) -> Seq<u8> {
    Seq::new(n, |i: int| 0u8)
}

/// `mem` with the data segment copied from flash.
pub open spec fn copy_data(mem: Seq<u8>, flash: Seq<u8>, h: ImageHeader) -> Seq<u8> {
    splice(mem, h.data_start as int, flash.subrange(h.data_sym_start as int, data_source(h).end()))
}

/// `mem` with the BSS zeroed.
pub open spec fn zero_bss(mem: Seq<u8>, h: ImageHeader) -> Seq<u8> {
    splice(mem, h.bss_start as int, zeros(h.bss_size as nat))
}

/// `mem` after the first `n` records corrected the word each names, in order.
pub open spec fn relocate(mem: Seq<u8>, records: Seq<RelocationRecord>, bases: LoadBases, n: nat) -> Seq<u8>
    decreases n,
{
    if n == 0 {
        mem
    } else {
        let prev = relocate(mem, records, bases, (n - 1) as nat);
        let at = records[n - 1].offset as int;
        put_word(prev, at, resolved(word_at(prev, at), bases))
    }
}

/// The memory region after the whole load of `flash` into `mem`.
pub open spec fn loaded(mem: Seq<u8>, flash: Seq<u8>, bases: LoadBases) -> Seq<u8> {
    let h = header_of(flash);
    let recs = records_of(flash, h);
    relocate(
        zero_bss(copy_data(fix_got(mem, flash, h, bases, (h.got_size / 4) as nat), flash, h), h),
        recs,
        bases,
        recs.len(),
    )
}

/// Resolves each offset-table entry from flash into memory.
pub fn fix_offset_table(mem: &mut Vec<u8>, flash: &Vec<u8>, h: &ImageHeader, bases: LoadBases)
    requires
        got_source(*h).fits_spec(flash@.len()),
        got_dest(*h).fits_spec(old(mem)@.len()),
    ensures
        final(mem)@ == fix_got(old(mem)@, flash@, *h, bases, (h.got_size / 4) as nat),
        final(mem)@.len() == old(mem)@.len(),
{
    let _f: usize = flash.len();
    let _m: usize = mem.len();
    let count: usize = (h.got_size / 4) as usize;
    let src: usize = h.got_sym_start as usize;
    let dst: usize = h.got_start as usize;
    let mut k: usize = 0;
    while k < count
        invariant
            k <= count,
            count == h.got_size / 4,
            src == h.got_sym_start,
            dst == h.got_start,
            src + h.got_size <= flash@.len(),
            flash@.len() <= usize::MAX,
            dst + h.got_size <= mem@.len(),
            mem@ == fix_got(old(mem)@, flash@, *h, bases, k as nat),
            mem@.len() == old(mem)@.len(),
            old(mem)@.len() <= usize::MAX,
        decreases count - k,
    {
        assert(4 * k + 4 <= h.got_size) by (nonlinear_arith)
            requires k < count, count == h.got_size / 4;
        let w: u32 = read_word(flash, src + 4 * k);
        write_word(mem, dst + 4 * k, resolve(w, bases));
        k = k + 1;
    }
}

/// Copies the initialised data segment from flash into memory.
pub fn copy_data_segment(mem: &mut Vec<u8>, flash: &Vec<u8>, h: &ImageHeader)
    requires
        data_source(*h).fits_spec(flash@.len()),
        data_dest(*h).fits_spec(old(mem)@.len()),
    ensures
        final(mem)@ == copy_data(old(mem)@, flash@, *h),
        final(mem)@.len() == old(mem)@.len(),
{
    let _f: usize = flash.len();
    let _m: usize = mem.len();
    let len: usize = h.data_size as usize;
    let src: usize = h.data_sym_start as usize;
    let dst: usize = h.data_start as usize;
    let mut i: usize = 0;
    while i < len
        invariant
            i <= len,
            len == h.data_size,
            src == h.data_sym_start,
            dst == h.data_start,
            src + len <= flash@.len(),
            flash@.len() <= usize::MAX,
            dst + len <= mem@.len(),
            mem@.len() == old(mem)@.len(),
            old(mem)@.len() <= usize::MAX,
            mem@ == splice(old(mem)@, dst as int, flash@.subrange(src as int, src + i)),
        decreases len - i,
    {
        mem.set(dst + i, flash[src + i]);
        i = i + 1;
        assert(mem@ =~= splice(old(mem)@, dst as int, flash@.subrange(src as int, src + i)));
    }
}

/// Writes zeroes over the BSS segment.
pub fn zero_bss_segment(mem: &mut Vec<u8>, h: &ImageHeader)
    requires
        bss_dest(*h).fits_spec(old(mem)@.len()),
    ensures
        final(mem)@ == zero_bss(old(mem)@, *h),
        final(mem)@.len() == old(mem)@.len(),
{
    let _m: usize = mem.len();
    let len: usize = h.bss_size as usize;
    let dst: usize = h.bss_start as usize;
    let mut i: usize = 0;
    while i < len
        invariant
            i <= len,
            len == h.bss_size,
            dst == h.bss_start,
            dst + len <= mem@.len(),
            mem@.len() == old(mem)@.len(),
            old(mem)@.len() <= usize::MAX,
            mem@ == splice(old(mem)@, dst as int, zeros(i as nat)),
        decreases len - i,
    {
        mem.set(dst + i, 0u8);
        i = i + 1;
        assert(mem@ =~= splice(old(mem)@, dst as int, zeros(i as nat)));
    }
    assert(mem@ =~= zero_bss(old(mem)@, *h));
}

/// Corrects, record by record, the word each relocation record names.
pub fn apply_relocations(mem: &mut Vec<u8>, records: &Vec<RelocationRecord>, bases: LoadBases)
    requires
        targets_fit(records@, old(mem)@.len()),
    ensures
        final(mem)@ == relocate(old(mem)@, records@, bases, records@.len()),
        final(mem)@.len() == old(mem)@.len(),
{
    let _m: usize = mem.len();
    let mut k: usize = 0;
    while k < records.len()
        invariant
            k <= records@.len(),
            targets_fit(records@, mem@.len()),
            mem@.len() == old(mem)@.len(),
            old(mem)@.len() <= usize::MAX,
            mem@ == relocate(old(mem)@, records@, bases, k as nat),
        decreases records@.len() - k,
    {
        let at: usize = records[k].offset as usize;
        assert(records@[k as int].offset as int + 4 <= mem@.len());
        let w: u32 = read_word(mem, at);
        write_word(mem, at, resolve(w, bases));
        k = k + 1;
    }
}

/// Loads the image in `flash` into `mem`, placed at `bases`. Every bound is
/// checked first: on a fault memory is left as it was.
pub fn bootstrap(flash: &Vec<u8>, mem: &mut Vec<u8>, bases: LoadBases) -> (r: Result<ImageHeader, LoadFault>)
    ensures
        fault_of(flash@, old(mem)@.len()) matches Some(f) ==> r == Err::<ImageHeader, LoadFault>(f)
            && final(mem)@ == old(mem)@,
        fault_of(flash@, old(mem)@.len()) is None ==> r == Ok::<ImageHeader, LoadFault>(header_of(flash@))
            && final(mem)@ == loaded(old(mem)@, flash@, bases),
{
    let h = match ImageHeader::parse(flash) {
        Some(h) => h,
        None => return Err(LoadFault::HeaderTruncated),
    };
    let flash_len: usize = flash.len();
    let mem_len: usize = mem.len();
    let got_src = Segment { start: h.got_sym_start, len: h.got_size };
    let got_dst = Segment { start: h.got_start, len: h.got_size };
    if !got_src.fits(flash_len) || !got_dst.fits(mem_len) {
        return Err(LoadFault::OffsetTableOutOfBounds);
    }
    let data_src = Segment { start: h.data_sym_start, len: h.data_size };
    let data_dst = Segment { start: h.data_start, len: h.data_size };
    if !data_src.fits(flash_len) || !data_dst.fits(mem_len) {
        return Err(LoadFault::DataOutOfBounds);
    }
    let bss_dst = Segment { start: h.bss_start, len: h.bss_size };
    if !bss_dst.fits(mem_len) {
        return Err(LoadFault::BssOutOfBounds);
    }
    let records = match relocation_records(flash, &h) {
        Some(v) => v,
        None => return Err(LoadFault::RelocationTableOutOfBounds),
    };
    assert(fault_of(flash@, mem_len as nat) == if targets_fit(records@, mem_len as nat) {
        None
    } else {
        Some(LoadFault::RelocationTargetOutOfBounds)
    });
    let mut k: usize = 0;
    while k < records.len()
        invariant
            k <= records@.len(),
            mem_len == mem@.len(),
            mem@ == old(mem)@,
            h == header_of(flash@),
            records@ == records_of(flash@, h),
            fault_of(flash@, mem_len as nat) == if targets_fit(records@, mem_len as nat) {
                None
            } else {
                Some(LoadFault::RelocationTargetOutOfBounds)
            },
            forall|j: int| 0 <= j < k ==> #[trigger] records@[j].offset as int + 4 <= mem_len,
        decreases records@.len() - k,
    {
        if mem_len < 4 || records[k].offset as usize > mem_len - 4 {
            assert(!(records@[k as int].offset as int + 4 <= mem_len));
            assert(!targets_fit(records@, mem_len as nat));
            return Err(LoadFault::RelocationTargetOutOfBounds);
        }
        k = k + 1;
    }
    assert(targets_fit(records@, mem_len as nat));
    fix_offset_table(mem, flash, &h, bases);
    copy_data_segment(mem, flash, &h);
    zero_bss_segment(mem, &h);
    apply_relocations(mem, &records, bases);
    Ok(h)
}

} // verus!
