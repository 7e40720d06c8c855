//! What the load guarantees about each segment of the memory region.

use vstd::prelude::*;
use crate::address::{LoadBases, resolved};
use crate::words::{word_at, put_word, lemma_word_round_trip};
use crate::header::{RelocationRecord, header_of, records_of};
use crate::loader::{
    Segment, fix_got, splice, zeros, copy_data, zero_bss, relocate, loaded, fault_of, targets_fit,
    got_dest, data_dest, bss_dest,
};

verus! {

/// Whether no byte of `a` lies in `b`.
pub open spec fn disjoint(a: Segment, b: Segment) -> bool {
    a.end() <= b.start || b.end() <= a.start
}

/// Whether byte `j` lies outside the word named by each of the first `n` records.
pub open spec fn untouched(records: Seq<RelocationRecord>, n: nat, j: int) -> bool {
    forall|k: int| 0 <= k < n ==> !(#[trigger] records[k].offset <= j < records[k].offset + 4)
}

/// Whether no record names a word that overlaps `seg`.
pub open spec fn avoids(records: Seq<RelocationRecord>, seg: Segment) -> bool {
    forall|k: int|
        0 <= k < records.len() ==> #[trigger] records[k].offset as int + 4 <= seg.start
            || seg.end() <= records[k].offset
}

/// Whether the words named by distinct records do not overlap.
pub open spec fn targets_disjoint(records: Seq<RelocationRecord>) -> bool {
    forall|a: int, b: int|
        0 <= a < records.len() && 0 <= b < records.len() && a != b ==> #[trigger] records[a].offset
            as int + 4 <= records[b].offset || #[trigger] records[b].offset as int + 4
            <= records[a].offset
}

proof fn lemma_put_word_frame(s: Seq<u8>, i: int, w: u32)
    requires
        0 <= i,
        i + 4 <= s.len(),
    ensures
        put_word(s, i, w).len() == s.len(),
        forall|j: int| 0 <= j < s.len() && !(i <= j < i + 4) ==> #[trigger] put_word(s, i, w)[j] == s[j],
{
}

proof fn lemma_splice(s: Seq<u8>, at: int, src: Seq<u8>)
    requires
        0 <= at,
        at + src.len() <= s.len(),
    ensures
        splice(s, at, src).len() == s.len(),
        forall|j: int| 0 <= j < s.len() && !(at <= j < at + src.len()) ==> #[trigger] splice(s, at, src)[j] == s[j],
        forall|j: int| at <= j < at + src.len() ==> #[trigger] splice(s, at, src)[j] == src[j - at],
{
}

proof fn lemma_relocate_frame(mem: Seq<u8>, records: Seq<RelocationRecord>, bases: LoadBases, n: nat)
    requires
        n <= records.len(),
        targets_fit(records, mem.len()),
    ensures
        relocate(mem, records, bases, n).len() == mem.len(),
        forall|j: int| 0 <= j < mem.len() && untouched(records, n, j)
            ==> #[trigger] relocate(mem, records, bases, n)[j] == mem[j],
    decreases n,
{
    if n > 0 {
        let m = (n - 1) as nat;
        lemma_relocate_frame(mem, records, bases, m);
        let prev = relocate(mem, records, bases, m);
        let at = records[m as int].offset as int;
        lemma_put_word_frame(prev, at, resolved(word_at(prev, at), bases));
        assert forall|j: int| 0 <= j < mem.len() && untouched(records, n, j)
            implies #[trigger] relocate(mem, records, bases, n)[j] == mem[j] by {
            assert(!(records[m as int].offset <= j < records[m as int].offset + 4));
            assert(untouched(records, m, j));
        }
    }
}

proof fn lemma_fix_got(mem: Seq<u8>, flash: Seq<u8>, h: crate::header::ImageHeader, bases: LoadBases, n: nat)
    requires
        got_dest(h).fits_spec(mem.len()),
        4 * n <= h.got_size,
    ensures
        fix_got(mem, flash, h, bases, n).len() == mem.len(),
        forall|k: int| 0 <= k < n ==> #[trigger] word_at(fix_got(mem, flash, h, bases, n), h.got_start + 4 * k)
            == resolved(word_at(flash, h.got_sym_start + 4 * k), bases),
    decreases n,
{
    if n > 0 {
        let m = (n - 1) as nat;
        lemma_fix_got(mem, flash, h, bases, m);
        let prev = fix_got(mem, flash, h, bases, m);
        let at = h.got_start + 4 * m;
        let w = resolved(word_at(flash, h.got_sym_start + 4 * m), bases);
        lemma_put_word_frame(prev, at, w);
        lemma_word_round_trip(prev, at, w);
        assert forall|k: int| 0 <= k < n implies #[trigger] word_at(fix_got(mem, flash, h, bases, n), h.got_start + 4 * k)
            == resolved(word_at(flash, h.got_sym_start + 4 * k), bases) by {
            if k < m {
                let cur = fix_got(mem, flash, h, bases, n);
                let p = h.got_start + 4 * k;
                assert(cur[p] == prev[p] && cur[p + 1] == prev[p + 1] && cur[p + 2] == prev[p + 2]
                    && cur[p + 3] == prev[p + 3]);
                assert(word_at(prev, p) == resolved(word_at(flash, h.got_sym_start + 4 * k), bases));
            }
        }
    }
}

/// After a relocation pass over records that name disjoint words, each named
/// word holds the absolute address decoded from its value before the pass,
/// and every byte that no record names is as it was.
pub proof fn lemma_relocation_pass(mem: Seq<u8>, records: Seq<RelocationRecord>, bases: LoadBases)
    requires
        targets_fit(records, mem.len()),
        targets_disjoint(records),
    ensures
        relocate(mem, records, bases, records.len()).len() == mem.len(),
        forall|k: int| 0 <= k < records.len() ==> #[trigger] word_at(
            relocate(mem, records, bases, records.len()),
            records[k].offset as int,
        ) == resolved(word_at(mem, records[k].offset as int), bases),
        forall|j: int| 0 <= j < mem.len() && untouched(records, records.len(), j)
            ==> #[trigger] relocate(mem, records, bases, records.len())[j] == mem[j],
{
    lemma_relocation_prefix(mem, records, bases, records.len());
}

proof fn lemma_relocation_prefix(mem: Seq<u8>, records: Seq<RelocationRecord>, bases: LoadBases, n: nat)
    requires
        n <= records.len(),
        targets_fit(records, mem.len()),
        targets_disjoint(records),
    ensures
        relocate(mem, records, bases, n).len() == mem.len(),
        forall|k: int| 0 <= k < n ==> #[trigger] word_at(relocate(mem, records, bases, n), records[k].offset as int)
            == resolved(word_at(mem, records[k].offset as int), bases),
        forall|j: int| 0 <= j < mem.len() && untouched(records, n, j)
            ==> #[trigger] relocate(mem, records, bases, n)[j] == mem[j],
    decreases n,
{
    lemma_relocate_frame(mem, records, bases, n);
    if n > 0 {
        let m = (n - 1) as nat;
        lemma_relocation_prefix(mem, records, bases, m);
        let prev = relocate(mem, records, bases, m);
        let cur = relocate(mem, records, bases, n);
        let at = records[m as int].offset as int;
        let w = resolved(word_at(prev, at), bases);
        lemma_put_word_frame(prev, at, w);
        lemma_word_round_trip(prev, at, w);
        assert(cur == put_word(prev, at, w));
        assert forall|d: int| 0 <= d < 4 implies #[trigger] prev[at + d] == mem[at + d] by {
            assert forall|k: int| 0 <= k < m implies !(#[trigger] records[k].offset <= at + d < records[k].offset + 4) by {
                assert(records[k].offset as int + 4 <= records[m as int].offset || records[m as int].offset as int + 4 <= records[k].offset);
            }
            assert(untouched(records, m, at + d));
        }
        assert(prev[at] == mem[at] && prev[at + 1] == mem[at + 1] && prev[at + 2] == mem[at + 2] && prev[at + 3] == mem[at + 3]);
        assert(word_at(prev, at) == word_at(mem, at));
        assert forall|k: int| 0 <= k < n implies #[trigger] word_at(cur, records[k].offset as int)
            == resolved(word_at(mem, records[k].offset as int), bases) by {
            if k < m {
                let p = records[k].offset as int;
                assert(records[k].offset as int + 4 <= records[m as int].offset || records[m as int].offset as int + 4 <= records[k].offset);
                assert(cur[p] == prev[p] && cur[p + 1] == prev[p + 1] && cur[p + 2] == prev[p + 2]
                    && cur[p + 3] == prev[p + 3]);
                assert(word_at(cur, p) == word_at(prev, p));
            } else {
                assert(word_at(cur, at) == w);
            }
        }
    }
}

proof fn lemma_stages(mem: Seq<u8>, flash: Seq<u8>, bases: LoadBases)
    requires
        fault_of(flash, mem.len()) is None,
    ensures
        ({
            let h = header_of(flash);
            let g = fix_got(mem, flash, h, bases, (h.got_size / 4) as nat);
            let c = copy_data(g, flash, h);
            let z = zero_bss(c, h);
            let recs = records_of(flash, h);
            &&& g.len() == mem.len()
            &&& c.len() == mem.len()
            &&& z.len() == mem.len()
            &&& loaded(mem, flash, bases) == relocate(z, recs, bases, recs.len())
            &&& loaded(mem, flash, bases).len() == mem.len()
            &&& forall|k: int| 0 <= k < h.got_size / 4 ==> #[trigger] word_at(g, h.got_start + 4 * k)
                == resolved(word_at(flash, h.got_sym_start + 4 * k), bases)
            &&& forall|j: int| 0 <= j < mem.len() && !(h.data_start <= j < data_dest(h).end())
                ==> #[trigger] c[j] == g[j]
            &&& forall|j: int| h.data_start <= j < data_dest(h).end()
                ==> #[trigger] c[j] == flash[h.data_sym_start + (j - h.data_start)]
            &&& forall|j: int| 0 <= j < mem.len() && !(h.bss_start <= j < bss_dest(h).end())
                ==> #[trigger] z[j] == c[j]
            &&& forall|j: int| h.bss_start <= j < bss_dest(h).end() ==> #[trigger] z[j] == 0u8
            &&& forall|j: int| 0 <= j < mem.len() && untouched(recs, recs.len(), j)
                ==> #[trigger] loaded(mem, flash, bases)[j] == z[j]
        }),
{
    let h = header_of(flash);
    let n = (h.got_size / 4) as nat;
    assert(4 * n <= h.got_size) by (nonlinear_arith)
        requires n == h.got_size / 4;
    lemma_fix_got(mem, flash, h, bases, n);
    let g = fix_got(mem, flash, h, bases, n);
    let src = flash.subrange(h.data_sym_start as int, data_source_end(h));
    lemma_splice(g, h.data_start as int, src);
    let c = copy_data(g, flash, h);
    lemma_splice(c, h.bss_start as int, zeros(h.bss_size as nat));
    let z = zero_bss(c, h);
    let recs = records_of(flash, h);
    lemma_relocate_frame(z, recs, bases, recs.len());
}

spec fn data_source_end(h: crate::header::ImageHeader) -> int {
    crate::loader::data_source(h).end()
}

/// After a load, each offset-table entry holds the absolute address decoded
/// from the matching flash entry, under either tag, provided the data and BSS
/// segments and the relocation targets keep clear of the table.
pub proof fn lemma_offset_table_loaded(mem: Seq<u8>, flash: Seq<u8>, bases: LoadBases)
    requires
        fault_of(flash, mem.len()) is None,
        header_of(flash).got_size % 4 == 0,
        header_of(flash).data_size % 4 == 0,
        header_of(flash).bss_size % 4 == 0,
        disjoint(got_dest(header_of(flash)), data_dest(header_of(flash))),
        disjoint(got_dest(header_of(flash)), bss_dest(header_of(flash))),
        avoids(records_of(flash, header_of(flash)), got_dest(header_of(flash))),
    ensures
        forall|k: int| 0 <= k < header_of(flash).got_size / 4 ==> #[trigger] word_at(
            loaded(mem, flash, bases),
            header_of(flash).got_start + 4 * k,
        ) == resolved(word_at(flash, header_of(flash).got_sym_start + 4 * k), bases),
{
    let h = header_of(flash);
    lemma_stages(mem, flash, bases);
    let g = fix_got(mem, flash, h, bases, (h.got_size / 4) as nat);
    let c = copy_data(g, flash, h);
    let z = zero_bss(c, h);
    let recs = records_of(flash, h);
    let out = loaded(mem, flash, bases);
    assert forall|k: int| 0 <= k < h.got_size / 4 implies #[trigger] word_at(out, h.got_start + 4 * k)
        == resolved(word_at(flash, h.got_sym_start + 4 * k), bases) by {
        let p = h.got_start + 4 * k;
        assert(4 * k + 4 <= h.got_size) by (nonlinear_arith)
            requires 0 <= k < h.got_size / 4;
        assert forall|d: int| 0 <= d < 4 implies #[trigger] out[p + d] == g[p + d] by {
            assert forall|r: int| 0 <= r < recs.len() implies !(#[trigger] recs[r].offset <= p + d < recs[r].offset + 4) by {
                assert(recs[r].offset as int + 4 <= h.got_start || got_dest(h).end() <= recs[r].offset);
            }
            assert(untouched(recs, recs.len(), p + d));
            assert(out[p + d] == z[p + d]);
            assert(z[p + d] == c[p + d]);
        }
        assert(out[p] == g[p] && out[p + 1] == g[p + 1] && out[p + 2] == g[p + 2] && out[p + 3] == g[p + 3]);
        assert(word_at(out, p) == word_at(g, p));
    }
}

/// After a load, the data segment in memory is byte for byte the data
/// segment in flash, provided the BSS and the relocation targets keep clear
/// of it.
pub proof fn lemma_data_loaded(mem: Seq<u8>, flash: Seq<u8>, bases: LoadBases)
    requires
        fault_of(flash, mem.len()) is None,
        disjoint(data_dest(header_of(flash)), bss_dest(header_of(flash))),
        avoids(records_of(flash, header_of(flash)), data_dest(header_of(flash))),
    ensures
        forall|i: int| 0 <= i < header_of(flash).data_size ==> #[trigger] loaded(mem, flash, bases)[header_of(flash).data_start + i]
            == flash[header_of(flash).data_sym_start + i],
{
    let h = header_of(flash);
    lemma_stages(mem, flash, bases);
    let g = fix_got(mem, flash, h, bases, (h.got_size / 4) as nat);
    let c = copy_data(g, flash, h);
    let z = zero_bss(c, h);
    let recs = records_of(flash, h);
    let out = loaded(mem, flash, bases);
    assert forall|i: int| 0 <= i < h.data_size implies #[trigger] out[h.data_start + i] == flash[h.data_sym_start + i] by {
        let p = h.data_start + i;
        assert forall|r: int| 0 <= r < recs.len() implies !(#[trigger] recs[r].offset <= p < recs[r].offset + 4) by {
            assert(recs[r].offset as int + 4 <= h.data_start || data_dest(h).end() <= recs[r].offset);
        }
        assert(untouched(recs, recs.len(), p));
        assert(out[p] == z[p]);
        assert(z[p] == c[p]);
        assert(c[p] == flash[h.data_sym_start + (p - h.data_start)]);
    }
}

/// After a load, every byte of the BSS is zero (an empty BSS asks nothing),
/// provided the relocation targets keep clear of it.
pub proof fn lemma_bss_loaded(mem: Seq<u8>, flash: Seq<u8>, bases: LoadBases)
    requires
        fault_of(flash, mem.len()) is None,
        avoids(records_of(flash, header_of(flash)), bss_dest(header_of(flash))),
    ensures
        forall|i: int| 0 <= i < header_of(flash).bss_size ==> #[trigger] loaded(mem, flash, bases)[header_of(flash).bss_start + i] == 0u8,
{
    let h = header_of(flash);
    lemma_stages(mem, flash, bases);
    let g = fix_got(mem, flash, h, bases, (h.got_size / 4) as nat);
    let c = copy_data(g, flash, h);
    let z = zero_bss(c, h);
    let recs = records_of(flash, h);
    let out = loaded(mem, flash, bases);
    assert forall|i: int| 0 <= i < h.bss_size implies #[trigger] out[h.bss_start + i] == 0u8 by {
        let p = h.bss_start + i;
        assert forall|r: int| 0 <= r < recs.len() implies !(#[trigger] recs[r].offset <= p < recs[r].offset + 4) by {
            assert(recs[r].offset as int + 4 <= h.bss_start || bss_dest(h).end() <= recs[r].offset);
        }
        assert(untouched(recs, recs.len(), p));
        assert(out[p] == z[p]);
    }
}

} // verus!
