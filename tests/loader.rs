use tock_startup::address::{resolve, LoadBases, Placement};
use tock_startup::header::{relocation_records, ImageHeader, RelocationRecord};
use tock_startup::loader::{bootstrap, LoadFault, Segment};
use tock_startup::words::{read_word, write_word};

fn put(v: &mut Vec<u8>, at: usize, w: u32) {
    v[at..at + 4].copy_from_slice(&w.to_le_bytes());
}

fn get(v: &[u8], at: usize) -> u32 {
    u32::from_le_bytes([v[at], v[at + 1], v[at + 2], v[at + 3]])
}

/// Header fields in order, followed by whatever body bytes the test needs.
fn image(fields: [u32; 10], body_len: usize) -> Vec<u8> {
    let mut v = vec![0u8; 40 + body_len];
    for (i, f) in fields.iter().enumerate() {
        put(&mut v, 4 * i, *f);
    }
    v
}

const BASES: LoadBases = LoadBases { flash_base: 0x2000, mem_base: 0x1000 };

#[test]
fn offset_table_two_entries_scenario() {
    // GOT in flash at 40, two entries; empty data and bss; reloc table at 48 with no records.
    let mut flash = image([40, 0, 8, 48, 16, 0, 16, 0, 48, 0x300], 12);
    put(&mut flash, 40, 0x10);
    put(&mut flash, 44, 0x20 | 0x8000_0000);
    put(&mut flash, 48, 0);
    let mut mem = vec![0u8; 32];
    let h = bootstrap(&flash, &mut mem, BASES).unwrap();
    assert_eq!(h.got_size, 8);
    assert_eq!(get(&mem, 0), 0x1010);
    assert_eq!(get(&mem, 4), 0x2020);
}

/// An image with a 2-entry GOT, 6 data bytes, 5 bss bytes and two relocation records.
fn full_image() -> Vec<u8> {
    // flash layout: header 0..40, got 40..48, data 48..54, reloc 56..84
    let mut flash = image([40, 0, 8, 48, 8, 6, 14, 5, 56, 0x400], 44);
    put(&mut flash, 40, 0x4);
    put(&mut flash, 44, 0x8000_0100);
    flash[48..54].copy_from_slice(&[1, 2, 3, 4, 5, 6]);
    put(&mut flash, 56, 24);
    // record 0 targets mem 20, record 1 targets mem 28
    put(&mut flash, 60, 20);
    put(&mut flash, 64, 0x17);
    put(&mut flash, 68, 0);
    put(&mut flash, 72, 28);
    put(&mut flash, 76, 0x17);
    put(&mut flash, 80, 0);
    flash
}

#[test]
fn full_load_fixes_every_segment() {
    let flash = full_image();
    let mut mem = vec![0xAAu8; 40];
    put(&mut mem, 20, 0x30);
    put(&mut mem, 28, 0x8000_0040);
    bootstrap(&flash, &mut mem, BASES).unwrap();
    assert_eq!(get(&mem, 0), 0x1004);
    assert_eq!(get(&mem, 4), 0x2100);
    assert_eq!(&mem[8..14], &[1, 2, 3, 4, 5, 6]);
    assert_eq!(&mem[14..19], &[0, 0, 0, 0, 0]);
    assert_eq!(mem[19], 0xAA);
    assert_eq!(get(&mem, 20), 0x1030);
    assert_eq!(&mem[24..28], &[0xAA; 4]);
    assert_eq!(get(&mem, 28), 0x2040);
    assert_eq!(&mem[32..40], &[0xAA; 8]);
}

#[test]
fn empty_bss_and_no_records_leave_rest_alone() {
    let mut flash = image([40, 0, 0, 40, 0, 0, 0, 0, 40, 0], 4);
    put(&mut flash, 40, 0);
    let mut mem = vec![7u8; 16];
    bootstrap(&flash, &mut mem, BASES).unwrap();
    assert_eq!(mem, vec![7u8; 16]);
}

#[test]
fn large_data_segment_copied_exactly() {
    let n: usize = 4096 + 3;
    let mut flash = image([40, 0, 0, 40, 0, n as u32, 0, 0, 40 + n as u32, 0], n + 4);
    for i in 0..n {
        flash[40 + i] = (i * 7 % 251) as u8;
    }
    put(&mut flash, 40 + n, 0);
    let mut mem = vec![0u8; n + 8];
    bootstrap(&flash, &mut mem, BASES).unwrap();
    assert_eq!(&mem[..n], &flash[40..40 + n]);
    assert_eq!(&mem[n..], &[0u8; 8]);
}

#[test]
fn fault_header_truncated() {
    let flash = vec![0u8; 39];
    let mut mem = vec![1u8; 8];
    assert_eq!(bootstrap(&flash, &mut mem, BASES), Err(LoadFault::HeaderTruncated));
    assert_eq!(mem, vec![1u8; 8]);
}

#[test]
fn fault_offset_table_out_of_bounds() {
    let flash = image([40, 0, 8, 40, 0, 0, 0, 0, 40, 0], 4);
    let mut mem = vec![1u8; 16];
    assert_eq!(bootstrap(&flash, &mut mem, BASES), Err(LoadFault::OffsetTableOutOfBounds));
    let flash = image([40, 12, 8, 40, 0, 0, 0, 0, 40, 0], 12);
    assert_eq!(bootstrap(&flash, &mut mem, BASES), Err(LoadFault::OffsetTableOutOfBounds));
    assert_eq!(mem, vec![1u8; 16]);
}

#[test]
fn fault_data_out_of_bounds() {
    let flash = image([40, 0, 0, 40, 0, 20, 0, 0, 40, 0], 8);
    let mut mem = vec![1u8; 32];
    assert_eq!(bootstrap(&flash, &mut mem, BASES), Err(LoadFault::DataOutOfBounds));
    assert_eq!(mem, vec![1u8; 32]);
}

#[test]
fn fault_bss_out_of_bounds() {
    let flash = image([40, 0, 0, 40, 0, 0, 30, 3, 40, 0], 4);
    let mut mem = vec![1u8; 32];
    assert_eq!(bootstrap(&flash, &mut mem, BASES), Err(LoadFault::BssOutOfBounds));
    assert_eq!(mem, vec![1u8; 32]);
}

#[test]
fn fault_relocation_table_out_of_bounds() {
    let mut flash = image([40, 0, 0, 40, 0, 0, 0, 0, 40, 0], 8);
    put(&mut flash, 40, 24);
    let mut mem = vec![1u8; 32];
    assert_eq!(bootstrap(&flash, &mut mem, BASES), Err(LoadFault::RelocationTableOutOfBounds));
    let flash = image([40, 0, 0, 40, 0, 0, 0, 0, 46, 0], 8);
    assert_eq!(bootstrap(&flash, &mut mem, BASES), Err(LoadFault::RelocationTableOutOfBounds));
    assert_eq!(mem, vec![1u8; 32]);
}

#[test]
fn fault_relocation_target_out_of_bounds() {
    let mut flash = image([40, 0, 0, 40, 0, 0, 0, 0, 40, 0], 16);
    put(&mut flash, 40, 12);
    put(&mut flash, 44, 29);
    let mut mem = vec![1u8; 32];
    assert_eq!(bootstrap(&flash, &mut mem, BASES), Err(LoadFault::RelocationTargetOutOfBounds));
    assert_eq!(mem, vec![1u8; 32]);
}

#[test]
fn resolve_by_tag() {
    assert_eq!(resolve(0x10, BASES), 0x1010);
    assert_eq!(resolve(0x8000_0020, BASES), 0x2020);
    assert_eq!(resolve(0x7fff_ffff, LoadBases { flash_base: 0, mem_base: 0x8000_0001 }), 0);
    assert_eq!(resolve(0xffff_ffff, LoadBases { flash_base: 2, mem_base: 0 }), 0x8000_0001);
}

#[test]
fn decode_splits_tag_from_offset() {
    assert_eq!(Placement::decode(0x1234), Placement::MemoryRelative(0x1234));
    assert_eq!(Placement::decode(0x8000_1234), Placement::FlashRelative(0x1234));
    assert_eq!(Placement::FlashRelative(4).absolute(BASES), 0x2004);
}

#[test]
fn words_are_little_endian() {
    let mut v = vec![0u8; 6];
    write_word(&mut v, 1, 0x0403_0201);
    assert_eq!(v, vec![0, 1, 2, 3, 4, 0]);
    assert_eq!(read_word(&v, 1), 0x0403_0201);
    assert_eq!(read_word(&v, 2), 0x0004_0302);
}

#[test]
fn header_and_records_parse() {
    let flash = full_image();
    let h = ImageHeader::parse(&flash).unwrap();
    assert_eq!(h.data_size, 6);
    assert_eq!(h.stack_size, 0x400);
    let recs = relocation_records(&flash, &h).unwrap();
    assert_eq!(recs, vec![
        RelocationRecord { offset: 20, info: 0x17, addend: 0 },
        RelocationRecord { offset: 28, info: 0x17, addend: 0 },
    ]);
    assert_eq!(ImageHeader::parse(&vec![0u8; 39]), None);
}

#[test]
fn segment_fits() {
    assert!(Segment { start: 4, len: 4 }.fits(8));
    assert!(!Segment { start: 5, len: 4 }.fits(8));
    assert!(!Segment { start: 9, len: 0 }.fits(8));
    assert!(Segment { start: 8, len: 0 }.fits(8));
}
