use zz::layout::{read_le16, read_le24, read_le64, sz_scan, zip_scan};

const SZ_IDENT: [u8; 10] = [255, 6, 0, 0, 115, 78, 97, 80, 112, 89];

/// One stored entry `a` without content, with `before` bytes in front of the
/// archive. The central header holds the given fields and extra field; the
/// end record counts `count` entries.
fn zip_with(before: usize, packed: u32, size: u32, offset: u32, extra: &[u8], count: u16) -> Vec<u8> {
    let mut bytes: Vec<u8> = vec![0x2a; before];
    bytes.extend_from_slice(&[0x50, 0x4b, 0x03, 0x04, 20, 0, 0, 0, 0, 0, 0, 0, 0, 0]);
    bytes.extend_from_slice(&[0; 12]);
    bytes.extend_from_slice(&[1, 0, 0, 0]);
    bytes.push(b'a');
    bytes.extend_from_slice(&[0x50, 0x4b, 0x01, 0x02, 20, 0, 20, 0, 0, 0, 0, 0, 0, 0, 0, 0]);
    bytes.extend_from_slice(&[0; 4]);
    bytes.extend_from_slice(&packed.to_le_bytes());
    bytes.extend_from_slice(&size.to_le_bytes());
    bytes.extend_from_slice(&[1, 0]);
    bytes.extend_from_slice(&(extra.len() as u16).to_le_bytes());
    bytes.extend_from_slice(&[0; 10]);
    bytes.extend_from_slice(&offset.to_le_bytes());
    bytes.push(b'a');
    bytes.extend_from_slice(extra);
    bytes.extend_from_slice(&[0x50, 0x4b, 0x05, 0x06, 0, 0, 0, 0]);
    bytes.extend_from_slice(&count.to_le_bytes());
    bytes.extend_from_slice(&count.to_le_bytes());
    bytes.extend_from_slice(&(47 + extra.len() as u32).to_le_bytes());
    bytes.extend_from_slice(&31u32.to_le_bytes());
    bytes.extend_from_slice(&[0, 0]);
    bytes
}

/// The same, with the offset declared in a Zip64 block.
fn zip_with_offset(before: usize, offset: u64) -> Vec<u8> {
    let mut extra = vec![1, 0, 8, 0];
    extra.extend_from_slice(&offset.to_le_bytes());
    zip_with(before, 0, 0, 0xffff_ffff, &extra, 1)
}

/// The same archive with a Zip64 end record and its locator before the end
/// record.
fn zip64_with_offset(before: usize, offset: u64) -> Vec<u8> {
    let plain = zip_with_offset(0, offset);
    let directory = plain.len() - 22;
    let mut bytes: Vec<u8> = vec![0x2a; before];
    bytes.extend_from_slice(&plain[..directory]);
    bytes.extend_from_slice(&[0x50, 0x4b, 0x06, 0x06]);
    bytes.extend_from_slice(&44u64.to_le_bytes());
    bytes.extend_from_slice(&[45, 0, 45, 0, 0, 0, 0, 0, 0, 0, 0, 0]);
    bytes.extend_from_slice(&1u64.to_le_bytes());
    bytes.extend_from_slice(&1u64.to_le_bytes());
    bytes.extend_from_slice(&((directory - 31) as u64).to_le_bytes());
    bytes.extend_from_slice(&31u64.to_le_bytes());
    bytes.extend_from_slice(&[0x50, 0x4b, 0x06, 0x07, 0, 0, 0, 0]);
    bytes.extend_from_slice(&(directory as u64).to_le_bytes());
    bytes.extend_from_slice(&1u32.to_le_bytes());
    bytes.extend_from_slice(&plain[directory..]);
    bytes
}

/// A block of an extra field.
fn block(kind: u16, body: &[u8]) -> Vec<u8> {
    let mut bytes = kind.to_le_bytes().to_vec();
    bytes.extend_from_slice(&(body.len() as u16).to_le_bytes());
    bytes.extend_from_slice(body);
    bytes
}

#[test]
fn numbers_are_read_low_byte_first() {
    let bytes = [0x01, 0x02, 0x03, 0x04, 0x05, 0x06, 0x07, 0x08, 0x09];
    assert_eq!(read_le16(&bytes, 0), 0x0201);
    assert_eq!(read_le16(&bytes, 7), 0x0908);
    assert_eq!(read_le24(&bytes, 1), 0x040302);
    assert_eq!(read_le64(&bytes, 0), 0x0807060504030201);
    assert_eq!(read_le64(&bytes, 1), 0x0908070605040302);
    assert_eq!(read_le64(&[0xff; 8], 0), u64::MAX);
    assert_eq!(read_le24(&[0xff; 3], 0), 0xff_ffff);
}

#[test]
fn sz_scan_accepts_streams_without_short_data_chunks() {
    assert!(sz_scan(&[]));
    assert!(sz_scan(&SZ_IDENT));
    assert!(sz_scan(&[1, 0, 0]));
    assert!(sz_scan(&[1, 4, 0, 0]));
    assert!(sz_scan(&[0, 4, 0, 0, 1, 2, 3, 4]));
    assert!(sz_scan(&[0xfe, 0, 0, 0]));
    assert!(sz_scan(&[0x80, 1, 0, 0, 9, 1, 3]));
    assert!(sz_scan(&[0xff, 0xff, 0xff, 0xff, 1, 0, 0, 0]));
}

#[test]
fn sz_scan_refuses_a_short_data_chunk() {
    assert!(!sz_scan(&[1, 0, 0, 0]));
    assert!(!sz_scan(&[0, 3, 0, 0]));
    assert!(!sz_scan(&[1, 3, 0, 0, 1, 2, 3, 4, 5, 6]));
    let mut stream = SZ_IDENT.to_vec();
    stream.extend_from_slice(&[0xfe, 2, 0, 0, 7, 7, 0, 1, 0, 0]);
    assert!(!sz_scan(&stream));
}

#[test]
fn sz_scan_follows_the_declared_lengths() {
    assert!(sz_scan(&[0xfe, 4, 0, 0, 1, 0, 0, 0]));
    assert!(!sz_scan(&[0xfe, 0, 0, 0, 1, 0, 0, 0]));
    assert!(sz_scan(&[0xfe, 5, 0, 0, 1, 0, 0, 0]));
}

#[test]
fn zip_scan_accepts_what_holds_no_large_offset() {
    assert!(zip_scan(&[]));
    assert!(zip_scan(b"no archive at all"));
    assert!(zip_scan(&[0xff; 64]));
    assert!(zip_scan(&zip_with(0, 0, 0, 0, &[], 1)));
    assert!(zip_scan(&zip_with_offset(0, 0)));
    assert!(zip_scan(&zip_with_offset(1, 0)));
    assert!(zip_scan(&zip_with_offset(5, 0xffff_ffff)));
}

#[test]
fn zip_scan_refuses_an_offset_that_passes_64_bits() {
    assert!(!zip_scan(&zip_with_offset(1, u64::MAX)));
    assert!(!zip_scan(&zip_with_offset(300, u64::MAX)));
    assert!(zip_scan(&zip_with_offset(3, u64::MAX - 3)));
    assert!(!zip_scan(&zip_with_offset(3, u64::MAX - 2)));
}

#[test]
fn zip_scan_counts_the_bytes_before_the_archive_only() {
    assert!(zip_scan(&zip_with_offset(0, u64::MAX)));
    let long_name_free = zip_with_offset(0, u64::MAX - 1);
    assert!(zip_scan(&long_name_free));
}

#[test]
fn zip_scan_reads_the_offset_from_a_zip64_block_only() {
    let run = [0xffu8; 8];
    assert!(zip_scan(&zip_with(1, 0, 0, 0, &block(0x9999, &run), 1)));
    assert!(zip_scan(&zip_with(1, 0, 0, 0xffff_ffff, &block(0x9999, &run), 1)));
    assert!(zip_scan(&zip_with(1, 0, 0, 0, &block(1, &run), 1)));
    assert!(!zip_scan(&zip_with(1, 0, 0, 0xffff_ffff, &block(1, &run), 1)));
    let mut behind = block(0x9999, &[7, 7, 7]);
    behind.extend_from_slice(&block(1, &run));
    assert!(!zip_scan(&zip_with(1, 0, 0, 0xffff_ffff, &behind, 1)));
}

#[test]
fn zip_scan_takes_the_fields_of_a_zip64_block_in_their_order() {
    let mut all = vec![0xffu8; 8];
    all.extend_from_slice(&[0; 16]);
    assert!(zip_scan(&zip_with(1, 0xffff_ffff, 0xffff_ffff, 0xffff_ffff, &block(1, &all), 1)));
    let mut last = vec![0u8; 16];
    last.extend_from_slice(&[0xff; 8]);
    assert!(!zip_scan(&zip_with(1, 0xffff_ffff, 0xffff_ffff, 0xffff_ffff, &block(1, &last), 1)));
    assert!(zip_scan(&zip_with(1, 0xffff_ffff, 0, 0xffff_ffff, &block(1, &last), 1)));
    let mut second = vec![0u8; 8];
    second.extend_from_slice(&[0xff; 8]);
    assert!(!zip_scan(&zip_with(1, 0xffff_ffff, 0, 0xffff_ffff, &block(1, &second), 1)));
    assert!(!zip_scan(&zip_with(1, 0, 0xffff_ffff, 0xffff_ffff, &block(1, &second), 1)));
}

#[test]
fn zip_scan_stops_where_a_block_is_cut_short() {
    assert!(zip_scan(&zip_with(1, 0, 0, 0xffff_ffff, &[1, 0, 8, 0, 0xff, 0xff, 0xff], 1)));
    assert!(zip_scan(&zip_with(1, 0, 0, 0xffff_ffff, &[1, 0, 8], 1)));
}

#[test]
fn zip_scan_reads_as_many_entries_as_the_end_record_counts() {
    assert!(zip_scan(&zip_with(1, 0, 0, 0xffff_ffff, &block(1, &[0xff; 8]), 0)));
    assert!(!zip_scan(&zip_with(1, 0, 0, 0xffff_ffff, &block(1, &[0xff; 8]), 2)));
}

#[test]
fn zip_scan_looks_at_the_central_directory_only() {
    let mut bytes = zip_with(1, 0, 0, 0xffff_ffff, &block(1, &[0xff; 8]), 1);
    bytes.extend_from_slice(&zip_with(0, 0, 0, 0, &[], 1));
    assert!(zip_scan(&bytes));
}

#[test]
fn zip_scan_follows_a_zip64_end_record() {
    assert!(zip_scan(&zip64_with_offset(0, 0)));
    assert!(zip_scan(&zip64_with_offset(7, 0)));
    assert!(zip_scan(&zip64_with_offset(0, u64::MAX)));
    assert!(zip_scan(&zip64_with_offset(7, u64::MAX - 7)));
    assert!(!zip_scan(&zip64_with_offset(7, u64::MAX - 6)));
    assert!(!zip_scan(&zip64_with_offset(1, u64::MAX)));
}
