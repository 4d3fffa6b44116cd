use bpf_compatible_sys::archive::{read_entries, ArchiveEntry, ByteRange};
use bpf_compatible_sys::error::BtfError;
use bpf_compatible_sys::gzip::decompress;
use bpf_compatible_sys::scan::{
    decode_path, extract, locate, payload, same_bytes, same_text, scan,
};
use bpf_compatible_sys::target::target_path;

const IDENTITY: &str = "ubuntu/20.04/x86_64/5.4.0-40-generic.btf";
const TARGET: &str = "./btfhub-archive/ubuntu/20.04/x86_64/5.4.0-40-generic.btf";

fn append(builder: &mut tar::Builder<Vec<u8>>, name: &[u8], data: &[u8]) {
    let mut header = tar::Header::new_gnu();
    header.set_size(data.len() as u64);
    header.set_mode(0o644);
    header.set_entry_type(tar::EntryType::Regular);
    header.as_old_mut().name[..name.len()].copy_from_slice(name);
    header.set_cksum();
    builder.append(&header, data).unwrap();
}

fn tar_of(entries: &[(&[u8], &[u8])]) -> Vec<u8> {
    let mut builder = tar::Builder::new(Vec::new());
    for (name, data) in entries {
        append(&mut builder, name, data);
    }
    builder.into_inner().unwrap()
}

fn gzip_of(bytes: &[u8]) -> Vec<u8> {
    let mut encoder = flate2::write::GzEncoder::new(Vec::new(), flate2::Compression::default());
    std::io::Write::write_all(&mut encoder, bytes).unwrap();
    encoder.finish().unwrap()
}

fn entry(path: &[u8], offset: u64, size: u64) -> Option<ArchiveEntry> {
    Some(ArchiveEntry { path: path.to_vec(), range: ByteRange { offset, size } })
}

#[test]
fn target_path_joins_root_and_identity() {
    assert_eq!(target_path(IDENTITY), TARGET);
    assert_eq!(target_path("a.btf"), "./btfhub-archive/a.btf");
    assert_eq!(target_path(""), "./btfhub-archive/");
}

#[test]
fn decompress_gives_back_what_was_compressed() {
    let data = b"a BTF archive, or what stands for one".to_vec();
    assert_eq!(decompress(&gzip_of(&data)), Ok(data));
    assert_eq!(decompress(&gzip_of(b"")), Ok(Vec::new()));
}

#[test]
fn decompress_gives_back_large_data() {
    let mut data = Vec::new();
    for i in 0..200_000u32 {
        data.push((i % 251) as u8);
    }
    let raw = gzip_of(&data);
    assert!(raw.len() < data.len());
    assert_eq!(decompress(&raw), Ok(data));
}

#[test]
fn decompress_refuses_what_is_not_gzip() {
    assert_eq!(decompress(b"this is not a gzip stream"), Err(BtfError::DecompressionError));
    assert_eq!(decompress(&[0x1f, 0x8b]), Err(BtfError::DecompressionError));
    assert_eq!(decompress(&tar_of(&[(b"a", b"1")])), Err(BtfError::DecompressionError));
}

#[test]
fn decompress_refuses_empty_input() {
    assert_eq!(decompress(b""), Err(BtfError::DecompressionError));
}

#[test]
fn decompress_refuses_a_truncated_stream() {
    let raw = gzip_of(b"some bytes that will lose their tail when the stream is cut short");
    assert_eq!(decompress(&raw[..raw.len() - 1]), Err(BtfError::DecompressionError));
    assert_eq!(decompress(&raw[..raw.len() - 9]), Err(BtfError::DecompressionError));
    assert_eq!(decompress(&raw[..12]), Err(BtfError::DecompressionError));
}

#[test]
fn decompress_refuses_a_wrong_checksum() {
    let mut raw = gzip_of(b"the checksum of these bytes is about to be wrong");
    let at = raw.len() - 8;
    raw[at] ^= 0x55;
    assert_eq!(decompress(&raw), Err(BtfError::DecompressionError));
}

#[test]
fn decompress_reads_one_member() {
    let mut raw = gzip_of(b"first");
    raw.extend_from_slice(&gzip_of(b"second"));
    assert_eq!(decompress(&raw), Ok(b"first".to_vec()));
}

#[test]
fn read_entries_lists_paths_and_ranges_in_stored_order() {
    let archive = tar_of(&[(b"./btfhub-archive/a.btf", b"AAAA"), (b"b", b""), (b"c/d", b"0123456789")]);
    assert_eq!(
        read_entries(&archive),
        Ok(vec![
            entry(b"./btfhub-archive/a.btf", 512, 4),
            entry(b"b", 1536, 0),
            entry(b"c/d", 2048, 10),
        ])
    );
    assert_eq!(&archive[512..516], b"AAAA");
    assert_eq!(&archive[2048..2058], b"0123456789");
}

#[test]
fn read_entries_of_nothing_is_empty() {
    assert_eq!(read_entries(b""), Ok(Vec::new()));
    assert_eq!(read_entries(&tar_of(&[])), Ok(Vec::new()));
}

#[test]
fn read_entries_keeps_undecodable_paths_as_bytes() {
    let archive = tar_of(&[(b"./btfhub-archive/\xff\xfe.btf", b"x")]);
    assert_eq!(read_entries(&archive), Ok(vec![entry(b"./btfhub-archive/\xff\xfe.btf", 512, 1)]));
}

#[test]
fn read_entries_marks_where_the_reader_failed() {
    let mut archive = tar_of(&[(b"first", b"1"), (b"second", b"2"), (b"third", b"3")]);
    archive[1024 + 150] ^= 0x01;
    assert_eq!(read_entries(&archive), Ok(vec![entry(b"first", 512, 1), None]));
}

#[test]
fn read_entries_marks_a_cut_archive() {
    let archive = tar_of(&[(b"first", b"1"), (b"second", &[7u8; 2000])]);
    let cut = &archive[..1024 + 512 + 100];
    assert_eq!(read_entries(cut), Ok(vec![entry(b"first", 512, 1), entry(b"second", 1536, 2000), None]));
}

#[test]
fn read_entries_lists_extension_members_as_they_are_stored() {
    let long = format!("./btfhub-archive/{}/5.4.0-40-generic.btf", "d".repeat(120));
    let mut builder = tar::Builder::new(Vec::new());
    let mut header = tar::Header::new_gnu();
    header.set_size(3);
    header.set_mode(0o644);
    header.set_entry_type(tar::EntryType::Regular);
    builder.append_data(&mut header, &long, &b"btf"[..]).unwrap();
    let archive = builder.into_inner().unwrap();
    let listing = read_entries(&archive).unwrap();
    assert_eq!(listing.len(), 2);
    assert_eq!(listing[0], entry(b"././@LongLink", 512, long.len() as u64 + 1));
    assert_eq!(&archive[512..512 + long.len()], long.as_bytes());
    let member = listing[1].as_ref().unwrap();
    assert_eq!(member.range, ByteRange { offset: 1536, size: 3 });
    assert!(member.path.len() <= 100);
    assert_eq!(&archive[1536..1539], b"btf");
    assert_eq!(locate(&archive, "no/such/system.btf"), Err(BtfError::NoMatchingArchiveEntry));
}

#[test]
fn read_entries_does_not_interpret_a_sparse_map() {
    let mut header = tar::Header::new_gnu();
    header.set_entry_type(tar::EntryType::GNUSparse);
    header.set_mode(0o644);
    header.set_size(u64::MAX - 1200);
    header.as_gnu_mut().unwrap().isextended[0] = 1;
    header.as_old_mut().name[..6].copy_from_slice(b"sparse");
    header.set_cksum();
    let mut archive = header.as_bytes().to_vec();
    archive.extend_from_slice(&[0x41u8; 512]);
    assert_eq!(archive.len(), 1024);
    assert_eq!(read_entries(&archive), Ok(vec![entry(b"sparse", 512, u64::MAX - 1200), None]));
    assert_eq!(locate(&archive, IDENTITY), Err(BtfError::ArchiveReadError));
}

#[test]
fn decode_path_accepts_utf8_only() {
    assert_eq!(decode_path(TARGET.as_bytes()), Ok(TARGET));
    assert_eq!(decode_path("\u{e9}/\u{4e2d}.btf".as_bytes()), Ok("\u{e9}/\u{4e2d}.btf"));
    assert_eq!(decode_path(b""), Ok(""));
    assert_eq!(decode_path(b"a\xffb"), Err(BtfError::PathDecodeError));
    assert_eq!(decode_path(b"\xc3"), Err(BtfError::PathDecodeError));
    assert_eq!(decode_path(b"\xed\xa0\x80"), Err(BtfError::PathDecodeError));
}

#[test]
fn same_bytes_and_same_text_compare_exactly() {
    assert!(same_bytes(b"", b""));
    assert!(same_bytes(b"abc", b"abc"));
    assert!(!same_bytes(b"abc", b"abd"));
    assert!(!same_bytes(b"abc", b"ab"));
    assert!(!same_bytes(b"ab", b"abc"));
    assert!(same_text(TARGET, TARGET));
    assert!(!same_text("./btfhub-archive/a.btf", "./btfhub-archive//a.btf"));
    assert!(!same_text("./btfhub-archive/a.btf", "btfhub-archive/a.btf"));
    assert!(!same_text("./btfhub-archive/a.btf", "./btfhub-archive/a.btf/"));
    assert!(!same_text("a", "A"));
}

#[test]
fn scan_finds_the_entry_of_the_target() {
    let listing = vec![
        entry(b"./btfhub-archive/other.btf", 512, 10),
        entry(TARGET.as_bytes(), 1536, 20),
        entry(b"./btfhub-archive/last.btf", 2560, 30),
    ];
    assert_eq!(scan(&listing, TARGET), Ok(Some(ByteRange { offset: 1536, size: 20 })));
}

#[test]
fn scan_of_an_empty_listing_finds_nothing() {
    assert_eq!(scan(&[], TARGET), Ok(None));
}

#[test]
fn scan_without_a_match_finds_nothing() {
    let listing = vec![
        entry(b"./btfhub-archive/ubuntu/20.04/x86_64/5.4.0-41-generic.btf", 512, 10),
        entry(b"btfhub-archive/ubuntu/20.04/x86_64/5.4.0-40-generic.btf", 1536, 20),
        entry(b"./btfhub-archive/ubuntu/20.04/x86_64/5.4.0-40-generic.btf/", 2560, 30),
        entry(b"", 3584, 0),
    ];
    assert_eq!(scan(&listing, TARGET), Ok(None));
}

#[test]
fn scan_returns_the_last_of_several_matches() {
    let listing = vec![
        entry(TARGET.as_bytes(), 512, 1),
        entry(b"between", 1536, 2),
        entry(TARGET.as_bytes(), 2560, 3),
    ];
    assert_eq!(scan(&listing, TARGET), Ok(Some(ByteRange { offset: 2560, size: 3 })));
}

#[test]
fn scan_stops_at_an_undecodable_path_before_the_match() {
    let listing = vec![
        entry(b"./btfhub-archive/fine.btf", 512, 1),
        entry(b"./btfhub-archive/\xff.btf", 1536, 2),
        entry(TARGET.as_bytes(), 2560, 3),
    ];
    assert_eq!(scan(&listing, TARGET), Err(BtfError::PathDecodeError));
}

#[test]
fn scan_fails_on_an_undecodable_path_after_the_match() {
    let listing = vec![entry(TARGET.as_bytes(), 512, 1), entry(b"\xc0\x80", 1536, 2)];
    assert_eq!(scan(&listing, TARGET), Err(BtfError::PathDecodeError));
}

#[test]
fn scan_stops_where_the_reader_failed() {
    let listing = vec![entry(b"fine", 512, 1), None, entry(TARGET.as_bytes(), 2560, 3)];
    assert_eq!(scan(&listing, TARGET), Err(BtfError::ArchiveReadError));
    let listing = vec![entry(TARGET.as_bytes(), 512, 1), None];
    assert_eq!(scan(&listing, TARGET), Err(BtfError::ArchiveReadError));
}

#[test]
fn scan_reports_the_first_of_two_faults() {
    let listing = vec![None, entry(b"\xff", 512, 1)];
    assert_eq!(scan(&listing, TARGET), Err(BtfError::ArchiveReadError));
    let listing = vec![entry(b"\xff", 512, 1), None];
    assert_eq!(scan(&listing, TARGET), Err(BtfError::PathDecodeError));
}

#[test]
fn payload_is_the_range_of_the_archive() {
    let archive: Vec<u8> = (0u8..100).collect();
    assert_eq!(payload(&archive, ByteRange { offset: 10, size: 5 }), Ok(vec![10, 11, 12, 13, 14]));
    assert_eq!(payload(&archive, ByteRange { offset: 0, size: 100 }), Ok(archive.clone()));
    assert_eq!(payload(&archive, ByteRange { offset: 100, size: 0 }), Ok(Vec::new()));
    assert_eq!(payload(&archive, ByteRange { offset: 0, size: 0 }), Ok(Vec::new()));
}

#[test]
fn payload_refuses_a_range_outside_the_archive() {
    let archive: Vec<u8> = (0u8..100).collect();
    assert_eq!(payload(&archive, ByteRange { offset: 96, size: 5 }), Err(BtfError::ArchiveReadError));
    assert_eq!(payload(&archive, ByteRange { offset: 101, size: 0 }), Err(BtfError::ArchiveReadError));
    assert_eq!(payload(&archive, ByteRange { offset: 0, size: 101 }), Err(BtfError::ArchiveReadError));
    assert_eq!(
        payload(&archive, ByteRange { offset: u64::MAX, size: 2 }),
        Err(BtfError::ArchiveReadError)
    );
    assert_eq!(
        payload(&archive, ByteRange { offset: 2, size: u64::MAX }),
        Err(BtfError::ArchiveReadError)
    );
}

#[test]
fn extract_copies_the_matching_entry() {
    let archive: Vec<u8> = (0u8..=255).collect();
    let listing = vec![entry(b"other", 0, 16), entry(TARGET.as_bytes(), 32, 4)];
    assert_eq!(extract(&archive, &listing, TARGET), Ok(vec![32, 33, 34, 35]));
}

#[test]
fn extract_without_a_match_is_no_matching_entry() {
    let archive: Vec<u8> = (0u8..=255).collect();
    let listing = vec![entry(b"other", 0, 16)];
    assert_eq!(extract(&archive, &listing, TARGET), Err(BtfError::NoMatchingArchiveEntry));
    assert_eq!(extract(&archive, &[], TARGET), Err(BtfError::NoMatchingArchiveEntry));
}

#[test]
fn extract_refuses_a_match_outside_the_archive() {
    let archive: Vec<u8> = (0u8..=255).collect();
    let listing = vec![entry(TARGET.as_bytes(), 250, 10)];
    assert_eq!(extract(&archive, &listing, TARGET), Err(BtfError::ArchiveReadError));
}

#[test]
fn extract_passes_on_the_failure_of_the_scan() {
    let archive: Vec<u8> = (0u8..=255).collect();
    let listing = vec![entry(b"\xff", 0, 1), entry(TARGET.as_bytes(), 32, 4)];
    assert_eq!(extract(&archive, &listing, TARGET), Err(BtfError::PathDecodeError));
    let listing = vec![None, entry(TARGET.as_bytes(), 32, 4)];
    assert_eq!(extract(&archive, &listing, TARGET), Err(BtfError::ArchiveReadError));
}

#[test]
fn locate_finds_the_only_matching_entry_byte_for_byte() {
    let btf: Vec<u8> = (0..3000u32).map(|i| (i * 7 % 256) as u8).collect();
    let archive = tar_of(&[
        (b"./btfhub-archive/ubuntu/20.04/x86_64/5.4.0-39-generic.btf", b"older kernel"),
        (TARGET.as_bytes(), &btf),
        (b"./btfhub-archive/ubuntu/22.04/x86_64/5.15.0-1-generic.btf", b"other release"),
    ]);
    assert_eq!(locate(&archive, IDENTITY), Ok(btf));
}

#[test]
fn locate_of_a_single_entry_archive() {
    let archive = tar_of(&[(TARGET.as_bytes(), b"\x9f\xeb\x01\x00 minimal btf")]);
    assert_eq!(locate(&archive, IDENTITY), Ok(b"\x9f\xeb\x01\x00 minimal btf".to_vec()));
}

#[test]
fn locate_without_a_matching_entry_fails() {
    let archive = tar_of(&[
        (b"./btfhub-archive/ubuntu/20.04/x86_64/5.4.0-39-generic.btf", b"older kernel"),
        (b"./btfhub-archive/debian/11/x86_64/5.10.0-8-amd64.btf", b"other distribution"),
    ]);
    assert_eq!(locate(&archive, IDENTITY), Err(BtfError::NoMatchingArchiveEntry));
    assert_eq!(locate(&tar_of(&[]), IDENTITY), Err(BtfError::NoMatchingArchiveEntry));
    assert_eq!(locate(b"", IDENTITY), Err(BtfError::NoMatchingArchiveEntry));
}

#[test]
fn locate_compares_paths_as_strings() {
    let archive = tar_of(&[(b"./btfhub-archive//ubuntu/20.04/x86_64/5.4.0-40-generic.btf", b"x")]);
    assert_eq!(locate(&archive, IDENTITY), Err(BtfError::NoMatchingArchiveEntry));
    let archive = tar_of(&[(b"btfhub-archive/ubuntu/20.04/x86_64/5.4.0-40-generic.btf", b"x")]);
    assert_eq!(locate(&archive, IDENTITY), Err(BtfError::NoMatchingArchiveEntry));
}

#[test]
fn locate_stops_at_an_undecodable_path_even_before_a_match() {
    let archive = tar_of(&[
        (b"./btfhub-archive/first.btf", b"1"),
        (b"./btfhub-archive/\xf0\x28\x8c\x28.btf", b"2"),
        (TARGET.as_bytes(), b"the match that is never reached"),
    ]);
    assert_eq!(locate(&archive, IDENTITY), Err(BtfError::PathDecodeError));
}

#[test]
fn locate_fails_on_a_damaged_header() {
    let mut archive = tar_of(&[(b"first", b"1"), (TARGET.as_bytes(), b"2")]);
    archive[1024 + 150] ^= 0x01;
    assert_eq!(locate(&archive, IDENTITY), Err(BtfError::ArchiveReadError));
}

#[test]
fn locate_fails_on_an_archive_cut_inside_the_match() {
    let archive = tar_of(&[(TARGET.as_bytes(), &[9u8; 4000])]);
    assert_eq!(locate(&archive[..512 + 1000], IDENTITY), Err(BtfError::ArchiveReadError));
}

#[test]
fn locate_fails_on_bytes_that_are_no_archive() {
    let noise: Vec<u8> = (0..2048u32).map(|i| (i * 31 % 253 + 1) as u8).collect();
    assert_eq!(locate(&noise, IDENTITY), Err(BtfError::ArchiveReadError));
}
