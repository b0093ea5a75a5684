use pb_std_rules::archive::{parse_tar, reconstruct_tar, EntryKind, TarEntry};
use pb_std_rules::dest::{Node, WriteDirectory};
use pb_std_rules::errors::TarError;

/// Builds one 512-byte ustar header block by hand, with a valid checksum
/// unless the caller corrupts it afterwards.
fn make_header(name: &[u8], size: u64, typeflag: u8) -> [u8; 512] {
    let mut h = [0u8; 512];
    h[..name.len()].copy_from_slice(name);
    let s = format!("{:011o}", size);
    h[124..135].copy_from_slice(s.as_bytes());
    h[135] = 0;
    h[156] = typeflag;
    h[257..262].copy_from_slice(b"ustar");
    for i in 148..156 {
        h[i] = b' ';
    }
    let sum: u32 = h.iter().map(|&b| b as u32).sum();
    let cs = format!("{:06o}", sum);
    h[148..154].copy_from_slice(cs.as_bytes());
    h[154] = 0;
    h[155] = b' ';
    h
}

fn pad_to_block(data: &[u8]) -> Vec<u8> {
    let mut v = data.to_vec();
    while v.len() % 512 != 0 {
        v.push(0);
    }
    v
}

fn archive_with_dir_file_symlink() -> Vec<u8> {
    let mut builder = tar::Builder::new(Vec::new());

    let mut dir = tar::Header::new_ustar();
    dir.set_entry_type(tar::EntryType::Directory);
    dir.set_path("dir/").unwrap();
    dir.set_size(0);
    dir.set_cksum();
    builder.append(&dir, &[][..]).unwrap();

    let mut file = tar::Header::new_ustar();
    file.set_entry_type(tar::EntryType::Regular);
    file.set_path("dir/file.txt").unwrap();
    file.set_size(5);
    file.set_cksum();
    builder.append(&file, &b"hello"[..]).unwrap();

    let mut link = tar::Header::new_ustar();
    link.set_entry_type(tar::EntryType::Symlink);
    link.set_size(0);
    builder
        .append_link(&mut link, "link", "dir/file.txt")
        .unwrap();

    builder.into_inner().unwrap()
}

#[test]
fn reconstructs_dir_file_and_skips_symlink() {
    let data = archive_with_dir_file_symlink();
    let dest = WriteDirectory::new("repo".to_string());
    let dest = reconstruct_tar(dest, &data).unwrap();

    assert_eq!(
        dest.entries(),
        &vec![
            Node::Directory { path: "dir/".to_string() },
            Node::File { path: "dir/file.txt".to_string(), data: b"hello".to_vec() },
        ]
    );
    assert_eq!(dest.skipped(), &vec!["link".to_string()]);
    assert!(!dest.is_committed());
    assert_eq!(dest.name().as_str(), "repo");
}

#[test]
fn parses_archives_built_by_the_tar_crate() {
    let data = archive_with_dir_file_symlink();
    let entries = parse_tar(&data).unwrap();
    let kinds: Vec<EntryKind> = entries.iter().map(|e: &TarEntry| e.kind).collect();
    assert_eq!(kinds, vec![EntryKind::Directory, EntryKind::Regular, EntryKind::Other]);
    assert_eq!(entries[1].path, "dir/file.txt");
    assert_eq!(entries[1].data, b"hello");
}

#[test]
fn parses_handmade_ustar_blocks() {
    let mut data = Vec::new();
    data.extend_from_slice(&make_header(b"a.txt", 3, b'0'));
    data.extend_from_slice(&pad_to_block(b"abc"));
    data.extend_from_slice(&[0u8; 512]);
    let entries = parse_tar(&data).unwrap();
    assert_eq!(entries.len(), 1);
    assert_eq!(entries[0].path, "a.txt");
    assert_eq!(entries[0].kind, EntryKind::Regular);
    assert_eq!(entries[0].data, b"abc");
}

#[test]
fn joins_the_ustar_prefix_field_into_the_path() {
    let mut h = make_header(b"file.txt", 0, b'0');
    // Move the directory part into the prefix field and fix the checksum.
    h[345..348].copy_from_slice(b"pre");
    for i in 148..156 {
        h[i] = b' ';
    }
    let sum: u32 = h.iter().map(|&b| b as u32).sum();
    let cs = format!("{:06o}", sum);
    h[148..154].copy_from_slice(cs.as_bytes());
    h[154] = 0;
    h[155] = b' ';

    let mut data = Vec::new();
    data.extend_from_slice(&h);
    let entries = parse_tar(&data).unwrap();
    assert_eq!(entries[0].path, "pre/file.txt");
}

#[test]
fn empty_input_is_an_empty_archive() {
    let entries = parse_tar(&Vec::new()).unwrap();
    assert!(entries.is_empty());
}

#[test]
fn zero_block_ends_the_archive() {
    let mut data = vec![0u8; 1024];
    data.extend_from_slice(&make_header(b"never.txt", 0, b'0'));
    let entries = parse_tar(&data).unwrap();
    assert!(entries.is_empty());
}

#[test]
fn partial_header_block_is_fatal() {
    let data = vec![7u8; 100];
    assert_eq!(parse_tar(&data).unwrap_err(), TarError::TruncatedHeader);
}

#[test]
fn checksum_mismatch_is_fatal() {
    let mut data = Vec::new();
    let mut h = make_header(b"a.txt", 0, b'0');
    h[0] = b'b';  // corrupt the name after the checksum was computed
    data.extend_from_slice(&h);
    assert_eq!(parse_tar(&data).unwrap_err(), TarError::BadChecksum);
}

#[test]
fn malformed_size_field_is_fatal() {
    let mut h = make_header(b"a.txt", 0, b'0');
    h[124] = b'9';  // not an octal digit
    for i in 148..156 {
        h[i] = b' ';
    }
    let sum: u32 = h.iter().map(|&b| b as u32).sum();
    let cs = format!("{:06o}", sum);
    h[148..154].copy_from_slice(cs.as_bytes());
    h[154] = 0;
    h[155] = b' ';
    let mut data = Vec::new();
    data.extend_from_slice(&h);
    assert_eq!(parse_tar(&data).unwrap_err(), TarError::BadSize);
}

#[test]
fn non_utf8_path_is_fatal() {
    let mut data = Vec::new();
    data.extend_from_slice(&make_header(&[0xff, 0xfe, b'a'], 0, b'0'));
    assert_eq!(parse_tar(&data).unwrap_err(), TarError::NonUtf8Path);
}

#[test]
fn payload_shorter_than_the_size_field_is_fatal() {
    let mut data = Vec::new();
    data.extend_from_slice(&make_header(b"a.txt", 10, b'0'));
    assert_eq!(parse_tar(&data).unwrap_err(), TarError::TruncatedData);
}

#[test]
fn directory_payloads_are_skipped_not_read() {
    // A directory entry whose size field is non-zero: the payload blocks
    // are skipped, and the next entry is still found.
    let mut data = Vec::new();
    data.extend_from_slice(&make_header(b"dir/", 512, b'5'));
    data.extend_from_slice(&[b'x'; 512]);
    data.extend_from_slice(&make_header(b"b.txt", 2, b'0'));
    data.extend_from_slice(&pad_to_block(b"ok"));
    let entries = parse_tar(&data).unwrap();
    assert_eq!(entries.len(), 2);
    assert_eq!(entries[0].kind, EntryKind::Directory);
    assert_eq!(entries[0].data, Vec::<u8>::new());
    assert_eq!(entries[1].data, b"ok");
}

#[test]
fn missing_final_padding_still_ends_the_archive() {
    let mut data = Vec::new();
    data.extend_from_slice(&make_header(b"a.txt", 3, b'0'));
    data.extend_from_slice(b"abc");
    let entries = parse_tar(&data).unwrap();
    assert_eq!(entries.len(), 1);
    assert_eq!(entries[0].data, b"abc");
}
