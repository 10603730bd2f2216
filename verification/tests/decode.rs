use spk::chunks::PackageType;
use spk::spk::{OpenError, ReadError, SPKFile};

fn parse_err(data: Vec<u8>) -> OpenError {
    match SPKFile::parse(data) {
        Ok(_) => panic!("expected the decode to fail"),
        Err(e) => e,
    }
}

fn push_u16(b: &mut Vec<u8>, v: u16) {
    b.extend_from_slice(&v.to_le_bytes());
}

fn push_u32(b: &mut Vec<u8>, v: u32) {
    b.extend_from_slice(&v.to_le_bytes());
}

fn push_u64(b: &mut Vec<u8>, v: u64) {
    b.extend_from_slice(&v.to_le_bytes());
}

fn sidx_bytes(name: &[u8], id: &[u8], ver: (u8, u8, u8), ptype: u8) -> Vec<u8> {
    assert!(name.len() <= 29 && id.len() <= 3);
    let mut v = Vec::new();
    v.extend_from_slice(b"SIDX");
    push_u32(&mut v, 48);
    v.extend_from_slice(name);
    v.resize(8 + 29, 0);
    v.extend_from_slice(id);
    v.resize(8 + 32, 0);
    v.push(ver.0);
    v.push(ver.1);
    v.push(ver.2);
    v.push(ptype);
    v.resize(8 + 48, 0);
    v
}

fn strs_bytes(data: &[u8]) -> Vec<u8> {
    let mut v = Vec::new();
    v.extend_from_slice(b"STRS");
    push_u32(&mut v, data.len() as u32);
    v.extend_from_slice(data);
    v
}

fn finf_bytes(ptr: u32, file_size: u32, data_offset: u32, data_size: u32, mode: u16) -> Vec<u8> {
    let mut v = Vec::new();
    v.extend_from_slice(b"FINF");
    push_u32(&mut v, 60);
    push_u32(&mut v, ptr);
    push_u32(&mut v, file_size);
    push_u32(&mut v, data_offset);
    push_u32(&mut v, data_size);
    push_u16(&mut v, mode);
    v.extend_from_slice(&[0; 3]);
    v.extend_from_slice(&[0xAA; 20]);
    v.extend_from_slice(&[0xBB; 16]);
    v.extend_from_slice(&[0; 3]);
    assert_eq!(v.len(), 68);
    v
}

fn fi64_bytes(ptr: u64, file_size: u64, data_offset: u64, data_size: u64, mode: u16) -> Vec<u8> {
    let mut v = Vec::new();
    v.extend_from_slice(b"FI64");
    push_u32(&mut v, 80);
    push_u64(&mut v, ptr);
    push_u64(&mut v, file_size);
    push_u64(&mut v, data_offset);
    push_u64(&mut v, data_size);
    push_u16(&mut v, mode);
    v.extend_from_slice(&[0; 3]);
    v.extend_from_slice(&[0xCC; 20]);
    v.extend_from_slice(&[0xDD; 16]);
    v.extend_from_slice(&[0; 7]);
    assert_eq!(v.len(), 88);
    v
}

fn fend_bytes(len: u32) -> Vec<u8> {
    let mut v = Vec::new();
    v.extend_from_slice(b"FEND");
    push_u32(&mut v, len);
    v
}

fn sdat_bytes(len: u32) -> Vec<u8> {
    let mut v = Vec::new();
    v.extend_from_slice(b"SDAT");
    push_u32(&mut v, len);
    v
}

fn sdat_bytes_extended(stored: u64) -> Vec<u8> {
    let mut v = Vec::new();
    v.extend_from_slice(b"SDAT");
    push_u32(&mut v, 0xffff_ffff);
    push_u64(&mut v, stored);
    v
}

/// Wrap one package's content in its envelope, declaring a span that covers
/// the content plus `padding` trailing filler bytes.
fn envelope(content: &[u8], padding: usize, extended: bool) -> Vec<u8> {
    let mut v = Vec::new();
    v.extend_from_slice(b"SPK0");
    if extended {
        push_u32(&mut v, 0xffff_ffff);
        // the extended stored value includes the envelope's own tag bytes
        push_u64(&mut v, (content.len() + padding + 4) as u64);
    } else {
        push_u32(&mut v, (content.len() + padding) as u32);
    }
    v.extend_from_slice(content);
    v.extend(std::iter::repeat(0xEE).take(padding));
    v
}

fn container(count: u32, packages: &[u8]) -> Vec<u8> {
    let mut v = Vec::new();
    v.extend_from_slice(b"SPKS");
    push_u32(&mut v, 4);
    push_u32(&mut v, count);
    v.extend_from_slice(packages);
    v
}

/// One package: metadata, string table, two narrow entries, terminator,
/// data-segment header, then the data blob.
fn single_package_content(sz64: bool) -> Vec<u8> {
    let mut c = Vec::new();
    c.extend_from_slice(&sidx_bytes(b"Pkg", b"", (1, 2, 3), 1));
    if sz64 {
        c.extend_from_slice(b"SZ64");
        push_u32(&mut c, 8);
        push_u64(&mut c, 0x1122_3344_5566_7788);
    }
    c.extend_from_slice(&strs_bytes(b"a.txt\0b.bin\0"));
    c.extend_from_slice(&finf_bytes(0, 3, 0, 3, 420));
    c.extend_from_slice(&finf_bytes(6, 0, 3, 0, 420));
    c.extend_from_slice(&fend_bytes(0));
    c.extend_from_slice(&sdat_bytes(3));
    c.extend_from_slice(b"XYZ");
    c
}

#[test]
fn end_to_end_single_package() {
    let content = single_package_content(false);
    let data = container(1, &envelope(&content, 0, false));
    let sdat_pos = (data.len() - 11) as u64;
    let archive = SPKFile::parse(data).unwrap();
    assert_eq!(archive.packages.len(), 1);
    let p = &archive.packages[0];
    assert_eq!(p.name, "Pkg");
    assert!(p.id.is_empty());
    assert_eq!(p.version, (1, 2, 3));
    assert_eq!(p.type_, PackageType::Spike1);
    assert_eq!(p.files.len(), 2);
    assert_eq!(p.files[0].name, "a.txt");
    assert_eq!(p.files[1].name, "b.bin");
    assert_eq!(p.files[0].size, 3);
    assert_eq!(p.files[1].size, 0);
    // legacy data-segment header: base is its position plus 8
    assert_eq!(p.files[0].offset, sdat_pos + 8);
    assert_eq!(p.files[1].offset, sdat_pos + 8 + 3);
    assert_eq!(p.files[0].mode, 420);
    assert_eq!(p.files[0].hmac, vec![0xAA; 20]);
    assert_eq!(p.files[0].md5, vec![0xBB; 16]);
    let bytes = archive.read(&archive.packages[0].files[0]).unwrap();
    assert_eq!(bytes, b"XYZ");
    let empty = archive.read(&archive.packages[0].files[1]).unwrap();
    assert!(empty.is_empty());
}

#[test]
fn auxiliary_record_is_skipped() {
    let content = single_package_content(true);
    let data = container(1, &envelope(&content, 0, false));
    let archive = SPKFile::parse(data).unwrap();
    assert_eq!(archive.packages[0].name, "Pkg");
    assert_eq!(archive.packages[0].files.len(), 2);
}

#[test]
fn multi_package_resync_with_trailing_padding() {
    let mut c1 = Vec::new();
    c1.extend_from_slice(&sidx_bytes(b"One", b"", (1, 0, 0), 1));
    c1.extend_from_slice(&strs_bytes(b"x\0"));
    c1.extend_from_slice(&finf_bytes(0, 1, 0, 1, 0));
    c1.extend_from_slice(&fend_bytes(0));
    c1.extend_from_slice(&sdat_bytes(1));
    c1.extend_from_slice(b"Q");
    let mut c2 = Vec::new();
    c2.extend_from_slice(&sidx_bytes(b"Two", b"SKK", (2, 0, 0), 2));
    c2.extend_from_slice(&strs_bytes(b"y\0"));
    c2.extend_from_slice(&finf_bytes(0, 1, 0, 1, 0));
    c2.extend_from_slice(&fend_bytes(0));
    c2.extend_from_slice(&sdat_bytes(1));
    c2.extend_from_slice(b"R");
    // package 1 declares 16 bytes of undocumented trailing padding
    let mut packages = envelope(&c1, 16, false);
    packages.extend_from_slice(&envelope(&c2, 0, false));
    let archive = SPKFile::parse(container(2, &packages)).unwrap();
    assert_eq!(archive.packages.len(), 2);
    assert_eq!(archive.packages[0].name, "One");
    assert_eq!(archive.packages[1].name, "Two");
    assert_eq!(archive.packages[1].id, b"SKK".to_vec());
    assert_eq!(archive.packages[1].type_, PackageType::Game);
    let q = archive.read(&archive.packages[0].files[0]).unwrap();
    assert_eq!(q, b"Q");
    let r = archive.read(&archive.packages[1].files[0]).unwrap();
    assert_eq!(r, b"R");
}

#[test]
fn extended_envelope_and_data_segment() {
    let mut c = Vec::new();
    c.extend_from_slice(&sidx_bytes(b"Ext", b"", (0, 0, 1), 3));
    c.extend_from_slice(&strs_bytes(b"w\0"));
    c.extend_from_slice(&fi64_bytes(0, 2, 0, 2, 7));
    c.extend_from_slice(&fend_bytes(0));
    // extended stored value includes the chunk's own 4 tag bytes
    c.extend_from_slice(&sdat_bytes_extended(2 + 4));
    c.extend_from_slice(b"GH");
    let data = container(1, &envelope(&c, 0, true));
    let sdat_pos = (data.len() - 18) as u64;
    let archive = SPKFile::parse(data).unwrap();
    let p = &archive.packages[0];
    assert_eq!(p.name, "Ext");
    assert_eq!(p.type_, PackageType::Spike2);
    assert_eq!(p.files[0].name, "w");
    // extended data-segment header: base is its position plus 16
    assert_eq!(p.files[0].offset, sdat_pos + 16);
    assert_eq!(p.files[0].hmac, vec![0xCC; 20]);
    assert_eq!(p.files[0].md5, vec![0xDD; 16]);
    assert_eq!(archive.read(&p.files[0]).unwrap(), b"GH");
}

#[test]
fn empty_container_has_no_packages() {
    let archive = SPKFile::parse(container(0, &[])).unwrap();
    assert!(archive.packages.is_empty());
}

#[test]
fn nonzero_terminator_is_a_structural_failure() {
    let mut c = Vec::new();
    c.extend_from_slice(&sidx_bytes(b"Pkg", b"", (1, 2, 3), 1));
    c.extend_from_slice(&strs_bytes(b"\0"));
    c.extend_from_slice(&fend_bytes(5));
    c.extend_from_slice(&sdat_bytes(0));
    let data = container(1, &envelope(&c, 0, false));
    assert_eq!(parse_err(data), OpenError::Parse);
}

#[test]
fn wrong_container_tag_fails() {
    let mut data = container(0, &[]);
    data[0] = b'Z';
    assert_eq!(parse_err(data), OpenError::Parse);
}

#[test]
fn truncated_container_fails() {
    let data = container(1, &envelope(&sidx_bytes(b"P", b"", (0, 0, 0), 1), 0, false));
    assert_eq!(parse_err(data), OpenError::Parse);
}

#[test]
fn unknown_package_type_fails() {
    let mut c = Vec::new();
    c.extend_from_slice(&sidx_bytes(b"Pkg", b"", (1, 2, 3), 7));
    c.extend_from_slice(&strs_bytes(b"\0"));
    c.extend_from_slice(&fend_bytes(0));
    c.extend_from_slice(&sdat_bytes(0));
    let data = container(1, &envelope(&c, 0, false));
    assert_eq!(parse_err(data), OpenError::Parse);
}

#[test]
fn invalid_utf8_file_name_fails() {
    let mut c = Vec::new();
    c.extend_from_slice(&sidx_bytes(b"Pkg", b"", (1, 2, 3), 1));
    c.extend_from_slice(&strs_bytes(b"\xFF\xFE\0"));
    c.extend_from_slice(&finf_bytes(0, 1, 0, 1, 0));
    c.extend_from_slice(&fend_bytes(0));
    c.extend_from_slice(&sdat_bytes(1));
    c.push(b'q');
    let data = container(1, &envelope(&c, 0, false));
    assert_eq!(parse_err(data), OpenError::Utf8);
}

#[test]
fn package_name_without_nul_fails() {
    let mut c = Vec::new();
    c.extend_from_slice(&sidx_bytes(&[b'A'; 29], b"", (1, 2, 3), 1));
    c.extend_from_slice(&strs_bytes(b"\0"));
    c.extend_from_slice(&fend_bytes(0));
    c.extend_from_slice(&sdat_bytes(0));
    let data = container(1, &envelope(&c, 0, false));
    assert_eq!(parse_err(data), OpenError::MissingNul);
}

#[test]
fn invalid_utf8_package_name_fails() {
    let mut c = Vec::new();
    c.extend_from_slice(&sidx_bytes(b"\xFFxx", b"", (1, 2, 3), 1));
    c.extend_from_slice(&strs_bytes(b"\0"));
    c.extend_from_slice(&fend_bytes(0));
    c.extend_from_slice(&sdat_bytes(0));
    let data = container(1, &envelope(&c, 0, false));
    assert_eq!(parse_err(data), OpenError::Utf8);
}

#[test]
fn file_name_without_nul_terminator_fails() {
    let mut c = Vec::new();
    c.extend_from_slice(&sidx_bytes(b"Pkg", b"", (1, 2, 3), 1));
    c.extend_from_slice(&strs_bytes(b"a\0"));
    // the name pointer lands past the end of the stream, so no NUL
    // terminator can ever be found
    c.extend_from_slice(&finf_bytes(0xFFFF_0000, 1, 0, 1, 0));
    c.extend_from_slice(&fend_bytes(0));
    c.extend_from_slice(&sdat_bytes(1));
    c.push(b'q');
    let data = container(1, &envelope(&c, 0, false));
    assert_eq!(parse_err(data), OpenError::Parse);
}

#[test]
fn envelope_that_seeks_backward_fails() {
    // the envelope declares a span shorter than the grammar it contains
    let content = single_package_content(false);
    let mut v = Vec::new();
    v.extend_from_slice(b"SPK0");
    push_u32(&mut v, 8);
    v.extend_from_slice(&content);
    let data = container(1, &v);
    assert_eq!(parse_err(data), OpenError::Parse);
}

#[test]
fn package_id_is_trimmed_at_its_first_nul() {
    let mut c = Vec::new();
    c.extend_from_slice(&sidx_bytes(b"Pkg", b"A\0B", (1, 2, 3), 1));
    c.extend_from_slice(&strs_bytes(b"\0"));
    c.extend_from_slice(&fend_bytes(0));
    c.extend_from_slice(&sdat_bytes(0));
    let data = container(1, &envelope(&c, 0, false));
    let archive = SPKFile::parse(data).unwrap();
    assert_eq!(archive.packages[0].id, b"A".to_vec());
    assert!(archive.packages[0].files.is_empty());
}

#[test]
fn failure_in_a_later_package_returns_no_partial_index() {
    let mut c1 = Vec::new();
    c1.extend_from_slice(&sidx_bytes(b"One", b"", (1, 0, 0), 1));
    c1.extend_from_slice(&strs_bytes(b"\0"));
    c1.extend_from_slice(&fend_bytes(0));
    c1.extend_from_slice(&sdat_bytes(0));
    let mut packages = envelope(&c1, 0, false);
    packages.extend_from_slice(b"JUNKJUNK");
    let data = container(2, &packages);
    assert_eq!(parse_err(data), OpenError::Parse);
}

#[test]
fn read_out_of_range_fails() {
    let content = single_package_content(false);
    let data = container(1, &envelope(&content, 0, false));
    let archive = SPKFile::parse(data).unwrap();
    let mut bogus = archive.packages[0].files[0].clone();
    bogus.offset = u64::MAX - 1;
    assert_eq!(archive.read(&bogus).unwrap_err(), ReadError::OutOfRange);
}
