use spk::chunks::{self, parse_byte_len, parse_file_info, ByteLen, PackageType, FEND, FINF};
use spk::stream::Stream;

#[test]
fn legacy_byte_len_decodes() {
    let mut s = Stream::new(vec![5, 0, 0, 0]);
    let bl = parse_byte_len(&mut s).unwrap();
    assert_eq!(bl, ByteLen::Legacy(5));
    assert_eq!(bl.byte_len(), 5);
    assert_eq!(bl.header_size(), 8);
    assert_eq!(s.pos, 4);
    // tag + length field + payload: the span to the next sibling chunk
    assert_eq!(bl.header_size() + bl.byte_len(), 4 + 4 + 5);
}

#[test]
fn extended_byte_len_decodes() {
    let mut data = vec![0xff, 0xff, 0xff, 0xff];
    data.extend_from_slice(&20u64.to_le_bytes());
    let mut s = Stream::new(data);
    let bl = parse_byte_len(&mut s).unwrap();
    assert_eq!(bl, ByteLen::Extended(20));
    // the stored value includes the chunk's own 4 tag bytes
    assert_eq!(bl.byte_len(), 16);
    assert_eq!(bl.header_size(), 16);
    assert_eq!(s.pos, 12);
    assert_eq!(bl.header_size() + bl.byte_len(), 4 + 12 + 16);
}

#[test]
fn extended_byte_len_below_four_is_refused() {
    let mut data = vec![0xff, 0xff, 0xff, 0xff];
    data.extend_from_slice(&3u64.to_le_bytes());
    let mut s = Stream::new(data);
    assert!(parse_byte_len(&mut s).is_none());
    assert_eq!(s.pos, 0);
}

#[test]
fn truncated_byte_len_is_refused() {
    let mut s = Stream::new(vec![0xff, 0xff, 0xff, 0xff, 1, 2]);
    assert!(parse_byte_len(&mut s).is_none());
    assert_eq!(s.pos, 0);
    let mut t = Stream::new(vec![1, 2]);
    assert!(parse_byte_len(&mut t).is_none());
}

#[test]
fn offset_to_next_spans_the_envelope() {
    let legacy = chunks::SPK0 { byte_len: ByteLen::Legacy(100) };
    assert_eq!(legacy.offset_to_next(), 108);
    let extended = chunks::SPK0 { byte_len: ByteLen::Extended(104) };
    assert_eq!(extended.offset_to_next(), 116);
}

#[test]
fn sdat_accessors_follow_the_length_form() {
    let legacy = chunks::SDAT { byte_len: ByteLen::Legacy(9) };
    assert_eq!(legacy.byte_len(), 9);
    assert_eq!(legacy.header_size(), 8);
    let extended = chunks::SDAT { byte_len: ByteLen::Extended(13) };
    assert_eq!(extended.byte_len(), 9);
    assert_eq!(extended.header_size(), 16);
}

#[test]
fn normalize_widens_a_narrow_record_without_truncation() {
    let narrow = FINF {
        byte_len: 60,
        filename: b"n".to_vec(),
        file_size: u32::MAX,
        data_offset: u32::MAX,
        data_size: u32::MAX,
        mode: 0o755,
        data_hmac: vec![1; 20],
        data_md5: vec![2; 16],
    };
    let wide = chunks::FileInfo::FINF(narrow).normalize().unwrap();
    assert_eq!(wide.file_size, u32::MAX as u64);
    assert_eq!(wide.data_offset, u32::MAX as u64);
    assert_eq!(wide.data_size, u32::MAX as u64);
    assert_eq!(wide.mode, 0o755);
    assert_eq!(wide.filename, b"n".to_vec());
    assert_eq!(wide.data_hmac, vec![1; 20]);
    assert_eq!(wide.data_md5, vec![2; 16]);
}

#[test]
fn normalize_keeps_a_wide_record_unchanged() {
    let wide = chunks::FI64 {
        byte_len: 80,
        filename: b"w".to_vec(),
        file_size: 1 << 40,
        data_offset: 2,
        data_size: 3,
        mode: 4,
        data_hmac: vec![5; 20],
        data_md5: vec![6; 16],
    };
    let again = chunks::FileInfo::FI64(wide.clone()).normalize().unwrap();
    assert_eq!(again, wide);
}

#[test]
fn normalize_signals_the_terminator_distinctly() {
    assert!(chunks::FileInfo::FEND(FEND { byte_len: 0 }).normalize().is_none());
}

#[test]
fn string_excursion_is_cursor_neutral() {
    let mut s = Stream::new(b"SPKSab\0cd".to_vec());
    s.seek(3);
    let name = s.cstr_at(4).unwrap();
    assert_eq!(name, b"ab".to_vec());
    assert_eq!(s.pos, 3);
    assert!(s.cstr_at(7).is_none());
    assert_eq!(s.pos, 3);
}

#[test]
fn record_parse_leaves_the_cursor_past_the_record_only() {
    let mut data = Vec::new();
    data.extend_from_slice(b"hi\0");
    data.extend_from_slice(b"FINF");
    data.extend_from_slice(&60u32.to_le_bytes());
    data.extend_from_slice(&0u32.to_le_bytes());
    data.extend_from_slice(&1u32.to_le_bytes());
    data.extend_from_slice(&2u32.to_le_bytes());
    data.extend_from_slice(&1u32.to_le_bytes());
    data.extend_from_slice(&7u16.to_le_bytes());
    data.extend_from_slice(&[0; 3]);
    data.extend_from_slice(&[9; 20]);
    data.extend_from_slice(&[8; 16]);
    data.extend_from_slice(&[0; 3]);
    let mut s = Stream::new(data);
    s.seek(3);
    let rec = parse_file_info(&mut s, 0).unwrap();
    // resolving the name seeks away and back: the cursor moved by exactly
    // one record
    assert_eq!(s.pos, 3 + 68);
    let wide = rec.normalize().unwrap();
    assert_eq!(wide.filename, b"hi".to_vec());
    assert_eq!(wide.file_size, 1);
    assert_eq!(wide.data_offset, 2);
}

#[test]
fn terminator_record_must_be_empty() {
    let mut data = Vec::new();
    data.extend_from_slice(b"FEND");
    data.extend_from_slice(&5u32.to_le_bytes());
    let mut s = Stream::new(data);
    assert!(parse_file_info(&mut s, 0).is_none());
    assert_eq!(s.pos, 0);
}

#[test]
fn path_prefix_depends_on_package_type() {
    assert_eq!(PackageType::Game.path_prefix(), "/games/");
    assert_eq!(PackageType::Spike1.path_prefix(), "/");
    assert_eq!(PackageType::Spike2.path_prefix(), "/");
}
