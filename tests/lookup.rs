use phonerr::carrier::Isp;
use phonerr::record::decode_record;
use phonerr::util::parse_prefix;
use phonerr::{find, replace_home, u8_i32, IndexData, PhoneData, PhoneError};

/// Builds a data file from records (text without the NUL) and index entries
/// `(prefix, record number, carrier code)`.
fn build_file(version: &[u8; 4], records: &[&str], entries: &[(i32, usize, u8)]) -> Vec<u8> {
    let mut record_seg: Vec<u8> = Vec::new();
    let mut offsets: Vec<i32> = Vec::new();
    for r in records {
        offsets.push(8 + record_seg.len() as i32);
        record_seg.extend_from_slice(r.as_bytes());
        record_seg.push(0);
    }
    let start = 8 + record_seg.len() as u32;
    let mut out: Vec<u8> = Vec::new();
    out.extend_from_slice(version);
    out.extend_from_slice(&start.to_le_bytes());
    out.extend_from_slice(&record_seg);
    for (prefix, rec, isp) in entries {
        out.extend_from_slice(&prefix.to_le_bytes());
        out.extend_from_slice(&offsets[*rec].to_le_bytes());
        out.push(*isp);
    }
    out
}

fn build_index(prefixes: &[i32]) -> Vec<u8> {
    let mut out: Vec<u8> = Vec::new();
    for (k, p) in prefixes.iter().enumerate() {
        out.extend_from_slice(&p.to_le_bytes());
        out.extend_from_slice(&(1000 + k as i32).to_le_bytes());
        out.push((k % 9) as u8);
    }
    out
}

fn loaded(bytes: Vec<u8>) -> PhoneData {
    let mut data = PhoneData::new(Some("./phone.dat"), "/home/user");
    data.init(bytes).unwrap();
    data
}

#[test]
fn test_query() {
    let bytes = build_file(
        b"2405",
        &["北京|北京|100000|010", "浙江|杭州|310000|0571", "广东|深圳|518000|0755"],
        &[(1300000, 0, 2), (1345678, 1, 1), (1890000, 2, 3)],
    );
    let phone_data = loaded(bytes);
    let record = phone_data.query("13456789012").unwrap();
    assert_eq!(record.province, "浙江");
    assert_eq!(record.city, "杭州");
    assert_eq!(record.isp, "中国移动");
    assert_eq!(record.zip_code, "310000");
    assert_eq!(record.area_code, "0571");
}

#[test]
fn find_returns_every_present_prefix() {
    for n in 1..=1000usize {
        let prefixes: Vec<i32> = (0..n).map(|k| 2 * k as i32 + 1).collect();
        let index = build_index(&prefixes);
        for k in 0..n {
            let e = find(&index, prefixes[k]).unwrap().unwrap();
            assert_eq!(
                e,
                IndexData { phone_prefix: prefixes[k], offset: 1000 + k as i32, isp: (k % 9) as u8 }
            );
        }
    }
}

#[test]
fn find_misses_every_absent_prefix() {
    for n in 1..=300usize {
        let prefixes: Vec<i32> = (0..n).map(|k| 2 * k as i32 + 1).collect();
        let index = build_index(&prefixes);
        for k in 0..=n {
            assert_eq!(find(&index, 2 * k as i32).unwrap(), None);
        }
        assert_eq!(find(&index, -5).unwrap(), None);
        assert_eq!(find(&index, i32::MAX).unwrap(), None);
    }
}

#[test]
fn find_on_negative_prefixes() {
    let index = build_index(&[-300, -2, 0, 7]);
    assert_eq!(find(&index, -300).unwrap().unwrap().offset, 1000);
    assert_eq!(find(&index, -2).unwrap().unwrap().offset, 1001);
    assert_eq!(find(&index, 7).unwrap().unwrap().offset, 1003);
    assert_eq!(find(&index, -1).unwrap(), None);
}

#[test]
fn find_on_empty_index_is_uninitialized() {
    assert_eq!(find(&[], 1345678), Err(PhoneError::Uninitialized));
    let data = PhoneData::new(None, "/home/user");
    assert!(matches!(data.query("13456789012"), Err(PhoneError::Uninitialized)));
    assert_eq!(data.search_index("13456789012"), Err(PhoneError::Uninitialized));
}

#[test]
fn parse_rejects_short_or_non_digit_prefixes() {
    assert_eq!(parse_prefix("13456789012"), Ok(1345678));
    assert_eq!(parse_prefix("0000001"), Ok(1));
    assert_eq!(parse_prefix("123456"), Err(PhoneError::Parse));
    assert_eq!(parse_prefix(""), Err(PhoneError::Parse));
    assert_eq!(parse_prefix("12a4567890"), Err(PhoneError::Parse));
    assert_eq!(parse_prefix("+234567890"), Err(PhoneError::Parse));
    assert_eq!(parse_prefix("123456５"), Err(PhoneError::Parse));
    let data = loaded(build_file(b"2405", &["a|b|c|d"], &[(1345678, 0, 1)]));
    assert!(matches!(data.query("1345"), Err(PhoneError::Parse)));
    assert!(matches!(data.query("1345x78"), Err(PhoneError::Parse)));
}

#[test]
fn record_with_wrong_field_count_is_format_error() {
    let seg = "a|b|c\0a|b|c|d|e\0\0a|b|c|d\0".as_bytes();
    assert_eq!(decode_record(seg, 8).unwrap_err(), PhoneError::Format("a|b|c".to_string()));
    assert_eq!(decode_record(seg, 14).unwrap_err(), PhoneError::Format("a|b|c|d|e".to_string()));
    assert_eq!(decode_record(seg, 24).unwrap_err(), PhoneError::Format(String::new()));
    let ok = decode_record(seg, 25).unwrap();
    assert_eq!((ok.province.as_str(), ok.city.as_str(), ok.zip_code.as_str(), ok.area_code.as_str()), ("a", "b", "c", "d"));
    assert_eq!(ok.isp, "");
    assert!(matches!(decode_record(seg, 7), Err(PhoneError::Format(_))));
    assert!(matches!(decode_record(seg, 1000), Err(PhoneError::Format(_))));
}

#[test]
fn record_with_invalid_utf8_is_format_error() {
    let seg: Vec<u8> = vec![b'a', b'|', 0xff, b'|', b'c', b'|', b'd', 0];
    assert!(matches!(decode_record(&seg, 8), Err(PhoneError::Format(_))));
}

#[test]
fn record_without_terminator_runs_to_segment_end() {
    let ok = decode_record("x|y||".as_bytes(), 8).unwrap();
    assert_eq!(ok.province, "x");
    assert_eq!(ok.city, "y");
    assert_eq!(ok.zip_code, "");
    assert_eq!(ok.area_code, "");
}

#[test]
fn carrier_codes_resolve_to_eight_distinct_names() {
    let mut names: Vec<String> = Vec::new();
    for code in 0..=255u8 {
        match Isp::from_u8(code) {
            Some(isp) => {
                assert!((1..=8).contains(&code));
                names.push(isp.get_name());
            }
            None => assert!(code == 0 || code >= 9),
        }
    }
    assert_eq!(names.len(), 8);
    assert_eq!(names[0], "中国移动");
    assert_eq!(names[7], "中国广电虚拟运营商");
    for i in 0..8 {
        assert!(!names[i].is_empty());
        for j in 0..i {
            assert_ne!(names[i], names[j]);
        }
    }
}

#[test]
fn query_with_unknown_carrier_leaves_name_empty() {
    let data = loaded(build_file(b"2405", &["江苏|南京|210000|025"], &[(1500000, 0, 0), (1510000, 0, 9)]));
    let r = data.query("1500000").unwrap();
    assert_eq!(r.isp, "");
    assert_eq!(r.city, "南京");
    assert_eq!(data.query("15100001234").unwrap().isp, "");
}

#[test]
fn query_of_absent_prefix_is_not_found() {
    let data = loaded(build_file(b"2405", &["a|b|c|d"], &[(1300000, 0, 1), (1500000, 0, 2)]));
    assert!(matches!(data.query("14000000000"), Err(PhoneError::NotFound)));
    assert!(matches!(data.query("12999990000"), Err(PhoneError::NotFound)));
    assert!(matches!(data.query("16000000000"), Err(PhoneError::NotFound)));
    assert_eq!(data.query("15000000000").unwrap().isp, "中国联通");
}

#[test]
fn query_of_malformed_record_is_format_error() {
    let data = loaded(build_file(b"2405", &["a|b|c"], &[(1300000, 0, 1)]));
    assert!(matches!(data.query("13000000000"), Err(PhoneError::Format(_))));
}

#[test]
fn init_splits_the_file() {
    let bytes = build_file(b"2405", &["a|b|c|d", "e|f|g|h"], &[(1300000, 0, 1), (1300001, 1, 2)]);
    let len = bytes.len();
    let data = loaded(bytes);
    assert_eq!(data.version, "2405");
    assert_eq!(data.start_index, 8 + 16);
    assert_eq!(data.record, b"a|b|c|d\0e|f|g|h\0".to_vec());
    assert_eq!(data.index.len(), 18);
    assert_eq!(data.entry_count(), 2);
    assert_eq!(data.size, len as u64);
    assert_eq!(data.read_recrod(16).unwrap().province, "e");
    assert_eq!(data.search_index("1300001").unwrap().unwrap().offset, 16);
}

#[test]
fn init_decodes_invalid_version_lossily() {
    let mut bytes = build_file(b"2405", &["a|b|c|d"], &[(1300000, 0, 1)]);
    bytes[1] = 0xff;
    let data = loaded(bytes);
    assert_eq!(data.version, "2\u{fffd}05");
}

#[test]
fn init_rejects_short_file() {
    let mut data = PhoneData::new(None, "/home/user");
    for len in 0..8usize {
        let r = data.init(vec![b'1'; len]);
        assert!(matches!(r, Err(PhoneError::Format(_))));
    }
    assert_eq!(data.index.len(), 0);
    assert_eq!(data.version, "");
}

#[test]
fn init_rejects_index_position_outside_file() {
    let mut data = PhoneData::new(None, "/home/user");
    let mut bytes = b"2405".to_vec();
    bytes.extend_from_slice(&7u32.to_le_bytes());
    assert!(matches!(data.init(bytes.clone()), Err(PhoneError::Format(_))));
    bytes[4] = 20;
    assert!(matches!(data.init(bytes.clone()), Err(PhoneError::Format(_))));
    bytes[4] = 8;
    assert_eq!(data.init(bytes), Ok(()));
    assert_eq!(data.index.len(), 0);
    assert_eq!(data.record.len(), 0);
}

#[test]
fn u8_i32_reads_little_endian() {
    assert_eq!(u8_i32(&[0x78, 0x56, 0x34, 0x12]), 0x12345678);
    assert_eq!(u8_i32(&[0xff, 0xff, 0xff, 0xff]), -1);
    assert_eq!(u8_i32(&[0x00, 0x00, 0x00, 0x80]), i32::MIN);
    assert_eq!(u8_i32(&[0xc8]), 200);
    assert_eq!(u8_i32(&[]), 0);
}

#[test]
fn replace_home_expands_leading_tilde() {
    assert_eq!(replace_home("~/.cache/x", "/home/u"), "/home/u/.cache/x");
    assert_eq!(replace_home("~/a~b", "/h"), "/h/a/hb");
    assert_eq!(replace_home("/data/~x", "/h"), "/data/~x");
    assert_eq!(replace_home("", "/h"), "");
    assert_eq!(PhoneData::get_data_path("/root"), "/root/.cache/phoner/phone.dat");
    assert_eq!(PhoneData::new(None, "/root").data_path, "/root/.cache/phoner/phone.dat");
    assert_eq!(PhoneData::new(Some("./phone.dat"), "/root").data_path, "./phone.dat");
}

#[test]
fn place_collapses_equal_province_and_city() {
    let data = loaded(build_file(b"2405", &["北京|北京|100000|010", "浙江|杭州|310000|0571"], &[(1000000, 0, 1), (1000001, 1, 1)]));
    assert_eq!(data.query("1000000").unwrap().place(), "北京");
    assert_eq!(data.query("1000001").unwrap().place(), "浙江杭州");
}
