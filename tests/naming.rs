use s_backup::{digest_suffix, hash_suffix, CpsdFileName, NameError, Timestamp};

fn sample_name() -> CpsdFileName {
    CpsdFileName {
        prefix: "backup".to_string(),
        name: "web".to_string(),
        datatime: "20240102T030405".to_string(),
        hash: "abc1234".to_string(),
        extension: ".tar.zst".to_string(),
    }
}

#[test]
fn filename_is_fields_joined_by_dashes() {
    assert_eq!(
        sample_name().to_filename(),
        "backup-web-20240102T030405-abc1234.tar.zst"
    );
}

#[test]
fn filename_round_trip() {
    let n = sample_name();
    let back = CpsdFileName::try_from_filename(&n.to_filename()).unwrap();
    assert_eq!(back.prefix, n.prefix);
    assert_eq!(back.name, n.name);
    assert_eq!(back.datatime, n.datatime);
    assert_eq!(back.hash, n.hash);
    assert_eq!(back.extension, n.extension);
}

#[test]
fn decode_without_extension_is_bad_extension() {
    let r = CpsdFileName::try_from_filename("backup-web-20240102T030405-abc1234.tar.gz");
    assert_eq!(r.unwrap_err(), NameError::BadExtension);
    let r = CpsdFileName::try_from_filename("zst");
    assert_eq!(r.unwrap_err(), NameError::BadExtension);
}

#[test]
fn decode_with_dashed_timestamp_is_malformed() {
    let r = CpsdFileName::try_from_filename("backup-web-2024_01_02-03_04_05-abc1234.tar.zst");
    assert_eq!(r.unwrap_err(), NameError::MalformedFields);
    let r = CpsdFileName::try_from_filename("backup-web.tar.zst");
    assert_eq!(r.unwrap_err(), NameError::MalformedFields);
}

#[test]
fn artifact_name_from_parts() {
    let at = Timestamp::from_clock(2024, 1, 2, 3, 4, 5).unwrap();
    let n = CpsdFileName::for_artifact("db", &at, "0f0f0f0");
    assert_eq!(n.to_filename(), "backup-db-20240102T030405-0f0f0f0.tar.zst");
    let back = CpsdFileName::try_from_filename(&n.to_filename()).unwrap();
    assert_eq!(back.name, "db");
    assert_eq!(back.datatime, "20240102T030405");
    assert_eq!(back.hash, "0f0f0f0");
}

#[test]
fn timestamp_compact_form() {
    let t = Timestamp::from_clock(987, 12, 31, 23, 59, 58).unwrap();
    assert_eq!(t.to_compact(), "09871231T235958");
}

#[test]
fn timestamp_out_of_range_fields() {
    assert!(Timestamp::from_clock(2024, 13, 1, 0, 0, 0).is_none());
    assert!(Timestamp::from_clock(2024, 1, 0, 0, 0, 0).is_none());
    assert!(Timestamp::from_clock(-1, 1, 1, 0, 0, 0).is_none());
    assert!(Timestamp::from_clock(10000, 1, 1, 0, 0, 0).is_none());
    assert!(Timestamp::from_clock(2024, 1, 1, 24, 0, 0).is_none());
}

#[test]
fn timestamp_now_is_compact_and_dash_free() {
    let t = Timestamp::now().unwrap();
    let s = t.to_compact();
    assert_eq!(s.len(), 15);
    assert!(!s.contains('-'));
    assert!(t.year >= 2020);
}

#[test]
fn timestamp_from_unix_seconds() {
    let t = Timestamp::from_unix_seconds(1431648000).unwrap();
    assert_eq!(t.to_compact(), "20150515T000000");
    let t = Timestamp::from_unix_seconds(0).unwrap();
    assert_eq!(t.to_compact(), "19700101T000000");
    let t = Timestamp::from_unix_seconds(951_868_799).unwrap();
    assert_eq!(t.to_compact(), "20000229T235959");
    assert!(Timestamp::from_unix_seconds(253_402_300_800).is_none());
    assert!(Timestamp::from_unix_seconds(u64::MAX).is_none());
}

#[test]
fn hash_suffix_is_last_seven() {
    assert_eq!(hash_suffix("0123456789abcdef"), "9abcdef");
    assert_eq!(hash_suffix("abcdefg"), "abcdefg");
}

#[test]
fn digest_suffix_of_empty_input() {
    let h = blake3::hash(b"");
    assert_eq!(digest_suffix(&h), "41f3262");
    let h = blake3::hash(b"abc");
    let hex = h.to_hex().to_string();
    assert_eq!(digest_suffix(&h), hex[57..].to_string());
}
