use lyrica_sync::audio::check_extension_compatibility;
use lyrica_sync::layout::{get_full_track_location, get_itunesdb_location, get_track_location};
use lyrica_sync::text::{
    contains_bytes, contains_text_ci, dec_string, hex_string, lower_vec, parse_duration_ms,
    parse_u64, two_digit_string,
};
use lyrica_sync::util::{fingerprint, rgb_to_rgb565, IPodImage};

#[test]
fn hex_rendering() {
    assert_eq!(hex_string(0), "0");
    assert_eq!(hex_string(100), "64");
    assert_eq!(hex_string(0xDEADBEEF), "DEADBEEF");
    assert_eq!(two_digit_string(0), "00");
    assert_eq!(two_digit_string(7), "07");
    assert_eq!(two_digit_string(56), "56");
    assert_eq!(dec_string(0), "0");
    assert_eq!(dec_string(1234567890), "1234567890");
}

#[test]
fn track_locations() {
    assert_eq!(get_track_location(256, "mp3"), ":iPod_Control:Music:F56:100.mp3");
    assert_eq!(get_track_location(100, "mp3"), ":iPod_Control:Music:F00:64.mp3");
    assert_eq!(
        get_full_track_location("/mnt/ipod", 100, "wav"),
        "/mnt/ipod/iPod_Control/Music/F00/64.wav"
    );
    assert_eq!(get_itunesdb_location("/mnt/ipod"), "/mnt/ipod/iPod_Control/iTunes/iTunesDB");
}

#[test]
fn parse_u64_accepts_digit_strings() {
    assert_eq!(parse_u64(&b"123".to_vec()), Some(123));
    assert_eq!(parse_u64(&b"0".to_vec()), Some(0));
    assert_eq!(parse_u64(&b"18446744073709551615".to_vec()), Some(u64::MAX));
}

#[test]
fn parse_u64_rejects_bad_input() {
    assert_eq!(parse_u64(&b"".to_vec()), None);
    assert_eq!(parse_u64(&b"12a".to_vec()), None);
    assert_eq!(parse_u64(&b"-5".to_vec()), None);
    assert_eq!(parse_u64(&b"18446744073709551616".to_vec()), None);
}

#[test]
fn durations_in_milliseconds() {
    assert_eq!(parse_duration_ms(&b"12.345".to_vec()), Some(12345));
    assert_eq!(parse_duration_ms(&b"12".to_vec()), Some(12000));
    assert_eq!(parse_duration_ms(&b"1.2".to_vec()), Some(1200));
    assert_eq!(parse_duration_ms(&b"1.23456".to_vec()), Some(1234));
    assert_eq!(parse_duration_ms(&b".5".to_vec()), Some(500));
    assert_eq!(parse_duration_ms(&b"1.".to_vec()), Some(1000));
    assert_eq!(parse_duration_ms(&b"1.2.3".to_vec()), None);
    assert_eq!(parse_duration_ms(&b"abc".to_vec()), None);
    assert_eq!(parse_duration_ms(&b"".to_vec()), None);
}

#[test]
fn case_folding_and_containment() {
    assert_eq!(lower_vec(&b"RoCk".to_vec()), b"rock".to_vec());
    assert!(contains_bytes(&b"hard rock band".to_vec(), &b"rock".to_vec()));
    assert!(!contains_bytes(&b"jazz".to_vec(), &b"rock".to_vec()));
    assert!(contains_bytes(&b"x".to_vec(), &b"".to_vec()));
    let hay = String::from("Rock");
    assert!(contains_text_ci(&hay, &b"rock".to_vec()));
    assert!(contains_text_ci(&hay, &b"roc".to_vec()));
    assert!(!contains_text_ci(&hay, &b"rok".to_vec()));
}

#[test]
fn device_pixel_format() {
    assert_eq!(rgb_to_rgb565(255, 255, 255), 0xFFFF);
    assert_eq!(rgb_to_rgb565(0, 0, 0), 0);
    assert_eq!(rgb_to_rgb565(255, 0, 0), 0xF800);
    assert_eq!(rgb_to_rgb565(0, 255, 0), 0x07E0);
    assert_eq!(rgb_to_rgb565(0, 0, 255), 0x001F);
    let img = IPodImage { pixels: vec![0x1234, 0xABCD] };
    assert_eq!(img.convert_to_u8(), vec![0x34, 0x12, 0xCD, 0xAB]);
}

#[test]
fn importable_extensions() {
    assert!(check_extension_compatibility("mp3"));
    assert!(check_extension_compatibility("MP3"));
    assert!(check_extension_compatibility("AifF"));
    assert!(check_extension_compatibility("aif"));
    assert!(check_extension_compatibility("m4a"));
    assert!(check_extension_compatibility("wav"));
    assert!(!check_extension_compatibility("ogg"));
    assert!(!check_extension_compatibility(""));
}

#[test]
fn fingerprint_is_a_real_digest() {
    // The first eight bytes of the digest of "abc", read big-endian.
    assert_eq!(fingerprint(&b"abc".to_vec()), 0x900150983CD24FB0);
    assert_ne!(fingerprint(&b"abc".to_vec()), fingerprint(&b"abd".to_vec()));
    assert_eq!(fingerprint(&b"abc".to_vec()), fingerprint(&b"abc".to_vec()));
}
