use mft::dump::{sanitized, OutputFormat, Ranges};
use mft::errors::{ErrorKind, MftError};
use mft::utils::{read_utf16_string, to_hex_string};

#[test]
fn it_works_with_single_number() {
    let ranges = Ranges::from_str("1").unwrap();
    assert_eq!(ranges.0, vec![1..=1]);
}

#[test]
fn it_works_with_a_range() {
    let ranges = Ranges::from_str("1-5").unwrap();
    assert_eq!(ranges.0, vec![1..=5]);
}

#[test]
fn it_works_with_a_range_and_a_number() {
    let ranges = Ranges::from_str("1-5,8").unwrap();
    assert_eq!(ranges.0, vec![1..=5, 8..=8]);
}

#[test]
fn it_works_with_a_number_and_a_range() {
    let ranges = Ranges::from_str("1-5,8").unwrap();
    assert_eq!(ranges.0, vec![1..=5, 8..=8]);
}

#[test]
fn it_works_with_more_than_2_number_and_a_range() {
    let ranges = Ranges::from_str("1-5,8,10-19").unwrap();
    assert_eq!(ranges.0, vec![1..=5, 8..=8, 10..=19]);
}

#[test]
fn it_works_with_two_ranges() {
    let ranges = Ranges::from_str("1-10,20-25").unwrap();
    assert_eq!(ranges.0, vec![1..=10, 20..=25]);
}

#[test]
fn it_errors_on_a_random_string() {
    let ranges = Ranges::from_str("hello");
    assert!(ranges.is_err())
}

#[test]
fn it_errors_on_a_range_with_too_many_dashes() {
    let ranges = Ranges::from_str("1-5-8");
    assert!(ranges.is_err())
}

#[test]
fn ranges_edge_cases() {
    assert!(Ranges::from_str("").is_err());
    assert!(Ranges::from_str("1,").is_err());
    assert!(Ranges::from_str("-5").is_err());
    assert!(Ranges::from_str("18446744073709551616").is_err());
    assert_eq!(Ranges::from_str("+7").unwrap().0, vec![7..=7]);
    assert_eq!(Ranges::from_str("18446744073709551615").unwrap().0, vec![usize::MAX..=usize::MAX]);
}

#[test]
fn chain_lists_every_number() {
    let ranges = Ranges::from_str("1-3,8,5-4").unwrap();
    assert_eq!(ranges.chain(), vec![1, 2, 3, 8]);
}

#[test]
fn output_formats() {
    assert_eq!(OutputFormat::from_str("json"), Some(OutputFormat::JSON));
    assert_eq!(OutputFormat::from_str("jsonl"), Some(OutputFormat::JSONL));
    assert_eq!(OutputFormat::from_str("csv"), Some(OutputFormat::CSV));
    assert_eq!(OutputFormat::from_str("xml"), None);
}

#[test]
fn separators_become_underscores() {
    assert_eq!(sanitized("a/b/c.txt"), "a_b_c.txt");
    assert_eq!(sanitized("plain"), "plain");
}

#[test]
fn hex_is_upper_case_two_digits_per_byte() {
    assert_eq!(to_hex_string(&[0x00, 0x0A, 0xFF, 0x3C]), "000AFF3C");
    assert_eq!(to_hex_string(&[]), "");
}

#[test]
fn utf16_names_stop_at_nul() {
    let bytes = [b'a', 0, b'b', 0, 0, 0, b'c', 0];
    assert_eq!(read_utf16_string(&bytes, 0, 4), Ok("ab".to_string()));
    assert_eq!(read_utf16_string(&bytes, 0, 5), Err(true));
    let lone_surrogate = [0x00, 0xD8];
    assert_eq!(read_utf16_string(&lone_surrogate, 0, 1), Err(false));
}

#[test]
fn error_constructors_carry_the_message() {
    let e = MftError::invalid_file_signature("bad".to_string());
    assert_eq!(e.message, "bad");
    assert_eq!(e.kind, ErrorKind::InvalidFileSignature);
    assert_eq!(e.info, Some(vec![]));
    assert_eq!(MftError::invalid_entry_signature("x".to_string()).kind, ErrorKind::InvalidFileSignature);
    assert_eq!(MftError::decode_error("y".to_string()).kind, ErrorKind::Utf16Error);
}

#[test]
fn utf16_surrogate_pairs_make_one_character() {
    let bytes = [0x3D, 0xD8, 0x00, 0xDE, b'x', 0];
    assert_eq!(read_utf16_string(&bytes, 0, 3), Ok("\u{1F600}x".to_string()));
    let reversed = [0x00, 0xDE, 0x3D, 0xD8];
    assert_eq!(read_utf16_string(&reversed, 0, 2), Err(false));
}
