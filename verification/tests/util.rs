//! Byte helpers, error descriptions, and small display types.

use wachy::bytes::{bytes_eq, copy_range, find_pair, match_at, parse_u64, scan_digits, starts_with};
use wachy::error::Error;
use wachy::objfile::LocationRec;
use wachy::program::{location_from_parts, FunctionName, SymbolInfo};
use wachy::views::TraceState;

#[test]
fn prefix_and_equality_checks() {
    assert!(starts_with(b".plt.got", b".plt"));
    assert!(starts_with(b".plt", b".plt"));
    assert!(!starts_with(b".plt", b".plt.got"));
    assert!(!starts_with(b".text", b".plt"));
    assert!(bytes_eq(b"abc", b"abc"));
    assert!(!bytes_eq(b"abc", b"abd"));
    assert!(!bytes_eq(b"abc", b"abcd"));
}

#[test]
fn pair_search_finds_first_occurrence() {
    assert_eq!(find_pair(b"write@@GLIBC", b'@', b'@'), Some(5));
    assert_eq!(find_pair(b"a@b@@c@@d", b'@', b'@'), Some(3));
    assert_eq!(find_pair(b"plain", b'@', b'@'), None);
    assert_eq!(find_pair(b"@", b'@', b'@'), None);
    assert_eq!(copy_range(b"write@@GLIBC", 0, 5), b"write".to_vec());
}

#[test]
fn decimal_parsing_is_exact() {
    assert_eq!(parse_u64(b"0"), Some(0));
    assert_eq!(parse_u64(b"42"), Some(42));
    assert_eq!(parse_u64(b"18446744073709551615"), Some(u64::MAX));
    assert_eq!(parse_u64(b"18446744073709551616"), None);
    assert_eq!(parse_u64(b""), None);
    assert_eq!(parse_u64(b"4 2"), None);
    assert_eq!(parse_u64(b"-1"), None);
}

#[test]
fn tag_matching_and_digit_scanning() {
    assert!(match_at(b"line 42", 0, b"line "));
    assert!(!match_at(b"line 42", 1, b"line "));
    assert!(!match_at(b"lin", 0, b"line "));
    assert_eq!(scan_digits(b"123x", 0), 3);
    assert_eq!(scan_digits(b"123x", 3), 3);
    assert_eq!(scan_digits(b"999", 0), 3);
}

#[test]
fn every_error_has_a_description() {
    let errors = vec![
        Error::FileOpen("x".to_string()),
        Error::Parse,
        Error::MissingDebugInfo,
        Error::CrcMismatch { expected: 1, actual: 2 },
        Error::NoMatchingFunction { matches: 0 },
        Error::DynamicSymbolNotEnterable,
        Error::SectionDataUnavailable,
        Error::NoDebugInfoForFunction,
        Error::FatalError("x".to_string()),
        Error::Transient,
    ];
    for e in errors {
        assert!(!e.describe().is_empty());
    }
}

#[test]
fn trace_state_reports_measurements() {
    assert!(TraceState::Traced(5u64).is_traced());
    assert!(!TraceState::<u64>::Pending.is_traced());
    assert!(!TraceState::<u64>::Untraced.is_traced());
}

#[test]
fn symbol_label_prefers_demangled_form() {
    let plain = SymbolInfo {
        name: FunctionName(0),
        name_bytes: b"_ZN4test4myfnEi".to_vec(),
        demangled_name: None,
        section_index: Some(1),
        address: 0x1000,
        size: 16,
    };
    assert_eq!(plain.label(), b"_ZN4test4myfnEi".to_vec());
    let demangled = SymbolInfo { demangled_name: Some(b"test::myfn(int)".to_vec()), ..plain };
    assert_eq!(demangled.label(), b"test::myfn(int)".to_vec());
}

#[test]
fn locations_need_both_file_and_line() {
    let full = location_from_parts(LocationRec { file: Some(b"a.c".to_vec()), line: Some(3) });
    let loc = full.unwrap();
    assert_eq!(loc.file, b"a.c".to_vec());
    assert_eq!(loc.line, 3);
    assert!(location_from_parts(LocationRec { file: Some(b"a.c".to_vec()), line: None }).is_none());
    assert!(location_from_parts(LocationRec { file: None, line: Some(3) }).is_none());
    assert!(location_from_parts(LocationRec { file: None, line: None }).is_none());
}
