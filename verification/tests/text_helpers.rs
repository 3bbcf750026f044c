use femboylose::launch::{backup_file_name, server_arguments};
use femboylose::text::{chars_of, eq_ignore_ascii_case, parse_i32_chars, str_eq, to_hex_lower};

#[test]
fn decimal_forms() {
    assert_eq!(backup_file_name("x", 0), "x.0.old");
    assert_eq!(backup_file_name("x", 1700000000), "x.1700000000.old");
    assert_eq!(backup_file_name("x", u64::MAX), format!("x.{}.old", u64::MAX));
    assert_eq!(server_arguments(Some(-5))[1], "-5");
    assert_eq!(server_arguments(Some(i32::MIN))[1], "-2147483648");
    assert_eq!(server_arguments(Some(730))[1], "730");
}

#[test]
fn i32_parsing_matches_std() {
    for s in ["0", "+7", "-7", "007", "2147483647", "-2147483648", "2147483648", "", "+", "-", "1a", " 1", "+-1", "١"] {
        let cs = chars_of(s);
        assert_eq!(parse_i32_chars(&cs), s.parse::<i32>().ok(), "input {s:?}");
    }
}

#[test]
fn ascii_case_insensitive() {
    assert!(eq_ignore_ascii_case("SHA256SUMS.txt", "sha256sums.TXT"));
    assert!(!eq_ignore_ascii_case("abc", "abd"));
    assert!(!eq_ignore_ascii_case("Ä", "ä"));
    assert!(str_eq("old", "old"));
    assert!(!str_eq("old", "Old"));
}

#[test]
fn hex_lower_case() {
    assert_eq!(to_hex_lower(&[0x00, 0x0f, 0xab, 0xff]), "000fabff");
    assert_eq!(to_hex_lower(&[]), "");
}

#[test]
fn case_insensitive_equality_is_an_equivalence() {
    let words = ["Path", "PATH", "path", "pAtH", "paths"];
    for a in words {
        assert!(eq_ignore_ascii_case(a, a));
        for b in words {
            assert_eq!(eq_ignore_ascii_case(a, b), eq_ignore_ascii_case(b, a));
            for c in words {
                if eq_ignore_ascii_case(a, b) && eq_ignore_ascii_case(b, c) {
                    assert!(eq_ignore_ascii_case(a, c));
                }
            }
        }
    }
}
