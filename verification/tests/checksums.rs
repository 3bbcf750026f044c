use femboylose::checksum::{sha256_hex, split_lines, ChecksumTable, FileSha256};

#[test]
fn later_lines_win_and_stars_are_dropped() {
    let text = "ABCDEF  *neverlose.dll\n123 injector.exe\r\nbad\n\n  fff   neverlose.dll  extra\n";
    let table = ChecksumTable::parse(text);
    assert_eq!(table.get("neverlose.dll").map(|s| s.as_str()), Some("fff"));
    assert_eq!(table.get("injector.exe").map(|s| s.as_str()), Some("123"));
    assert_eq!(table.get("bad"), None);
    assert_eq!(table.get("Neverlose.dll"), None);
}

#[test]
fn hashes_are_lower_cased() {
    let table = ChecksumTable::parse("BA7816BF file.bin");
    assert_eq!(table.get("file.bin").map(|s| s.as_str()), Some("ba7816bf"));
}

#[test]
fn empty_table_has_nothing() {
    assert_eq!(ChecksumTable::empty().get("x"), None);
    assert_eq!(ChecksumTable::parse("").get("x"), None);
}

#[test]
fn lines_split_on_newlines() {
    let ls = split_lines("a\nb\r\n\nc");
    let ls: Vec<String> = ls.iter().map(|l| l.iter().collect()).collect();
    assert_eq!(ls, vec!["a", "b\r", "", "c"]);
    assert!(split_lines("").is_empty());
    assert_eq!(split_lines("x\n").len(), 1);
}

#[test]
fn sha256_of_abc() {
    assert_eq!(
        sha256_hex(b"abc"),
        "ba7816bf8f01cfea414140de5dae2223b00361a396177a9cb410ff61f20015ad"
    );
    assert_eq!(
        sha256_hex(b""),
        "e3b0c44298fc1c149afbf4c8996fb92427ae41e4649b934ca495991b7852b855"
    );
}

#[test]
fn chunked_digest_equals_whole() {
    let mut h = FileSha256::new();
    h.update(b"a");
    h.update(b"");
    h.update(b"bc");
    assert_eq!(h.finish_hex(), sha256_hex(b"abc"));
}
