use femboylose::vdf::{collapse_double_backslashes, extract_library_paths};

const LIBRARY_FOLDERS: &str = r#"
"libraryfolders"
{
	"1"
	{
		"PATH"		"D:\\\\SteamLibrary"
		"label"		""
	}
	"0"
	{
		"path"		"C:\\Program Files (x86)\\Steam"
		"label"		""
		"apps"
		{
			"730"		"123"
		}
	}
}
"#;

#[test]
fn reads_paths_of_every_folder() {
    let paths = extract_library_paths(LIBRARY_FOLDERS).expect("paths");
    assert_eq!(
        paths,
        vec![r"C:\Program Files (x86)\Steam".to_string(), r"D:\SteamLibrary".to_string()]
    );
}

#[test]
fn no_paths_gives_none() {
    assert_eq!(extract_library_paths(r#""libraryfolders" { "0" { "label" "x" } }"#), None);
    assert_eq!(extract_library_paths(r#""libraryfolders" "just a string""#), None);
}

#[test]
fn unparsable_text_gives_none() {
    assert_eq!(extract_library_paths("\"libraryfolders\" {"), None);
}

#[test]
fn repeated_path_keys_all_count() {
    let text = r#""root" { "a" { "path" "one" "Path" "two" } "b" "plain" }"#;
    let paths = extract_library_paths(text).expect("paths");
    // The parser keeps an object's keys sorted: "Path" comes before "path".
    assert_eq!(paths, vec!["two".to_string(), "one".to_string()]);
}

#[test]
fn doubled_backslashes_collapse_left_to_right() {
    assert_eq!(collapse_double_backslashes(r"a\\b"), r"a\b");
    assert_eq!(collapse_double_backslashes(r"a\\\b"), r"a\\b");
    assert_eq!(collapse_double_backslashes(r"\\\\"), r"\\");
    assert_eq!(collapse_double_backslashes(r"\"), r"\");
    assert_eq!(collapse_double_backslashes(""), "");
}
