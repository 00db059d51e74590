use tui_runner::header::header_lines;
use tui_runner::paths::{file_name_of, join, parent_of, rtrim_slash_str};
use tui_runner::text::{
    contains_str, decimal_string, ends_with_str, join_strings, lines_of, parse_unsigned_str,
    replace_str, split_char, split_whitespace, starts_with_str, str_eq, strip_prefixes_str,
    trim_str,
};
use tui_runner::vars::{subst_args, subst_str, VarMap};

fn s(x: &str) -> String {
    x.to_string()
}

#[test]
fn trims_unicode_whitespace() {
    assert_eq!(trim_str("  \t hi there \n"), "hi there");
    assert_eq!(trim_str("\u{3000}x\u{a0}"), "x");
    assert_eq!(trim_str("   "), "");
}

#[test]
fn splits_like_std() {
    assert_eq!(split_char("a,,b", ','), vec![s("a"), s(""), s("b")]);
    assert_eq!(split_char("", ','), vec![s("")]);
    assert_eq!(split_whitespace("  run  dev \t x "), vec![s("run"), s("dev"), s("x")]);
    assert!(split_whitespace("   ").is_empty());
    assert_eq!(lines_of("a\r\nb\n\nc\n"), vec![s("a"), s("b"), s(""), s("c")]);
    assert_eq!(lines_of("x\r"), vec![s("x\r")]);
    assert!(lines_of("").is_empty());
}

#[test]
fn searches_text() {
    assert!(contains_str("sdk: flutter", "flutter"));
    assert!(!contains_str("flut", "flutter"));
    assert!(contains_str("abc", ""));
    assert!(starts_with_str("id  name", "id"));
    assert!(ends_with_str("App.csproj", ".csproj"));
    assert!(!ends_with_str("csproj", ".csproj"));
    assert!(str_eq("a", "a"));
    assert!(!str_eq("a", "b"));
}

#[test]
fn joins_and_replaces() {
    assert_eq!(join_strings(&vec![s("a"), s("b"), s("c")], ", "), "a, b, c");
    assert_eq!(join_strings(&vec![], ", "), "");
    assert_eq!(replace_str("-DartifactId={name}", "{name}", "demo"), "-DartifactId=demo");
    assert_eq!(replace_str("{name}{name}", "{name}", "x"), "xx");
    assert_eq!(strip_prefixes_str("http://http://a/b", "http://"), "a/b");
}

#[test]
fn decimal_numbers() {
    assert_eq!(decimal_string(0), "0");
    assert_eq!(decimal_string(8080), "8080");
    assert_eq!(decimal_string(u64::MAX), u64::MAX.to_string());
    assert_eq!(parse_unsigned_str("+42", 65535), Some(42));
    assert_eq!(parse_unsigned_str("65536", 65535), None);
    assert_eq!(parse_unsigned_str("65535", 65535), Some(65535));
    assert_eq!(parse_unsigned_str("-1", 65535), None);
    assert_eq!(parse_unsigned_str("", 65535), None);
    assert_eq!(parse_unsigned_str("+", 65535), None);
    assert_eq!(parse_unsigned_str("12a", 65535), None);
    assert_eq!(parse_unsigned_str("18446744073709551615", u64::MAX), Some(u64::MAX));
    assert_eq!(parse_unsigned_str("18446744073709551616", u64::MAX), None);
}

#[test]
fn path_joining_like_unix_std() {
    assert_eq!(join("/home/me", "tui.config.json", false), "/home/me/tui.config.json");
    assert_eq!(join("/home/me/", "x", false), "/home/me/x");
    assert_eq!(join("", "x", false), "x");
    assert_eq!(join("/a", "/etc", false), "/etc");
    assert_eq!(join("a", "", false), "a/");
}

#[test]
fn path_parents_and_names() {
    assert_eq!(parent_of("/a/b", false), Some(s("/a")));
    assert_eq!(parent_of("/a/b/", false), Some(s("/a")));
    assert_eq!(parent_of("/a", false), Some(s("/")));
    assert_eq!(parent_of("/", false), None);
    assert_eq!(parent_of("", false), None);
    assert_eq!(parent_of("a", false), Some(s("")));
    assert_eq!(file_name_of("/a/b", false), Some(s("b")));
    assert_eq!(file_name_of("/a/b/", false), Some(s("b")));
    assert_eq!(file_name_of("/a/..", false), None);
    assert_eq!(file_name_of(".", false), None);
    assert_eq!(file_name_of("/", false), None);
    assert_eq!(file_name_of("a/.", false), Some(s("a")));
    assert_eq!(rtrim_slash_str("src//"), "src");
}

#[test]
fn header_box_is_uppercased_and_aligned() {
    let h = header_lines("demo");
    assert_eq!(h, vec![s("+--------+"), s("|  DEMO  |"), s("+--------+")]);
    let e = header_lines("");
    assert_eq!(e, vec![s("+----+"), s("|    |"), s("+----+")]);
    let u = header_lines("straße");
    assert_eq!(u[1], "|  STRASSE  |");
    assert_eq!(u[0].chars().count(), u[1].chars().count());
}

#[test]
fn var_map_read_after_write() {
    let mut m = VarMap::new();
    assert_eq!(m.get("a"), None);
    m.insert(s("a"), s("1"));
    m.insert(s("b"), s("2"));
    m.insert(s("a"), s("3"));
    assert_eq!(m.get("a"), Some(s("3")));
    assert_eq!(m.get("b"), Some(s("2")));
    assert_eq!(m.to_pairs().len(), 2);
    let mut other = VarMap::new();
    other.insert(s("b"), s("9"));
    other.insert(s("c"), s("4"));
    m.extend(&other);
    assert_eq!(m.get("b"), Some(s("9")));
    assert_eq!(m.get("c"), Some(s("4")));
    assert_eq!(m.get("a"), Some(s("3")));
    let from = VarMap::from_pairs(vec![(s("k"), s("1")), (s("k"), s("2"))]);
    assert_eq!(from.get("k"), Some(s("2")));
}

#[test]
fn substitutes_placeholders() {
    let mut m = VarMap::new();
    m.insert(s("emulatorId"), s("Pixel_7"));
    assert_eq!(subst_str("{emulatorId}", &m), "Pixel_7");
    assert_eq!(subst_str("x-{emulatorId}-y", &m), "x-Pixel_7-y");
    assert_eq!(subst_str("{unknown}", &m), "{unknown}");
    assert_eq!(subst_str("{a{emulatorId}", &m), "{aPixel_7");
    assert_eq!(subst_str("{ {emulatorId}", &m), "{ Pixel_7");
    assert_eq!(subst_str("no close {", &m), "no close {");
    assert_eq!(subst_str("héllo {emulatorId}", &m), "héllo Pixel_7");
    let empty = VarMap::new();
    assert_eq!(subst_str("{x} stays", &empty), "{x} stays");
    assert_eq!(
        subst_args(&vec![s("emulators"), s("--launch"), s("{emulatorId}")], &m),
        vec![s("emulators"), s("--launch"), s("Pixel_7")]
    );
}

#[test]
fn windows_paths() {
    assert_eq!(join("C:\\proj", "D:\\data", true), "D:\\data");
    assert_eq!(join("C:\\proj", "sub", true), "C:\\proj\\sub");
    assert_eq!(join("C:\\proj\\", "sub", true), "C:\\proj\\sub");
    assert_eq!(join("C:/proj", "sub", true), "C:/proj\\sub");
    assert_eq!(join("C:", "sub", true), "C:sub");
    assert_eq!(join("C:\\proj", "\\x", true), "C:\\x");
    assert_eq!(join("proj", "/x", true), "/x");
    assert_eq!(join("a\\b", "c", false), "a\\b/c");
    assert_eq!(parent_of("C:\\", true), None);
    assert_eq!(parent_of("C:", true), None);
    assert_eq!(parent_of("C:\\a", true), Some(s("C:\\")));
    assert_eq!(parent_of("C:\\a\\b\\", true), Some(s("C:\\a")));
    assert_eq!(parent_of("C:a", true), Some(s("C:")));
    assert_eq!(parent_of("a\\b", true), Some(s("a")));
    assert_eq!(parent_of("a\\b", false), Some(s("")));
    assert_eq!(file_name_of("C:\\work\\shop", true), Some(s("shop")));
    assert_eq!(file_name_of("C:\\a/b\\", true), Some(s("b")));
    assert_eq!(file_name_of("C:", true), None);
    assert_eq!(file_name_of("C:\\", true), None);
    assert_eq!(file_name_of("C:\\work\\shop", false), Some(s("C:\\work\\shop")));
}
