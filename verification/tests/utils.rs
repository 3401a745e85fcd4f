use latpr::utils::text::contains_nul;
use latpr::utils::{
    config_value, error_string, get_basename_str, privdrop, read_config, read_config_line,
    string_from_u8, urldecodable, urldecode, ConfigLine, DropPlan, IdentityChange, LogLevel,
    LogRecord, Severity, UtilError, API_VERSION, LOG,
};

#[test]
fn urldecode_keeps_plain_text() {
    assert_eq!(urldecode(""), "");
    assert_eq!(urldecode("abc/def?x=1"), "abc/def?x=1");
}

#[test]
fn urldecode_replaces_escapes() {
    assert_eq!(urldecode("a%20b"), "a b");
    assert_eq!(urldecode("%41%42%43"), "ABC");
    assert_eq!(urldecode("%2f%2F"), "//");
    assert_eq!(urldecode("100%25"), "100%");
    assert_eq!(urldecode("%00"), "\0");
}

#[test]
fn urldecode_reads_a_byte_as_a_code_point() {
    assert_eq!(urldecode("%e9"), "\u{e9}");
    assert_eq!(urldecode("%FF"), "\u{ff}");
    assert_eq!(urldecode("%c3%a9"), "\u{c3}\u{a9}");
}

#[test]
fn urldecode_takes_a_plus_and_one_digit() {
    assert_eq!(urldecode("%+a"), "\n");
    assert_eq!(urldecode("%+0x"), "\0x");
}

#[test]
fn urldecode_does_not_decode_twice() {
    assert_eq!(urldecode("%2541"), "%41");
}

#[test]
fn string_from_u8_reads_utf8() {
    assert_eq!(string_from_u8(b"hello"), Ok(String::from("hello")));
    assert_eq!(string_from_u8(&[]), Ok(String::new()));
    assert_eq!(string_from_u8(&[0xc3, 0xa9]), Ok(String::from("\u{e9}")));
    assert_eq!(
        string_from_u8("\u{20ac}\u{1f600}".as_bytes()),
        Ok(String::from("\u{20ac}\u{1f600}"))
    );
}

#[test]
fn string_from_u8_refuses_what_is_not_utf8() {
    assert_eq!(string_from_u8(&[0xff]), Err(UtilError::InvalidUtf8));
    assert_eq!(string_from_u8(&[0xc3]), Err(UtilError::InvalidUtf8));
    assert_eq!(string_from_u8(&[0x61, 0x80]), Err(UtilError::InvalidUtf8));
    assert_eq!(string_from_u8(&[0xed, 0xa0, 0x80]), Err(UtilError::InvalidUtf8));
    assert_eq!(string_from_u8(&[0xc0, 0x80]), Err(UtilError::InvalidUtf8));
}

fn entry(name: &str, value: &str) -> ConfigLine {
    ConfigLine::Entry(String::from(name), String::from(value))
}

fn lines(text: &[&str]) -> Vec<String> {
    text.iter().map(|line| String::from(*line)).collect()
}

fn pairs(text: &[(&str, &str)]) -> Vec<(String, String)> {
    text.iter()
        .map(|(name, value)| (String::from(*name), String::from(*value)))
        .collect()
}

#[test]
fn a_config_line_gives_a_name_and_a_value() {
    assert_eq!(read_config_line("key=value"), entry("key", "value"));
    assert_eq!(read_config_line("name = value"), entry("name", "value"));
    assert_eq!(
        read_config_line("  socket  =  \"/var/run/tunnel.sock\"  "),
        entry("socket", "/var/run/tunnel.sock")
    );
    assert_eq!(read_config_line("a = b = c"), entry("a", "b = c"));
    assert_eq!(
        read_config_line("url = http://h/?q=1"),
        entry("url", "http://h/?q=1")
    );
    assert_eq!(read_config_line("empty = "), entry("empty", ""));
    assert_eq!(read_config_line("empty="), entry("empty", ""));
    assert_eq!(
        read_config_line("quotes = \"\"a\"b\"\""),
        entry("quotes", "a\"b")
    );
    assert_eq!(read_config_line("name = \"x y\""), entry("name", "x y"));
    assert_eq!(
        read_config_line("inner = \" spaced \""),
        entry("inner", " spaced ")
    );
    assert_eq!(
        read_config_line("caf\u{e9}=cr\u{e8}me\u{3000}"),
        entry("caf\u{e9}", "cr\u{e8}me")
    );
    assert_eq!(read_config_line("x=1"), entry("x", "1"));
}

#[test]
fn a_line_that_begins_with_its_sign_has_an_empty_name() {
    assert_eq!(read_config_line("=1"), entry("", "1"));
    assert_eq!(read_config_line(" = name"), entry("", "name"));
}

#[test]
fn comments_and_plain_lines_say_nothing() {
    assert_eq!(read_config_line(""), ConfigLine::Nothing);
    assert_eq!(read_config_line("   "), ConfigLine::Nothing);
    assert_eq!(read_config_line("# a comment"), ConfigLine::Nothing);
    assert_eq!(read_config_line("  \t# name = value"), ConfigLine::Nothing);
    assert_eq!(read_config_line("#=1"), ConfigLine::Nothing);
    assert_eq!(read_config_line("no sign here"), ConfigLine::Nothing);
    assert_eq!(read_config_line("foo"), ConfigLine::Nothing);
}

#[test]
fn a_config_line_is_read_as_std_splits_and_trims_it() {
    for line in [
        "key=value",
        "name = value",
        "\tpath =  \"/a/b\" ",
        " k  =\"\"",
        "a = \"b\" c\"",
        "   spaced name   = v",
        "x = \u{2003}wide\u{2003}",
        "\u{a0}y\u{a0}=\u{2028}z\u{85}",
        "y = \"",
        "z = = =",
        "=",
    ] {
        let (name, value) = line.split_once('=').unwrap();
        assert_eq!(
            read_config_line(line),
            entry(name.trim(), value.trim().trim_matches('"'))
        );
    }
}

#[test]
fn a_config_file_of_one_line() {
    assert_eq!(read_config(&lines(&["key=value"])), pairs(&[("key", "value")]));
    assert_eq!(read_config(&Vec::new()), vec![]);
}

#[test]
fn a_config_file_gives_each_name_once_and_the_later_line_wins() {
    let entries = read_config(&lines(&[
        "a = b",
        "# c = d",
        "",
        "foo",
        "name = \"x y\"",
        "url = http://h/?q=1",
        "a = z",
    ]));
    assert_eq!(
        entries,
        pairs(&[("a", "z"), ("name", "x y"), ("url", "http://h/?q=1")])
    );
    assert_eq!(entries.len(), 3);
    assert_eq!(config_value(&entries, &String::from("a")), Some(&String::from("z")));
    assert_eq!(
        config_value(&entries, &String::from("name")),
        Some(&String::from("x y"))
    );
    assert_eq!(
        config_value(&entries, &String::from("url")),
        Some(&String::from("http://h/?q=1"))
    );
    assert_eq!(config_value(&entries, &String::from("c")), None);
    assert_eq!(config_value(&entries, &String::from("foo")), None);
}

#[test]
fn a_config_file_is_the_map_of_its_lines() {
    let text = lines(&[
        "one = 1",
        "two = 2",
        "one = uno",
        "three=3",
        "# two = zwei",
        "two = \"dos\"",
        "three = 3",
        "one = 1",
    ]);
    let entries = read_config(&text);
    let mut map = std::collections::HashMap::new();
    for line in &text {
        if let ConfigLine::Entry(name, value) = read_config_line(line) {
            map.insert(name, value);
        }
    }
    assert_eq!(entries.len(), map.len());
    for (name, value) in &entries {
        assert_eq!(map.get(name), Some(value));
        assert_eq!(config_value(&entries, name), Some(value));
    }
    assert_eq!(
        entries,
        pairs(&[("one", "1"), ("two", "dos"), ("three", "3")])
    );
}

#[test]
fn log_prepares_the_entry() {
    assert_eq!(API_VERSION, "0.1.0");
    assert_eq!(
        LOG::log(":error@[src/main.rs:10]: ", &LogLevel::ERROR, "it broke"),
        Ok(LogRecord {
            severity: Severity::Error,
            format: String::from("antd-tunnel(v0.1.0):error@[src/main.rs:10]: %s\n"),
            message: String::from("it broke"),
        })
    );
    assert_eq!(
        LOG::log("", &LogLevel::WARN, "").unwrap(),
        LogRecord {
            severity: Severity::Warning,
            format: String::from("antd-tunnel(v0.1.0)%s\n"),
            message: String::new(),
        }
    );
    assert_eq!(
        LOG::log(":info: ", &LogLevel::INFO, "fine").unwrap().severity,
        Severity::Notice
    );
}

#[test]
fn levels_map_to_severities() {
    assert_eq!(LogLevel::ERROR.severity(), Severity::Error);
    assert_eq!(LogLevel::WARN.severity(), Severity::Warning);
    assert_eq!(LogLevel::INFO.severity(), Severity::Notice);
}

#[test]
fn log_refuses_a_nul_character() {
    assert_eq!(
        LOG::log("a\0b", &LogLevel::INFO, "fine"),
        Err(UtilError::InteriorNul)
    );
    assert_eq!(
        LOG::log("prefix", &LogLevel::INFO, "not\0fine"),
        Err(UtilError::InteriorNul)
    );
    assert_eq!(
        LOG::log("prefix", &LogLevel::INFO, "\0"),
        Err(UtilError::InteriorNul)
    );
}

#[test]
fn privdrop_changes_the_group_before_the_user() {
    let user = String::from("maint");
    let group = String::from("staff");
    assert_eq!(
        privdrop(Some(&user), Some(&group)),
        DropPlan {
            changes: vec![
                IdentityChange::Group(String::from("staff")),
                IdentityChange::User(String::from("maint")),
            ],
            outcome: Ok(()),
        }
    );
    assert_eq!(
        privdrop(Some(&user), None),
        DropPlan { changes: vec![IdentityChange::User(String::from("maint"))], outcome: Ok(()) }
    );
    assert_eq!(
        privdrop(None, Some(&group)),
        DropPlan { changes: vec![IdentityChange::Group(String::from("staff"))], outcome: Ok(()) }
    );
}

#[test]
fn privdrop_needs_a_user_or_a_group() {
    assert_eq!(
        privdrop(None, None),
        DropPlan { changes: vec![], outcome: Err(UtilError::NoIdentity) }
    );
}

#[test]
fn privdrop_with_a_bad_group_name_changes_nothing() {
    let user = String::from("root");
    let group = String::from("g\0x");
    assert_eq!(
        privdrop(Some(&user), Some(&group)),
        DropPlan { changes: vec![], outcome: Err(UtilError::BadGroupName) }
    );
    assert_eq!(
        privdrop(None, Some(&group)),
        DropPlan { changes: vec![], outcome: Err(UtilError::BadGroupName) }
    );
    let bad_user = String::from("\0");
    assert_eq!(
        privdrop(Some(&bad_user), Some(&group)),
        DropPlan { changes: vec![], outcome: Err(UtilError::BadGroupName) }
    );
}

#[test]
fn privdrop_with_a_bad_user_name_stops_behind_the_group() {
    let user = String::from("ro\0ot");
    let group = String::from("staff");
    assert_eq!(
        privdrop(Some(&user), Some(&group)),
        DropPlan {
            changes: vec![IdentityChange::Group(String::from("staff"))],
            outcome: Err(UtilError::BadUserName),
        }
    );
    assert_eq!(
        privdrop(Some(&user), None),
        DropPlan { changes: vec![], outcome: Err(UtilError::BadUserName) }
    );
}

#[test]
fn contains_nul_finds_the_character() {
    assert!(!contains_nul(""));
    assert!(!contains_nul("plain"));
    assert!(contains_nul("\0"));
    assert!(contains_nul("a\0"));
    assert!(contains_nul("caf\u{e9}\0x"));
}

#[test]
fn the_basename_is_the_last_component() {
    assert_eq!(get_basename_str(b"/usr/bin/env", true), Some("env"));
    assert_eq!(get_basename_str(b"tmp/foo.txt", true), Some("foo.txt"));
    assert_eq!(get_basename_str(b"foo.txt", true), Some("foo.txt"));
    assert_eq!(get_basename_str(b"/usr/bin/", true), Some("bin"));
    assert_eq!(get_basename_str(b"foo.txt/.", true), Some("foo.txt"));
    assert_eq!(get_basename_str(b"foo.txt/.//", true), Some("foo.txt"));
    assert_eq!(get_basename_str(b"./a", true), Some("a"));
    assert_eq!(get_basename_str(b"a/...", true), Some("..."));
    assert_eq!(get_basename_str(b"a/.b", true), Some(".b"));
    assert_eq!(get_basename_str("d/caf\u{e9}".as_bytes(), true), Some("caf\u{e9}"));
}

#[test]
fn some_paths_have_no_basename() {
    assert_eq!(get_basename_str(b"", true), None);
    assert_eq!(get_basename_str(b"/", true), None);
    assert_eq!(get_basename_str(b"//", true), None);
    assert_eq!(get_basename_str(b".", true), None);
    assert_eq!(get_basename_str(b"./.", true), None);
    assert_eq!(get_basename_str(b"..", true), None);
    assert_eq!(get_basename_str(b"foo.txt/..", true), None);
    assert_eq!(get_basename_str(b"a/../", true), None);
    assert_eq!(get_basename_str(b"/.", true), None);
}

#[test]
fn a_path_that_does_not_exist_has_no_basename() {
    assert_eq!(get_basename_str(b"/usr/bin/env", false), None);
    assert_eq!(get_basename_str(b"foo.txt", false), None);
}

#[test]
fn a_basename_that_is_not_utf8_is_no_text() {
    assert_eq!(get_basename_str(&[b'a', b'/', 0xff, 0xfe], true), None);
    assert_eq!(get_basename_str(&[0xff, b'/', b'a'], true), Some("a"));
}

#[test]
fn the_basename_is_what_std_takes_for_the_file_name() {
    let parts = ["", "/", "//", ".", "..", "a", "b.c", ".h", "...", "/.", "./", "/..", "x y"];
    for first in parts {
        for second in parts {
            for third in parts {
                let path = format!("{}{}{}", first, second, third);
                let expected = std::path::Path::new(&path)
                    .file_name()
                    .and_then(|name| name.to_str());
                assert_eq!(get_basename_str(path.as_bytes(), true), expected, "{:?}", path);
                assert_eq!(get_basename_str(path.as_bytes(), false), None);
            }
        }
    }
}

#[test]
fn urldecodable_accepts_what_urldecode_takes() {
    for url in ["", "abc", "a%20b", "%41%42", "%+a", "100%25", "%ff%FF%0a", "a+b%2B"] {
        assert!(urldecodable(url), "{:?}", url);
    }
}

#[test]
fn urldecodable_refuses_broken_escapes() {
    for url in ["%", "%4", "abc%", "abc%1", "%zz", "%4g", "%-1", "%++", "%1+", "% 1", "%%41"] {
        assert!(!urldecodable(url), "{:?}", url);
    }
}

#[test]
fn urldecodable_refuses_text_that_is_not_ascii() {
    assert!(!urldecodable("caf\u{e9}"));
    assert!(!urldecodable("%41\u{20ac}"));
}

#[test]
fn urldecodable_agrees_with_the_parser_of_std() {
    for left in 0u8..128 {
        for right in 0u8..128 {
            let digits: String = [left as char, right as char].iter().collect();
            let url = format!("%{}", digits);
            match u8::from_str_radix(&digits, 16) {
                Ok(byte) => {
                    assert!(urldecodable(&url), "{:?}", url);
                    assert_eq!(urldecode(&url), (byte as char).to_string());
                }
                Err(_) => assert!(!urldecodable(&url), "{:?}", url),
            }
        }
    }
}

#[test]
fn error_string_gives_the_text_if_there_is_one() {
    assert_eq!(error_string(Some(String::from("it broke"))), "it broke");
    assert_eq!(error_string(Some(String::new())), "");
    assert_eq!(error_string(None), "Unknown error type");
}

#[test]
fn an_error_of_a_helper_says_what_is_wrong() {
    assert_eq!(
        UtilError::InvalidUtf8.to_string(),
        "str_from_u8: Unknown error type"
    );
    assert_eq!(
        UtilError::BadGroupName.to_string(),
        "Cannot create CString from String (group)!"
    );
    assert_eq!(
        UtilError::BadUserName.to_string(),
        "Cannot create CString from String (user)!"
    );
    assert_eq!(
        UtilError::InteriorNul.to_string(),
        "nul byte found in provided data"
    );
    assert_eq!(UtilError::NoIdentity.to_string(), "No user or group found!");
}
