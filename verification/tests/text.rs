use myo::json::Json;
use myo::paths::{config_path, config_path_in, myo_dir, myo_dir_in};
use myo::text::{
    basename_chars, chars_of, decimal, eq_ignore_case_exec, find_exec, int_string, occurs_exec,
    parse_u32_chars, parse_u64_chars, replace_chars, split_chars, split_words, str_lt, trimmed,
};

fn cs(s: &str) -> Vec<char> {
    s.chars().collect()
}

#[test]
fn trimming_follows_unicode_white_space() {
    assert_eq!(trimmed("\u{3000} hi \t\n"), "hi");
    assert_eq!(trimmed("   "), "");
}

#[test]
fn numbers_print_and_parse() {
    assert_eq!(decimal(0), "0");
    assert_eq!(decimal(u64::MAX), "18446744073709551615");
    assert_eq!(int_string(-42), "-42");
    assert_eq!(int_string(i64::MIN), "-9223372036854775808");
    assert_eq!(parse_u32_chars(&cs("4294967295")), Some(u32::MAX));
    assert_eq!(parse_u32_chars(&cs("4294967296")), None);
    assert_eq!(parse_u64_chars(&cs("+7")), Some(7));
    assert_eq!(parse_u64_chars(&cs("")), None);
    assert_eq!(parse_u64_chars(&cs("1a")), None);
}

#[test]
fn order_and_case_folding() {
    assert!(str_lt("abc", "abd"));
    assert!(str_lt("ab", "abc"));
    assert!(!str_lt("b", "abc"));
    assert!(eq_ignore_case_exec("SHA256SUMS", "sha256sums"));
    assert!(!eq_ignore_case_exec("a", "ab"));
}

#[test]
fn searching_and_splitting() {
    assert!(occurs_exec(&cs("C:\\Program Files\\x"), &cs("\\program files\\"), true));
    assert!(!occurs_exec(&cs("C:\\Program Files\\x"), &cs("\\program files\\"), false));
    assert_eq!(find_exec(&cs("abcabc"), &cs("c"), 3), Some(5));
    assert_eq!(find_exec(&cs("abc"), &cs("z"), 0), None);
    assert_eq!(split_chars(&cs("a.b..c"), '.'), vec![cs("a"), cs("b"), cs(""), cs("c")]);
    assert_eq!(split_words(&cs("  one\ttwo \n three ")), vec![cs("one"), cs("two"), cs("three")]);
    assert_eq!(replace_chars(&cs("a&amp;b&amp;"), "&amp;", "&"), cs("a&b&"));
    assert_eq!(basename_chars(&cs("dist\\bin/myo.zip")), cs("myo.zip"));
    assert_eq!(chars_of("hé"), vec!['h', 'é']);
}

#[test]
fn state_lives_under_the_home_directory() {
    assert_eq!(myo_dir_in("/home/a"), "/home/a/.myo");
    assert_eq!(myo_dir_in("/home/a/"), "/home/a/.myo");
    assert_eq!(config_path_in("/home/a"), "/home/a/.myo/config.json");
    if let Ok(d) = myo_dir() {
        assert!(d.ends_with(".myo"));
    }
    if let Ok(p) = config_path() {
        assert!(p.ends_with(".myo/config.json"));
    }
}

#[test]
fn json_text_round_trips() {
    let v = Json::parse(r#"{"b":[1,-2,3.5,"x",null,true]}"#).unwrap();
    assert_eq!(v.to_text(), r#"{"b":[1,-2,3.5,"x",null,true]}"#);
    assert_eq!(Json::parse(&v.to_text()).unwrap(), v);
    assert!(v.to_pretty_text().contains('\n'));
    assert!(Json::parse("{").is_none());
    let arr = v.get("b").and_then(|b| b.as_array()).unwrap();
    assert_eq!(arr[0].as_u64(), Some(1));
    assert_eq!(arr[1].as_i64(), Some(-2));
    assert_eq!(arr[1].as_u64(), None);
    assert_eq!(arr[3].as_str(), Some("x"));
    assert_eq!(arr[5].as_bool(), Some(true));
    assert_eq!(Json::from_i64(-3), Json::NegInt(-3));
    assert_eq!(Json::from_i64(3), Json::PosInt(3));
    assert_eq!(v.duplicate(), v);
}

#[test]
fn json_lookup_finds_the_first_member() {
    let v = Json::Object(vec![
        ("k".to_string(), Json::PosInt(1)),
        ("k".to_string(), Json::PosInt(2)),
    ]);
    assert_eq!(v.get("k"), Some(&Json::PosInt(1)));
    assert_eq!(v.get("z"), None);
    assert_eq!(Json::Null.get("k"), None);
}

#[test]
fn parse_i64_agrees_with_str_parse() {
    for s in [
        "0", "-0", "+0", "42", "-42", "+42", "9223372036854775807", "9223372036854775808",
        "-9223372036854775808", "-9223372036854775809", "", "-", "+", "-+1", "+-1", "1-", " 1", "0x10",
        "00012", "-00012",
    ] {
        assert_eq!(myo::text::parse_i64_chars(&cs(s)), s.parse::<i64>().ok(), "{s:?}");
    }
}
