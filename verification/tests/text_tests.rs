use rustpp::constants::{
    errstr, ERR_FORMAT, ERR_IO, ERR_MORE, ERR_NOTIMPLEMENTED, ERR_OOM, ERR_SYNTAX, ERR_TRUNCATED,
    MODS_AP, MODS_DT, MODS_EZ, MODS_FL, MODS_HD, MODS_HR, MODS_HT, MODS_NC, MODS_NF, MODS_NOMOD, MODS_SO,
    MODS_PF, MODS_TD, OPPAI_VERSION_STRING,
};
use rustpp::escape::{escape_csv_str, escape_json_str};
use rustpp::mods::parse_mods;
use rustpp::text::{chars_to_string, parse_int, str_to_chars};

#[test]
fn errstr_names_every_code() {
    assert_eq!(errstr(ERR_MORE), "call me again with more data");
    assert_eq!(errstr(ERR_SYNTAX), "syntax error");
    assert_eq!(errstr(ERR_TRUNCATED), "data was truncated, possibly because it was too big");
    assert_eq!(errstr(ERR_NOTIMPLEMENTED), "requested a feature that isn't implemented");
    assert_eq!(errstr(ERR_IO), "i/o error");
    assert_eq!(errstr(ERR_FORMAT), "invalid input format");
    assert_eq!(errstr(ERR_OOM), "out of memory");
    assert_eq!(errstr(0), "unknown error");
    assert_eq!(errstr(200), "unknown error");
    assert_eq!(errstr(-8), "unknown error");
}

#[test]
fn version_string() {
    assert_eq!(OPPAI_VERSION_STRING, "4.1.0");
}

#[test]
fn parse_int_reads_signed_decimals() {
    assert_eq!(parse_int("14"), Some(14));
    assert_eq!(parse_int("  14 \t"), Some(14));
    assert_eq!(parse_int("-3"), Some(-3));
    assert_eq!(parse_int("+7"), Some(7));
    assert_eq!(parse_int("007"), Some(7));
    assert_eq!(parse_int("2147483647"), Some(i32::MAX));
    assert_eq!(parse_int("-2147483648"), Some(i32::MIN));
    assert_eq!(parse_int("\u{3000}42\u{a0}"), Some(42));
}

#[test]
fn parse_int_refuses_what_i32_parse_refuses() {
    for s in [
        "", "   ", "-", "+", "1.5", "12a", "a12", "--1", "+-1", "2147483648", "-2147483649",
        "99999999999999999999", "1 2", "\u{ff11}",
    ] {
        assert_eq!(parse_int(s), None, "{s:?}");
        assert_eq!(parse_int(s), s.trim().parse::<i32>().ok(), "{s:?}");
    }
}

#[test]
fn parse_int_agrees_with_std_on_samples() {
    for s in ["0", "-0", "+0", " 12 ", "\n-99\r", "1e3", "0x10", "１", "12\u{2003}", "\u{85}5"] {
        assert_eq!(parse_int(s), s.trim().parse::<i32>().ok(), "{s:?}");
    }
}

#[test]
fn chars_round_trip() {
    let s = "Yubi Bouenkyou \u{6307}\u{671b}";
    let v = str_to_chars(s);
    assert_eq!(v.len(), s.chars().count());
    assert_eq!(chars_to_string(&v), s);
}

#[test]
fn json_escaping() {
    assert_eq!(escape_json_str("plain"), "plain");
    assert_eq!(escape_json_str("a\"b"), "a\\\"b");
    assert_eq!(escape_json_str("back\\slash"), "back\\\\slash");
    assert_eq!(escape_json_str("l1\nl2\r\tend"), "l1\\nl2\\r\\tend");
    assert_eq!(escape_json_str(""), "");
    assert_eq!(escape_json_str("\u{3042};"), "\u{3042};");
}

#[test]
fn json_escaping_writes_other_control_characters_as_unicode_escapes() {
    assert_eq!(escape_json_str("\u{1}"), "\\u0001");
    assert_eq!(escape_json_str("\u{0}x\u{1f}"), "\\u0000x\\u001f");
    assert_eq!(escape_json_str("\u{8}\u{c}\u{1b}"), "\\u0008\\u000c\\u001b");
    assert_eq!(escape_json_str(" \u{7f}"), " \u{7f}");
    for u in 0u32..0x20 {
        let c = char::from_u32(u).unwrap();
        let out = escape_json_str(&c.to_string());
        assert!(out.starts_with('\\'));
        assert!(out.chars().all(|d| d as u32 >= 0x20));
    }
}

#[test]
fn json_escaping_stays_on_one_line() {
    let out = escape_json_str("a\nb\rc\td\"e\\");
    assert!(!out.contains('\n') && !out.contains('\r') && !out.contains('\t'));
    assert_eq!(out, "a\\nb\\rc\\td\\\"e\\\\");
}

#[test]
fn csv_escaping() {
    assert_eq!(escape_csv_str("a;b"), "a\\;b");
    assert_eq!(escape_csv_str("c:\\x"), "c:\\\\x");
    assert_eq!(escape_csv_str("no change \"here\""), "no change \"here\"");
    assert_eq!(escape_csv_str(""), "");
}

#[test]
fn csv_escaping_leaves_no_bare_separator() {
    let out = escape_csv_str(";;a;\\;");
    assert_eq!(out, "\\;\\;a\\;\\\\\\;");
    let chars: Vec<char> = out.chars().collect();
    for (i, c) in chars.iter().enumerate() {
        if *c == ';' {
            assert!(i > 0 && chars[i - 1] == '\\');
        }
    }
}

#[test]
fn parse_mods_reads_names_in_any_case() {
    assert_eq!(parse_mods("HDDT"), MODS_HD | MODS_DT);
    assert_eq!(parse_mods("hddt"), MODS_HD | MODS_DT);
    assert_eq!(parse_mods("HdHr"), MODS_HD | MODS_HR);
    assert_eq!(parse_mods("NOMOD"), MODS_NOMOD);
    assert_eq!(parse_mods(""), 0);
    assert_eq!(parse_mods("nfezfl"), MODS_NF | MODS_EZ | MODS_FL);
    assert_eq!(parse_mods("TDSO"), MODS_TD | MODS_SO);
    assert_eq!(parse_mods("HTNC"), MODS_HT | MODS_NC);
}

#[test]
fn parse_mods_skips_unknown_characters() {
    assert_eq!(parse_mods("XHD"), MODS_HD);
    assert_eq!(parse_mods("H D"), 0);
    assert_eq!(parse_mods("HD,DT"), MODS_HD | MODS_DT);
    assert_eq!(parse_mods("HHD"), MODS_HD);
    assert_eq!(parse_mods("NOMODHD"), MODS_HD);
    assert_eq!(parse_mods("DTDT"), MODS_DT);
}

#[test]
fn parse_mods_is_case_insensitive() {
    for s in ["hdhr", "HDHR", "hDhR", "ezhtnf", "EZHTNF", "xyz", "NoModFl"] {
        assert_eq!(parse_mods(s), parse_mods(&s.to_ascii_uppercase()));
        assert_eq!(parse_mods(s), parse_mods(&s.to_ascii_lowercase()));
    }
}

use rustpp::text::{is_whitespace, split_chars, split_once_chars, trim_chars, find_lit};

#[test]
fn whitespace_matches_char_is_whitespace() {
    for u in 0u32..=0x10ffff {
        if let Some(c) = char::from_u32(u) {
            assert_eq!(is_whitespace(c), c.is_whitespace(), "U+{u:04X}");
        }
    }
}

#[test]
fn trim_matches_str_trim() {
    for s in ["", "  ", " a ", "\t\r\nab c\u{2028}", "\u{feff}x\u{feff}", "x\u{85}", "\u{200b}y"] {
        let v: Vec<char> = s.chars().collect();
        let t: String = trim_chars(&v).into_iter().collect();
        assert_eq!(t, s.trim(), "{s:?}");
    }
}

#[test]
fn split_matches_str_split() {
    for s in ["", ",", "a,b,,c", ",a,", "no separator", "1,2,3,4,5,6,7,8,9"] {
        let v: Vec<char> = s.chars().collect();
        let pieces: Vec<String> = split_chars(&v, ',').into_iter().map(|p| p.into_iter().collect()).collect();
        let want: Vec<String> = s.split(',').map(|p| p.to_string()).collect();
        assert_eq!(pieces, want, "{s:?}");
    }
}

#[test]
fn split_once_matches_str_split_once() {
    for s in ["Title:A:B", ":x", "x:", "none", ""] {
        let v: Vec<char> = s.chars().collect();
        let got = split_once_chars(&v, ':').map(|(a, b)| (a.into_iter().collect::<String>(), b.into_iter().collect::<String>()));
        let want = s.split_once(':').map(|(a, b)| (a.to_string(), b.to_string()));
        assert_eq!(got, want, "{s:?}");
    }
}

#[test]
fn find_matches_str_find_on_ascii() {
    for s in ["osu file format v14", "file format v", "x file format", "", "file format vfile format v"] {
        let v: Vec<char> = s.chars().collect();
        assert_eq!(find_lit(&v, "file format v"), s.find("file format v"), "{s:?}");
    }
}

use rustpp::text::{push_dec_i32, push_dec_u64, push_str};

#[test]
fn decimals_read_back() {
    for x in [0, 7, -7, 10, 99, -100, 123456, i32::MAX, i32::MIN] {
        let mut s = String::new();
        push_dec_i32(&mut s, x);
        assert_eq!(s, x.to_string());
        assert_eq!(parse_int(&s), Some(x));
    }
    let mut s = String::from("n=");
    push_dec_u64(&mut s, u64::MAX);
    push_str(&mut s, ";");
    assert_eq!(s, format!("n={};", u64::MAX));
}

use rustpp::mods::mods_change_difficulty;

#[test]
fn mods_that_change_difficulty() {
    assert!(mods_change_difficulty(MODS_NOMOD, MODS_HR));
    assert!(mods_change_difficulty(MODS_HD | MODS_DT, MODS_HD));
    assert!(mods_change_difficulty(MODS_NC, MODS_DT));
    assert!(mods_change_difficulty(MODS_EZ, MODS_NOMOD));
    assert!(mods_change_difficulty(MODS_HT, MODS_NOMOD));
    assert!(!mods_change_difficulty(MODS_NOMOD, MODS_HD | MODS_FL | MODS_NF | MODS_SO | MODS_TD));
    assert!(!mods_change_difficulty(MODS_HR | MODS_DT, MODS_HR | MODS_DT | MODS_HD));
    assert!(!mods_change_difficulty(MODS_DT, MODS_DT));
    for a in [0u32, MODS_HR, MODS_DT | MODS_HD, MODS_EZ | MODS_HT] {
        for b in [0u32, MODS_HR, MODS_NC, MODS_FL] {
            assert_eq!(mods_change_difficulty(a, b), mods_change_difficulty(b, a));
        }
    }
}

#[test]
fn parse_mods_reads_a_run_of_names_as_their_union() {
    assert_eq!(parse_mods("HDHRDT"), 88);
    assert_eq!(parse_mods("hdHRdt"), 88);
    assert_eq!(parse_mods("NOMODHD"), MODS_HD);
    assert_eq!(parse_mods("APPFSO"), MODS_AP | MODS_PF | MODS_SO);
}

#[test]
fn escaped_csv_field_has_no_bare_separator() {
    let out: Vec<char> = escape_csv_str("\\;x;\\\\").chars().collect();
    assert_eq!(out.iter().collect::<String>(), "\\\\\\;x\\;\\\\\\\\");
    let mut i = 0;
    while i < out.len() {
        if out[i] == '\\' {
            assert!(i + 1 < out.len());
            i += 2;
        } else {
            assert_ne!(out[i], ';');
            i += 1;
        }
    }
}
