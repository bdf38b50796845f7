//! Text and numbers, next to what the standard library makes of them.

use ironclaw::json::Json;
use ironclaw::number::{
    i64_to_string, parse_u64, parse_usize, u128_to_hex, u64_to_string, usize_to_string,
};
use ironclaw::text::{
    chars_of, find_from, is_white_space, join, replace_all, sort_strings, split_char,
    str_contains, str_eq, str_less, string_of, strip_prefix, take_chars, trim,
};
use ironclaw::types::ids::{DocId, LeaseId, StepId};

const SAMPLES: [&str; 14] = [
    "",
    " ",
    "a",
    "aaaa",
    "ab,ab,,b",
    "  x y\t\n",
    "\u{a0}caf\u{e9}\u{3000}",
    "-_-",
    "tool_name-with_both",
    "<@123> hi",
    "\u{1f980} crab \u{1f980}",
    "Zebra",
    "zebra",
    "\u{feff}bom",
];

#[test]
fn white_space_is_that_of_unicode() {
    for c in '\u{0}'..=char::MAX {
        assert_eq!(is_white_space(c), c.is_whitespace(), "{c:?}");
    }
}

#[test]
fn texts_are_trimmed_and_searched() {
    for s in SAMPLES {
        assert_eq!(trim(s), s.trim());
        let chars = chars_of(s);
        assert_eq!(chars, s.chars().collect::<Vec<char>>());
        assert_eq!(string_of(&chars, 0, chars.len()), s);
        for p in SAMPLES {
            assert_eq!(str_eq(s, p), s == p);
            assert_eq!(str_contains(s, p), s.contains(p), "{s:?} {p:?}");
            assert_eq!(strip_prefix(s, p), s.strip_prefix(p));
            assert_eq!(str_less(s, p), s < p, "{s:?} {p:?}");
            let found = find_from(&chars, &chars_of(p), 0);
            assert_eq!(found, s.find(p).map(|i| s[..i].chars().count()));
        }
    }
}

#[test]
fn texts_are_replaced_split_and_cut() {
    for s in SAMPLES {
        for from in ["", "a", "aa", "ab", "_", "\u{1f980}", "x y"] {
            for to in ["", "b", "aa", "-"] {
                assert_eq!(replace_all(s, from, to), s.replace(from, to), "{s:?} {from:?}");
            }
        }
        for sep in [',', ' ', '\u{1f980}'] {
            let parts: Vec<String> = s.split(sep).map(String::from).collect();
            assert_eq!(split_char(s, sep), parts);
            assert_eq!(join(&parts, &sep.to_string()), s);
        }
        for n in 0..6 {
            assert_eq!(take_chars(s, n), s.chars().take(n).collect::<String>());
        }
    }
}

#[test]
fn texts_are_sorted() {
    let texts: Vec<String> = SAMPLES.iter().map(|s| s.to_string()).collect();
    let mut expected = texts.clone();
    expected.sort();
    assert_eq!(sort_strings(&texts), expected);
}

#[test]
fn numbers_are_written_and_read() {
    for n in [0, 1, 9, 10, 99, 255, 4096, 65_535, u64::MAX - 1, u64::MAX] {
        assert_eq!(u64_to_string(n), n.to_string());
        assert_eq!(usize_to_string(n as usize), (n as usize).to_string());
        assert_eq!(u128_to_hex(u128::from(n)), format!("{n:x}"));
        assert_eq!(parse_u64(&n.to_string()), Some(n));
    }
    for n in [0, -1, 1, i64::MIN, i64::MAX, -42] {
        assert_eq!(i64_to_string(n), n.to_string());
    }
    assert_eq!(u128_to_hex(u128::MAX), format!("{:x}", u128::MAX));
    for s in [
        "", "+", "-", "+7", "-7", "007", "12a", " 1", "1 ", "18446744073709551615",
        "18446744073709551616", "99999999999999999999999", "++1", "\u{661}", "1_000",
    ] {
        assert_eq!(parse_u64(s), s.parse::<u64>().ok(), "{s:?}");
        assert_eq!(parse_usize(s), s.parse::<usize>().ok(), "{s:?}");
    }
}

#[test]
fn identities_are_written_as_uuids() {
    let n: u128 = 0x0123_4567_89ab_cdef_0123_4567_89ab_cdef;
    let written = "01234567-89ab-cdef-0123-456789abcdef";
    assert_eq!(DocId(n).text(), written);
    assert_eq!(StepId(n).text(), written);
    assert_eq!(LeaseId(n).text(), format!("LeaseId({written})"));
    assert_eq!(DocId::parse(written), Some(DocId(n)));
    assert_eq!(DocId::parse("0123456789abcdef0123456789abcdef"), Some(DocId(n)));
    assert_eq!(DocId::parse("not-a-uuid"), None);
}

#[test]
fn fields_are_kept_in_the_order_of_their_names() {
    let mut j = Json::Object(vec![]);
    for (k, n) in [("m", 1u64), ("z", 2), ("a", 3), ("m", 4), ("Z", 5), ("ma", 6)] {
        j.set(k, Json::Uint(n));
    }
    let field = |k: &str, n: u64| (k.to_string(), Json::Uint(n));
    assert_eq!(
        j,
        Json::Object(vec![
            field("Z", 5),
            field("a", 3),
            field("m", 4),
            field("ma", 6),
            field("z", 2),
        ])
    );
}

#[test]
fn fields_are_set_and_removed() {
    let mut j = Json::Object(vec![("b".into(), Json::Uint(1))]);
    j.set("a", Json::Bool(true));
    j.set("b", Json::Uint(2));
    assert_eq!(j.get("a"), Some(&Json::Bool(true)));
    assert_eq!(j.u64_field("b"), Some(2));
    j.unset("b");
    assert_eq!(j, Json::Object(vec![("a".into(), Json::Bool(true))]));
    j.unset("missing");
    assert_eq!(j.bool_field("a"), Some(true));
    let mut other = Json::Null;
    other.set("a", Json::Null);
    assert_eq!(other, Json::Null);
}
