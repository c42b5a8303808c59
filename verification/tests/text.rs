use flow_farm::number::{push_decimal, read_i32, read_u16};
use flow_farm::text::{
    chars_of, contains_chars, find, lines_of, split_chars, split_on, starts_with, str_contains,
    str_eq, string_of, strip_chars, trim_chars, whitespace, words_of, CharClass,
};

fn cs(s: &str) -> Vec<char> {
    s.chars().collect()
}

fn texts(rows: Vec<Vec<char>>) -> Vec<String> {
    rows.into_iter().map(|r| r.into_iter().collect()).collect()
}

#[test]
fn chars_and_strings_convert_both_ways() {
    assert_eq!(chars_of("a保b"), vec!['a', '保', 'b']);
    assert_eq!(string_of(&vec!['a', '保', 'b']), "a保b");
    assert_eq!(string_of(&Vec::new()), "");
    assert!(chars_of("").is_empty());
}

#[test]
fn contains_agrees_with_the_standard_library() {
    let hays = ["", "a", "abc", "aaa", "保存联系人", "abcabc", "ab"];
    let needles = ["", "a", "bc", "abc", "abcd", "aa", "保存", "存联", "人a", "cab"];
    for h in hays {
        for n in needles {
            assert_eq!(str_contains(h, n), h.contains(n), "{:?} in {:?}", n, h);
            assert_eq!(contains_chars(&cs(h), &cs(n)), h.contains(n));
        }
    }
}

#[test]
fn find_gives_the_first_index_in_characters() {
    assert_eq!(find(&cs("abcabc"), &cs("bc"), 0), Some(1));
    assert_eq!(find(&cs("abcabc"), &cs("bc"), 2), Some(4));
    assert_eq!(find(&cs("abcabc"), &cs("bc"), 5), None);
    assert_eq!(find(&cs("保存联系人"), &cs("联系"), 0), Some(2));
    assert_eq!(find(&cs("abc"), &cs(""), 3), Some(3));
    assert_eq!(find(&cs("abc"), &cs(""), 4), None);
}

#[test]
fn equality_and_prefix() {
    assert!(str_eq("设备", "设备"));
    assert!(!str_eq("设备", "设"));
    assert!(!str_eq("a", "b"));
    assert!(starts_with(&cs("+8613"), &cs("+86")));
    assert!(!starts_with(&cs("+8"), &cs("+86")));
    assert!(starts_with(&cs("x"), &cs("")));
}

#[test]
fn whitespace_agrees_with_the_standard_library() {
    for code in 0u32..0x3100 {
        if let Some(c) = char::from_u32(code) {
            assert_eq!(whitespace(c), c.is_whitespace(), "U+{:04X}", code);
        }
    }
    assert!(!whitespace('\u{FEFF}'));
    assert!(!whitespace('\u{200B}'));
}

#[test]
fn trim_agrees_with_the_standard_library() {
    for s in ["", " ", "  a  ", "\t\r\n x y \u{3000}", "a", "\u{a0}b\u{2003}", " \n "] {
        let got: String = trim_chars(&cs(s)).into_iter().collect();
        assert_eq!(got, s.trim(), "{:?}", s);
    }
}

#[test]
fn strip_brackets_agrees_with_the_standard_library() {
    for s in ["", "[", "[]", "[[a]b]]", "a[b]c", "][", "[1,2][3,4]"] {
        let got: String = strip_chars(&cs(s), CharClass::Brackets).into_iter().collect();
        assert_eq!(got, s.trim_matches(['[', ']']), "{:?}", s);
    }
}

#[test]
fn split_on_a_character_agrees_with_the_standard_library() {
    for s in ["", ",", "a", "a,b", ",a,,b,", "保,存", "a,b,c,d,e,f"] {
        let expected: Vec<String> = s.split(',').map(|p| p.to_string()).collect();
        assert_eq!(texts(split_on(&cs(s), ',')), expected, "{:?}", s);
    }
}

#[test]
fn split_on_a_text_agrees_with_the_standard_library() {
    for s in ["", "][", "a][b", "a][b][c", "]][[", "a]b[c", "][][", "]["] {
        let expected: Vec<String> = s.split("][").map(|p| p.to_string()).collect();
        assert_eq!(texts(split_chars(&cs(s), &cs("]["))), expected, "{:?}", s);
    }
    let expected: Vec<String> = "aaaa".split("aa").map(|p| p.to_string()).collect();
    assert_eq!(texts(split_chars(&cs("aaaa"), &cs("aa"))), expected);
    assert_eq!(texts(split_chars(&cs("abc"), &cs(""))), vec!["abc"]);
}

#[test]
fn lines_agree_with_the_standard_library() {
    for s in ["", "\n", "a", "a\n", "a\nb", "a\r\nb\r\n", "a\n\nb", "\r\n", "a\r", "a\rb\n", "\n\n", "x\r\n\r\ny"] {
        let expected: Vec<String> = s.lines().map(|p| p.to_string()).collect();
        assert_eq!(texts(lines_of(&cs(s))), expected, "{:?}", s);
    }
}

#[test]
fn words_agree_with_the_standard_library() {
    for s in ["", " ", "a", " a  b\tc\n", "emulator-5554\tdevice", "\u{3000}x\u{3000}y", "one"] {
        let expected: Vec<String> = s.split_whitespace().map(|p| p.to_string()).collect();
        assert_eq!(texts(words_of(&cs(s))), expected, "{:?}", s);
    }
}

#[test]
fn integers_are_read_like_the_standard_library() {
    let samples = [
        "0", "1", "-1", "+1", "00", "-0", "2147483647", "2147483648", "-2147483648",
        "-2147483649", "", "+", "-", "--1", "+-1", "1a", "a1", " 1", "1 ", "65535", "65536",
        "4294967296", "99999999999999999999", "٣", "1\n",
    ];
    for s in samples {
        assert_eq!(read_i32(&cs(s)), s.parse::<i32>().ok(), "i32 {:?}", s);
        assert_eq!(read_u16(&cs(s)), s.parse::<u16>().ok(), "u16 {:?}", s);
    }
}

#[test]
fn integers_are_written_like_the_standard_library() {
    for v in [0i64, 1, -1, 9, 10, 11, 99, 100, -100, 1234567890, i64::MAX, i64::MIN, i64::MIN + 1] {
        let mut out = vec!['x'];
        push_decimal(&mut out, v);
        let got: String = out.into_iter().collect();
        assert_eq!(got, format!("x{}", v));
    }
}
