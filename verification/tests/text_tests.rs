use ematch_bench::text::{
    chars_of, decimal_string, find_char, find_last_piece, is_whitespace, push_decimal, range_eq,
    str_eq, trim_range,
};

#[test]
fn decimal_of_zero_is_a_single_zero() {
    assert_eq!(decimal_string(0), "0");
}

#[test]
fn decimal_of_small_and_large_numbers() {
    assert_eq!(decimal_string(7), "7");
    assert_eq!(decimal_string(10), "10");
    assert_eq!(decimal_string(12345), "12345");
    assert_eq!(decimal_string(60_000_000), "60000000");
    assert_eq!(decimal_string(1_000_000_007), "1000000007");
}

#[test]
fn decimal_of_the_largest_number() {
    assert_eq!(decimal_string(u128::MAX), u128::MAX.to_string());
    assert_eq!(
        decimal_string(u128::MAX),
        "340282366920938463463374607431768211455"
    );
}

#[test]
fn decimal_agrees_with_the_standard_formatter() {
    let mut n: u128 = 1;
    for _ in 0..38 {
        assert_eq!(decimal_string(n), n.to_string());
        assert_eq!(decimal_string(n - 1), (n - 1).to_string());
        n *= 10;
    }
}

#[test]
fn decimal_reads_back_as_the_number() {
    for n in [0u128, 1, 9, 10, 99, 100, 4711, 1 << 64, u128::MAX] {
        assert_eq!(decimal_string(n).parse::<u128>(), Ok(n));
    }
}

#[test]
fn push_decimal_appends_behind_what_is_there() {
    let mut text = String::from("t=");
    push_decimal(&mut text, 250);
    assert_eq!(text, "t=250");
    push_decimal(&mut text, 0);
    assert_eq!(text, "t=2500");
}

#[test]
fn chars_of_gives_every_character() {
    assert_eq!(chars_of(""), Vec::<char>::new());
    assert_eq!(chars_of("a,b"), vec!['a', ',', 'b']);
    assert_eq!(chars_of("λx→y"), vec!['λ', 'x', '→', 'y']);
}

#[test]
fn str_eq_compares_characters() {
    assert!(str_eq("math", "math"));
    assert!(str_eq("", ""));
    assert!(!str_eq("math", "Math"));
    assert!(!str_eq("math", "math "));
}

#[test]
fn whitespace_is_what_the_standard_library_calls_whitespace() {
    let mut code: u32 = 0;
    while code <= 0x3100 {
        if let Some(c) = char::from_u32(code) {
            assert_eq!(is_whitespace(c), c.is_whitespace(), "U+{:04X}", code);
        }
        code += 1;
    }
    assert!(is_whitespace(' '));
    assert!(is_whitespace('\t'));
    assert!(is_whitespace('\r'));
    assert!(is_whitespace('\n'));
    assert!(is_whitespace('\u{A0}'));
    assert!(is_whitespace('\u{3000}'));
    assert!(!is_whitespace('a'));
    assert!(!is_whitespace('#'));
    assert!(!is_whitespace('\u{200B}'));
}

#[test]
fn trim_range_drops_the_space_around() {
    let chars = chars_of("  a b \t");
    assert_eq!(trim_range(&chars, 0, chars.len()), (2, 5));
    assert_eq!(trim_range(&chars, 3, 4), (4, 4));
    assert_eq!(trim_range(&chars, 2, 5), (2, 5));
    let blank = chars_of(" \t ");
    let (from, to) = trim_range(&blank, 0, blank.len());
    assert_eq!(from, to);
}

#[test]
fn trim_range_agrees_with_the_standard_trim() {
    for text in ["", " ", "x", " x", "x ", "\u{2003}x y\u{A0}\r\n", "\t(* ?a 1)  "] {
        let chars = chars_of(text);
        let (from, to) = trim_range(&chars, 0, chars.len());
        let kept: String = chars[from..to].iter().collect();
        assert_eq!(kept, text.trim());
    }
}

#[test]
fn find_char_finds_the_first_occurrence() {
    let chars = chars_of("a,b,c");
    assert_eq!(find_char(&chars, 0, 5, ','), 1);
    assert_eq!(find_char(&chars, 2, 5, ','), 3);
    assert_eq!(find_char(&chars, 4, 5, ','), 5);
    assert_eq!(find_char(&chars, 0, 1, ','), 1);
    assert_eq!(find_char(&chars, 0, 0, ','), 0);
}

#[test]
fn find_last_piece_starts_behind_the_last_occurrence() {
    let chars = chars_of("a,b,c");
    assert_eq!(find_last_piece(&chars, 0, 5, ','), 4);
    assert_eq!(find_last_piece(&chars, 0, 4, ','), 4);
    assert_eq!(find_last_piece(&chars, 0, 3, ','), 2);
    assert_eq!(find_last_piece(&chars, 0, 1, ','), 0);
    assert_eq!(find_last_piece(&chars, 2, 3, ','), 2);
}

#[test]
fn range_eq_compares_a_stretch_with_a_text() {
    let chars = chars_of("x math y");
    let name = chars_of("math");
    assert!(range_eq(&chars, 2, 6, &name));
    assert!(!range_eq(&chars, 2, 5, &name));
    assert!(!range_eq(&chars, 1, 5, &name));
    assert!(range_eq(&chars, 3, 3, &chars_of("")));
}
