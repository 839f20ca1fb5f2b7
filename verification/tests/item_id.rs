use reply_agent::item_id::{
    chars_of, is_space_char, item_id_text, parse_item_id, parse_u32, parse_u64, parse_usize,
    push_item_id,
};

#[test]
fn plain_numbers() {
    assert_eq!(parse_u32("0"), Some(0));
    assert_eq!(parse_u32("77"), Some(77));
    assert_eq!(parse_u32("1644992"), Some(1644992));
    assert_eq!(parse_u32("007"), Some(7));
    assert_eq!(parse_u32("+5"), Some(5));
    assert_eq!(parse_u32("+0"), Some(0));
}

#[test]
fn what_is_no_number() {
    for text in ["", "+", "-", "-5", "++5", "+-5", "12a", "a12", "1 2", " 1", "1 ", "1_000", "0x10", "1.0", "１２"]
    {
        assert_eq!(parse_u32(text), None, "{:?}", text);
        assert_eq!(parse_u64(text), None, "{:?}", text);
        assert_eq!(parse_usize(text), None, "{:?}", text);
    }
}

#[test]
fn limits_of_each_width() {
    assert_eq!(parse_u32("4294967295"), Some(u32::MAX));
    assert_eq!(parse_u32("4294967296"), None);
    assert_eq!(parse_u32("00000000004294967295"), Some(u32::MAX));
    assert_eq!(parse_u32("99999999999999999999999999"), None);
    assert_eq!(parse_u64("4294967296"), Some(4294967296));
    assert_eq!(parse_u64("18446744073709551615"), Some(u64::MAX));
    assert_eq!(parse_u64("18446744073709551616"), None);
    assert_eq!(parse_u64("184467440737095516150"), None);
    assert_eq!(parse_usize(&usize::MAX.to_string()), Some(usize::MAX));
    assert_eq!(parse_usize("18446744073709551616"), None);
}

#[test]
fn overflow_before_a_bad_digit_is_still_no_number() {
    assert_eq!(parse_u32("99999999999x"), None);
    assert_eq!(parse_u64("99999999999999999999999x"), None);
}

#[test]
fn agrees_with_the_standard_parser() {
    let samples = [
        "0", "1", "10", "99", "100", "4294967295", "4294967296", "+1", "+", "", "-1", " 1", "1 ",
        "０", "1a", "a", "+a", "000", "18446744073709551615", "18446744073709551616", "٣",
    ];
    for text in samples {
        assert_eq!(parse_u32(text), text.parse::<u32>().ok(), "{:?}", text);
        assert_eq!(parse_u64(text), text.parse::<u64>().ok(), "{:?}", text);
        assert_eq!(parse_usize(text), text.parse::<usize>().ok(), "{:?}", text);
        assert_eq!(parse_item_id(text), text.trim().parse::<u32>().ok(), "{:?}", text);
    }
}

#[test]
fn item_names_are_trimmed() {
    assert_eq!(parse_item_id("77"), Some(77));
    assert_eq!(parse_item_id("  77"), Some(77));
    assert_eq!(parse_item_id("77\n"), Some(77));
    assert_eq!(parse_item_id("\t 77 \r\n"), Some(77));
    assert_eq!(parse_item_id("\u{3000}77\u{a0}"), Some(77));
    assert_eq!(parse_item_id(" +77 "), Some(77));
    assert_eq!(parse_item_id("7 7"), None);
    assert_eq!(parse_item_id("12a"), None);
    assert_eq!(parse_item_id(""), None);
    assert_eq!(parse_item_id("   "), None);
    assert_eq!(parse_item_id(" + "), None);
    assert_eq!(parse_item_id("\u{200b}77"), None);
    assert_eq!(parse_item_id("4294967296"), None);
}

#[test]
fn white_space_is_what_the_standard_says() {
    let mut n: u32 = 0;
    while n <= 0x10FFFF {
        if let Some(c) = char::from_u32(n) {
            assert_eq!(is_space_char(c), c.is_whitespace(), "U+{:04X}", n);
        }
        n += 1;
    }
}

#[test]
fn chars_are_kept() {
    assert_eq!(chars_of(""), Vec::<char>::new());
    assert_eq!(chars_of("a猫\n"), vec!['a', '猫', '\n']);
}

#[test]
fn text_of_an_id() {
    assert_eq!(item_id_text(0), "0");
    assert_eq!(item_id_text(7), "7");
    assert_eq!(item_id_text(10), "10");
    assert_eq!(item_id_text(101), "101");
    assert_eq!(item_id_text(1644992), "1644992");
    assert_eq!(item_id_text(u32::MAX), "4294967295");
}

#[test]
fn text_round_trip() {
    let mut x: u32 = 1;
    for _ in 0..2000 {
        x = x.wrapping_mul(1664525).wrapping_add(1013904223);
        let text = item_id_text(x);
        assert_eq!(text, x.to_string());
        assert_eq!(parse_item_id(&text), Some(x));
        assert_eq!(parse_u32(&text), Some(x));
    }
}

#[test]
fn push_appends() {
    let mut out = String::from("id=");
    push_item_id(&mut out, 42);
    push_item_id(&mut out, 0);
    assert_eq!(out, "id=420");
}
