use yalter_bot::text::{
    append_chars, append_decimal, append_hexadecimal, append_padded, decimal_width, digit,
    order_texts, same_text, to_chars,
};

fn with(f: impl Fn(&mut String)) -> String {
    let mut text = String::from("x");
    f(&mut text);
    text
}

#[test]
fn decimal_numbers() {
    assert_eq!("x0", with(|t| append_decimal(t, 0)));
    assert_eq!("x9", with(|t| append_decimal(t, 9)));
    assert_eq!("x10", with(|t| append_decimal(t, 10)));
    assert_eq!("x1234567890", with(|t| append_decimal(t, 1234567890)));
    assert_eq!("x18446744073709551615", with(|t| append_decimal(t, u64::MAX)));
}

#[test]
fn hexadecimal_numbers() {
    assert_eq!("x0", with(|t| append_hexadecimal(t, 0)));
    assert_eq!("xf", with(|t| append_hexadecimal(t, 15)));
    assert_eq!("x10", with(|t| append_hexadecimal(t, 16)));
    assert_eq!("xdeadbeef", with(|t| append_hexadecimal(t, 0xdeadbeef)));
    assert_eq!("xffffffffffffffff", with(|t| append_hexadecimal(t, u64::MAX)));
    for n in [1u64, 255, 4096, 0x1234_5678_9abc_def0] {
        assert_eq!(format!("x{:x}", n), with(|t| append_hexadecimal(t, n)));
    }
}

#[test]
fn padded_numbers() {
    assert_eq!("x05", with(|t| append_padded(t, 5, 2)));
    assert_eq!("x15", with(|t| append_padded(t, 15, 2)));
    assert_eq!("x150", with(|t| append_padded(t, 150, 2)));
    assert_eq!("x007", with(|t| append_padded(t, 7, 3)));
    assert_eq!("x0", with(|t| append_padded(t, 0, 0)));
    assert_eq!("x00", with(|t| append_padded(t, 0, 2)));
}

#[test]
fn widths_and_digits() {
    assert_eq!(1, decimal_width(0));
    assert_eq!(1, decimal_width(9));
    assert_eq!(2, decimal_width(10));
    assert_eq!(20, decimal_width(u64::MAX));
    assert_eq!('0', digit(0));
    assert_eq!('9', digit(9));
    assert_eq!('a', digit(10));
    assert_eq!('f', digit(15));
}

#[test]
fn texts_are_ordered_as_strings_are() {
    let samples = ["", "a", "ab", "b", "B", "é", "e\u{301}", "👍", "z", "aa", "\u{FFFF}", "\u{10000}"];
    for a in samples {
        for b in samples {
            let expected = match a.cmp(b) {
                std::cmp::Ordering::Less => -1,
                std::cmp::Ordering::Equal => 0,
                std::cmp::Ordering::Greater => 1,
            };
            assert_eq!(expected, order_texts(a, b), "{:?} {:?}", a, b);
            assert_eq!(a == b, same_text(a, b));
        }
    }
}

#[test]
fn characters_of_a_text() {
    assert_eq!(vec!['a', 'é', '👍'], to_chars("aé👍"));
    assert!(to_chars("").is_empty());
    let chars = to_chars("hello");
    assert_eq!("xell", with(|t| append_chars(t, &chars, 1, 4)));
    assert_eq!("x", with(|t| append_chars(t, &chars, 2, 2)));
}
