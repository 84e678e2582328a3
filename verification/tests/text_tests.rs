use ares::utf8::is_valid_utf8;

#[test]
fn one_and_two_bytes_are_judged_as_str_judges_them() {
    for a in 0..=255u8 {
        assert_eq!(is_valid_utf8(&[a]), std::str::from_utf8(&[a]).is_ok(), "{a:#x}");
        for b in 0..=255u8 {
            assert_eq!(
                is_valid_utf8(&[a, b]),
                std::str::from_utf8(&[a, b]).is_ok(),
                "{a:#x} {b:#x}"
            );
        }
    }
}

#[test]
fn longer_characters_are_judged_as_str_judges_them() {
    let edges: [u8; 10] = [0x00, 0x7F, 0x80, 0x8F, 0x90, 0x9F, 0xA0, 0xBF, 0xC0, 0xFF];
    for a in 0xC0..=0xFFu8 {
        for b in 0..=255u8 {
            for c in edges {
                let three = [a, b, c];
                assert_eq!(is_valid_utf8(&three), std::str::from_utf8(&three).is_ok(), "{three:x?}");
                for d in edges {
                    let four = [a, b, c, d];
                    assert_eq!(is_valid_utf8(&four), std::str::from_utf8(&four).is_ok(), "{four:x?}");
                }
            }
        }
    }
}

#[test]
fn text_is_judged_as_str_judges_it() {
    let text = "plain, gr\u{fc}n, \u{20ac}, \u{d7ff}, \u{e000}, \u{ffff}, \u{10000}, \u{10ffff}";
    assert!(is_valid_utf8(text.as_bytes()));
    let bytes = text.as_bytes();
    for cut in 0..=bytes.len() {
        assert_eq!(is_valid_utf8(&bytes[..cut]), std::str::from_utf8(&bytes[..cut]).is_ok());
        assert_eq!(is_valid_utf8(&bytes[cut..]), std::str::from_utf8(&bytes[cut..]).is_ok());
    }
}
