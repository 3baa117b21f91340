use taglib::{
    decimal_to_padding_string, get_num, get_number_pair, get_text, get_text_pair,
    num_pair_to_string, parse_decimal, text_pair_to_string, trim, u32_to_option,
};

#[test]
fn test_get_number_pair() {
    assert_eq!(get_number_pair(""), (None, None));
    assert_eq!(get_number_pair("/"), (None, None));
    assert_eq!(get_number_pair(" /  "), (None, None));

    assert_eq!(get_number_pair("2"), (Some(2), None));
    assert_eq!(get_number_pair("02"), (Some(2), None));
    assert_eq!(get_number_pair(" 2 "), (Some(2), None));
    assert_eq!(get_number_pair("12"), (Some(12), None));

    assert_eq!(get_number_pair("/15"), (None, Some(15)));
    assert_eq!(get_number_pair(" /15"), (None, Some(15)));

    assert_eq!(get_number_pair("02/15"), (Some(2), Some(15)));
}

#[test]
fn test_get_text_pair() {
    assert_eq!(get_text_pair(""), (None, None));
    assert_eq!(get_text_pair("/"), (None, None));
    assert_eq!(get_text_pair(" /  "), (None, None));

    assert_eq!(get_text_pair("2"), (Some("2".to_owned()), None));
    assert_eq!(get_text_pair("02"), (Some("02".to_owned()), None));
    assert_eq!(get_text_pair(" 2 "), (Some("2".to_owned()), None));
    assert_eq!(get_text_pair("12"), (Some("12".to_owned()), None));

    assert_eq!(get_text_pair("/15"), (None, Some("15".to_owned())));
    assert_eq!(get_text_pair(" /15"), (None, Some("15".to_owned())));

    assert_eq!(get_text_pair("02/15"), (Some("02".to_owned()), Some("15".to_owned())));
}

#[test]
fn number_pair_ignores_text_after_a_second_slash() {
    assert_eq!(get_number_pair("1/2/3"), (Some(1), Some(2)));
    assert_eq!(get_text_pair("a/b/c"), (Some("a".to_owned()), Some("b".to_owned())));
    assert_eq!(get_number_pair("//7"), (None, None));
}

#[test]
fn number_pair_degrades_malformed_halves_to_none() {
    assert_eq!(get_number_pair("a/5"), (None, Some(5)));
    assert_eq!(get_number_pair("3/x"), (Some(3), None));
    assert_eq!(get_number_pair("-3/4"), (None, Some(4)));
    assert_eq!(get_number_pair("1 2/3"), (None, Some(3)));
    assert_eq!(get_number_pair("4294967296/4294967295"), (None, Some(4294967295)));
    assert_eq!(get_text_pair("a/5"), (Some("a".to_owned()), Some("5".to_owned())));
}

#[test]
fn text_pair_trims_unicode_white_space() {
    assert_eq!(get_text_pair("\u{3000}03\t/\u{a0}12\n"), (Some("03".to_owned()), Some("12".to_owned())));
    assert_eq!(get_number_pair("\u{2003}7 / 9\u{85}"), (Some(7), Some(9)));
    assert_eq!(trim("  a b  "), "a b");
    assert_eq!(trim(" \t\r\n"), "");
}

#[test]
fn parse_decimal_follows_unsigned_grammar() {
    assert_eq!(parse_decimal("0"), Some(0));
    assert_eq!(parse_decimal("007"), Some(7));
    assert_eq!(parse_decimal("+3"), Some(3));
    assert_eq!(parse_decimal("+"), None);
    assert_eq!(parse_decimal(""), None);
    assert_eq!(parse_decimal("-1"), None);
    assert_eq!(parse_decimal(" 1"), None);
    assert_eq!(parse_decimal("4294967295"), Some(4294967295));
    assert_eq!(parse_decimal("4294967296"), None);
    assert_eq!(parse_decimal("99999999999x"), None);
}

#[test]
fn get_text_and_get_num_on_segments() {
    assert_eq!(get_text(&None), None);
    assert_eq!(get_text(&Some("  ")), None);
    assert_eq!(get_text(&Some(" 05 ")), Some("05".to_owned()));
    assert_eq!(get_num(&None), None);
    assert_eq!(get_num(&Some(" 05 ")), Some(5));
    assert_eq!(get_num(&Some("five")), None);
}

#[test]
fn decimal_padding() {
    assert_eq!(decimal_to_padding_string(3, 2), "03");
    assert_eq!(decimal_to_padding_string(12, 2), "12");
    assert_eq!(decimal_to_padding_string(123, 2), "123");
    assert_eq!(decimal_to_padding_string(0, 0), "0");
    assert_eq!(decimal_to_padding_string(7, 5), "00007");
    assert_eq!(decimal_to_padding_string(4294967295, 0), "4294967295");
}

#[test]
fn numeric_pair_encoding_cases() {
    assert_eq!(num_pair_to_string(&None, &None, 2), None);
    assert_eq!(num_pair_to_string(&None, &Some(5), 2), Some("/05".to_owned()));
    assert_eq!(num_pair_to_string(&Some(3), &None, 2), Some("03".to_owned()));
    assert_eq!(num_pair_to_string(&Some(3), &Some(12), 2), Some("03/12".to_owned()));
    assert_eq!(num_pair_to_string(&Some(3), &Some(12), 0), Some("3/12".to_owned()));
}

#[test]
fn textual_pair_encoding_cases() {
    assert_eq!(text_pair_to_string(&None, &None), None);
    assert_eq!(text_pair_to_string(&None, &Some("12".to_owned())), Some("/12".to_owned()));
    assert_eq!(text_pair_to_string(&Some("03".to_owned()), &None), Some("03".to_owned()));
    assert_eq!(
        text_pair_to_string(&Some("03".to_owned()), &Some("12".to_owned())),
        Some("03/12".to_owned())
    );
}

#[test]
fn numeric_pair_round_trip() {
    let halves = [None, Some(0), Some(1), Some(9), Some(10), Some(42), Some(4294967295)];
    for a in halves.iter() {
        for b in halves.iter() {
            for p in [0usize, 1, 2, 3, 12].iter() {
                let text = num_pair_to_string(a, b, *p);
                let text = text.unwrap_or_default();
                assert_eq!(get_number_pair(&text), (*a, *b));
            }
        }
    }
}

#[test]
fn textual_form_keeps_padding() {
    assert_eq!(get_text_pair("02/15"), (Some("02".to_owned()), Some("15".to_owned())));
    assert_eq!(get_number_pair("02/15"), (Some(2), Some(15)));
}

#[test]
fn zero_means_absent() {
    assert_eq!(u32_to_option(0), None);
    assert_eq!(u32_to_option(7), Some(7));
}

#[test]
fn blank_halves_read_as_absent() {
    assert_eq!(get_number_pair(""), (None, None));
    assert_eq!(get_number_pair("/"), (None, None));
    assert_eq!(get_number_pair(" / "), (None, None));
    assert_eq!(get_text_pair(" / "), (None, None));
    assert_eq!(get_number_pair(" 2 "), (Some(2), None));
}
