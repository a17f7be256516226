use war_sheet::text::{format_sheet_name, parse_i32, parse_i64, remove_all_matches, strip_bom};

#[test]
fn sheet_names_join_name_and_side() {
    assert_eq!(format_sheet_name("hp", 1), "hp_1");
    assert_eq!(format_sheet_name("开幕空袭", 2), "开幕空袭_2");
    assert_eq!(format_sheet_name("x", -17), "x_-17");
    assert_eq!(format_sheet_name("", 2147483647), "_2147483647");
    assert_eq!(format_sheet_name("m", -2147483648), "m_-2147483648");
    assert_eq!(format_sheet_name("z", 0), "z_0");
}

#[test]
fn decimal_texts_read_like_str_parse() {
    for t in ["0", "7", "-0", "+12", "-9223372036854775808", "9223372036854775807", "0009"] {
        assert_eq!(parse_i64(t), t.parse::<i64>().ok(), "{}", t);
    }
    for t in ["", "-", "+", "1 ", " 1", "1a", "9223372036854775808", "--1", "+-1", "1.0", "٣"] {
        assert_eq!(parse_i64(t), None, "{}", t);
        assert_eq!(t.parse::<i64>().ok(), None, "{}", t);
    }
    assert_eq!(parse_i64("-9223372036854775808"), Some(i64::MIN));
    assert_eq!(parse_i64("00000000000000000000000000012"), Some(12));
    assert_eq!(parse_i64("-99999999999999999999999"), None);
}

#[test]
fn written_numbers_read_back() {
    for n in [0, 1, -1, 42, -2147483648, 2147483647, 1000000] {
        let text = format_sheet_name("", n);
        assert_eq!(parse_i32(&text[1..]), Some(n));
        assert_eq!(parse_i64(&text[1..]), Some(n as i64));
    }
}

#[test]
fn i32_texts_read_like_str_parse() {
    for t in ["1", "0", "-2147483648", "2147483647", "2147483648", "-2147483649", "abc", "", "+3"] {
        assert_eq!(parse_i32(t), t.parse::<i32>().ok(), "{}", t);
    }
    assert_eq!(parse_i32("-2147483648"), Some(i32::MIN));
    assert_eq!(parse_i32("2147483648"), None);
}

#[test]
fn every_occurrence_is_removed_from_the_left() {
    assert_eq!(remove_all_matches("20200101_day", "_day"), "20200101");
    assert_eq!(remove_all_matches("a_day_day", "_day"), "a");
    assert_eq!(remove_all_matches("_d_dayay", "_day"), "_day");
    assert_eq!(remove_all_matches("演习_day_1", "_day"), "演习_1");
    assert_eq!(remove_all_matches("", "_day"), "");
    assert_eq!(remove_all_matches("aaa", "aa"), "a");
    assert_eq!(remove_all_matches("abc", ""), "abc");
    for s in ["x_dayy_day_day", "_da", "day_day"] {
        assert_eq!(remove_all_matches(s, "_day"), s.replace("_day", ""));
    }
}

#[test]
fn byte_order_mark_is_taken_off() {
    assert_eq!(strip_bom(vec![0xef, 0xbb, 0xbf, b'{', b'}']), vec![b'{', b'}']);
    assert_eq!(strip_bom(vec![0xef, 0xbb, 0xbf]), Vec::<u8>::new());
    assert_eq!(strip_bom(vec![0xef, 0xbb]), vec![0xef, 0xbb]);
    assert_eq!(strip_bom(vec![b'{', 0xef, 0xbb, 0xbf]), vec![b'{', 0xef, 0xbb, 0xbf]);
    assert_eq!(strip_bom(vec![]), Vec::<u8>::new());
    // only one mark is taken off
    assert_eq!(strip_bom(vec![0xef, 0xbb, 0xbf, 0xef, 0xbb, 0xbf]), vec![0xef, 0xbb, 0xbf]);
}
