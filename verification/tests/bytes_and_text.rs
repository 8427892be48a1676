use nups2::bin_utils;
use nups2::json_utils;
use nups2::strutil;
use nups2::Nups2Error;

#[test]
fn readers_decode_fixed_width_integers() {
    let data: Vec<u8> = vec![0x01, 0x02, 0x03, 0x04, 0x05, 0x06, 0x07, 0x08];
    let mut pos: usize = 0;
    assert_eq!(bin_utils::read_u16_le(&data, &mut pos), Ok(0x0201));
    assert_eq!(pos, 2);
    pos = 0;
    assert_eq!(bin_utils::read_u16_be(&data, &mut pos), Ok(0x0102));
    pos = 0;
    assert_eq!(bin_utils::read_u32_le(&data, &mut pos), Ok(0x04030201));
    pos = 0;
    assert_eq!(bin_utils::read_u32_be(&data, &mut pos), Ok(0x01020304));
    pos = 0;
    assert_eq!(bin_utils::read_u64_le(&data, &mut pos), Ok(0x0807060504030201));
    pos = 0;
    assert_eq!(bin_utils::read_u64_be(&data, &mut pos), Ok(0x0102030405060708));
    assert_eq!(pos, 8);
}

#[test]
fn readers_leave_the_cursor_on_truncated_input() {
    let data: Vec<u8> = vec![1, 2, 3];
    let mut pos: usize = 1;
    assert_eq!(
        bin_utils::read_u32_le(&data, &mut pos),
        Err(Nups2Error::Truncated)
    );
    assert_eq!(pos, 1);
    assert_eq!(bin_utils::read_u8_le(&data, &mut pos), Ok(2));
    assert_eq!(pos, 2);
}

#[test]
fn copies_take_exact_subranges() {
    let data: Vec<u8> = vec![9, 8, 7, 6, 5];
    let mut pos: usize = 1;
    assert_eq!(bin_utils::read_x_bytes(&data, &mut pos, 3), Ok(vec![8, 7, 6]));
    assert_eq!(pos, 4);
    pos = 0;
    assert_eq!(
        bin_utils::read_big_x_bytes(&data, &mut pos, 6),
        Err(Nups2Error::Truncated)
    );
    let mut out: Vec<u8> = vec![1];
    pos = 2;
    bin_utils::clone_big_x_bytes(&data, &mut pos, &mut out, 2).unwrap();
    assert_eq!(out, vec![1, 7, 6]);
}

#[test]
fn writers_round_trip_through_readers() {
    let mut out: Vec<u8> = Vec::new();
    bin_utils::write_u32_le(0xDEADBEEF, &mut out);
    bin_utils::write_u32_be(0xDEADBEEF, &mut out);
    bin_utils::write_u16_le(0x1234, &mut out);
    bin_utils::write_u64_be(0x0102030405060708, &mut out);
    let mut pos: usize = 0;
    assert_eq!(bin_utils::read_u32_le(&out, &mut pos), Ok(0xDEADBEEF));
    assert_eq!(bin_utils::read_u32_be(&out, &mut pos), Ok(0xDEADBEEF));
    assert_eq!(bin_utils::read_u16_le(&out, &mut pos), Ok(0x1234));
    assert_eq!(bin_utils::read_u64_be(&out, &mut pos), Ok(0x0102030405060708));
}

#[test]
fn escape_string_quotes_and_escapes() {
    assert_eq!(json_utils::escape_string("plain"), "\"plain\"");
    assert_eq!(json_utils::escape_string(""), "\"\"");
    assert_eq!(
        json_utils::escape_string("a\\b\"c"),
        "\"a\\\\b\\\"c\""
    );
}

#[test]
fn split_lines_matches_line_semantics() {
    let lines = strutil::split_lines("alpha\r\nbravo\ncharlie");
    assert_eq!(lines, vec!["alpha", "bravo", "charlie"]);
    let lines = strutil::split_lines("one\n");
    assert_eq!(lines, vec!["one"]);
    let lines = strutil::split_lines("");
    assert!(lines.is_empty());
    // A carriage return not followed by a line feed stays in its line.
    let lines = strutil::split_lines("a\rb\nc");
    assert_eq!(lines, vec!["a\rb", "c"]);
}

#[test]
fn decimal_rendering_is_exact() {
    assert_eq!(strutil::u64_to_dec(0), "0");
    assert_eq!(strutil::u64_to_dec(907), "907");
    assert_eq!(strutil::u64_to_dec(u64::MAX), "18446744073709551615");
}

#[test]
fn str_eq_compares_contents() {
    assert!(strutil::str_eq("abc", "abc"));
    assert!(!strutil::str_eq("abc", "abd"));
    assert!(!strutil::str_eq("abc", "ab"));
}
