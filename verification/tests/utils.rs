use trinci_cli::utils::{byte_buffer_try_parse, format_json};

#[test]
fn list_of_bytes_becomes_hex() {
    assert_eq!(byte_buffer_try_parse("1, 2, 255 "), Some("[ 0102ff ]]".to_string()));
    assert_eq!(byte_buffer_try_parse("\n    0,\n    16,\n    171\n  "), Some("[ 0010ab ]]".to_string()));
}

#[test]
fn empty_inside_is_an_empty_list() {
    assert_eq!(byte_buffer_try_parse(""), Some("[  ]]".to_string()));
    assert_eq!(byte_buffer_try_parse(" ,\r\n"), Some("[  ]]".to_string()));
}

#[test]
fn number_without_separator_after_it_is_left_out() {
    assert_eq!(byte_buffer_try_parse("1, 2"), Some("[ 01 ]]".to_string()));
    assert_eq!(byte_buffer_try_parse("7"), Some("[  ]]".to_string()));
    // It is not even looked at: 999 is no byte.
    assert_eq!(byte_buffer_try_parse("1,999"), Some("[ 01 ]]".to_string()));
}

#[test]
fn leading_zeros_are_read() {
    assert_eq!(byte_buffer_try_parse("007,0000000000000000000000255,"), Some("[ 07ff ]]".to_string()));
}

#[test]
fn number_that_is_no_byte_is_refused() {
    assert_eq!(byte_buffer_try_parse("256,"), None);
    assert_eq!(byte_buffer_try_parse("1, 99999999999999999999999999, 2 "), None);
}

#[test]
fn anything_but_digits_and_separators_is_refused() {
    assert_eq!(byte_buffer_try_parse("1, a, 2 "), None);
    assert_eq!(byte_buffer_try_parse("-1,"), None);
    assert_eq!(byte_buffer_try_parse("1.5,"), None);
    assert_eq!(byte_buffer_try_parse("\"x\""), None);
    assert_eq!(byte_buffer_try_parse("1\t2,"), None);
    assert_eq!(byte_buffer_try_parse("١,"), None);
}

#[test]
fn json_without_lists_is_kept() {
    let text = "{\n  \"name\": \"x\",\n  \"n\": 3\n}";
    assert_eq!(format_json(text), text);
    assert_eq!(format_json(""), "");
}

#[test]
fn json_list_of_bytes_is_put_on_one_line() {
    let text = "{\n  \"args\": [\n    1,\n    2,\n    255\n  ],\n  \"name\": \"x\"\n}";
    assert_eq!(format_json(text), "{\n  \"args\": [[ 0102ff ]],\n  \"name\": \"x\"\n}");
}

#[test]
fn json_list_of_other_things_is_kept() {
    let text = "{\"a\": [\n \"x\",\n \"y\"\n]}";
    assert_eq!(format_json(text), text);
}

#[test]
fn json_nested_lists_are_taken_from_the_inside() {
    let text = "[\n  [\n    1,\n    2\n  ],\n  [\n    300\n  ]\n]";
    assert_eq!(format_json(text), "[\n  [[ 0102 ]],\n  [\n    300\n  ]\n]");
}

#[test]
fn json_empty_list_is_kept() {
    assert_eq!(format_json("{\"a\": [], \"b\": [\n 7\n]}"), "{\"a\": [], \"b\": [[ 07 ]]}");
}

#[test]
fn json_bracket_without_partner_is_kept() {
    assert_eq!(format_json("a ] b [ c"), "a ] b [ c");
    assert_eq!(format_json("a [ 1, 2"), "a [ 1, 2");
    assert_eq!(format_json("1, 2 ] x"), "1, 2 ] x");
}

#[test]
fn json_text_outside_ascii_is_kept() {
    let text = "{\"nome\": \"àèì\", \"v\": [\n 1\n]}";
    assert_eq!(format_json(text), "{\"nome\": \"àèì\", \"v\": [[ 01 ]]}");
}
