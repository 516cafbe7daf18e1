use task_core::parse::parse_task_index;
use task_core::parse::parse_usize;

#[test]
fn parses_plain_decimal_numbers() {
    assert_eq!(parse_usize("0"), Some(0));
    assert_eq!(parse_usize("7"), Some(7));
    assert_eq!(parse_usize("42"), Some(42));
    assert_eq!(parse_usize("007"), Some(7));
    assert_eq!(parse_usize("1000000"), Some(1000000));
}

#[test]
fn rejects_empty_and_non_digit_input() {
    assert_eq!(parse_usize(""), None);
    assert_eq!(parse_usize("x"), None);
    assert_eq!(parse_usize("1a"), None);
    assert_eq!(parse_usize("a1"), None);
    assert_eq!(parse_usize("-1"), None);
    assert_eq!(parse_usize(" 1"), None);
    assert_eq!(parse_usize("1 "), None);
}

#[test]
fn accepts_the_largest_value_and_rejects_the_next() {
    let max = usize::MAX;
    let max_text = format!("{}", max);
    assert_eq!(parse_usize(&max_text), Some(max));
    // One past the largest representable value must overflow to None, as must
    // anything grossly larger.
    let one_past = format!("{}", (max as u128) + 1);
    assert_eq!(parse_usize(&one_past), None);
    assert_eq!(parse_usize("999999999999999999999999999999"), None);
}

#[test]
fn reads_the_index_out_of_an_element_tag() {
    assert_eq!(parse_task_index("task_0"), Some(0));
    assert_eq!(parse_task_index("task_3"), Some(3));
    assert_eq!(parse_task_index("task_12"), Some(12));
}

#[test]
fn takes_the_piece_after_the_last_underscore() {
    assert_eq!(parse_task_index("todo_list_task_9"), Some(9));
    assert_eq!(parse_task_index("a_b_12"), Some(12));
    assert_eq!(parse_task_index("5"), Some(5));
}

#[test]
fn rejects_malformed_element_tags() {
    assert_eq!(parse_task_index(""), None);
    assert_eq!(parse_task_index("task_"), None);
    assert_eq!(parse_task_index("task_x"), None);
    assert_eq!(parse_task_index("task_1_b"), None);
    assert_eq!(parse_task_index("task"), None);
    assert_eq!(parse_task_index("_"), None);
}
