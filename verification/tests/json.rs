use openasr_cli::json::{
    has_exact_json_fields, is_same_optional, is_same_value, Json, JsonNumber,
};
use openasr_cli::table::Table;
use openasr_cli::text::{
    begins_with, chars_of, contains_text, decimal_text, is_before, join_texts, lower_text,
    same_ignoring_case, same_text, split_lines, split_words, text_of, trim_text,
};

fn sample() -> Json {
    Json::Object(vec![
        ("a".to_string(), Json::Number(JsonNumber::Unsigned(3))),
        ("b".to_string(), Json::Text("x".to_string())),
        ("c".to_string(), Json::Bool(true)),
        ("d".to_string(), Json::Array(vec![Json::Null])),
    ])
}

#[test]
fn fields_are_read_by_name_and_kind() {
    let value = sample();
    assert_eq!(value.natural_field("a"), Some(3));
    assert_eq!(value.text_field("a"), None);
    assert_eq!(value.text_field("b"), Some("x"));
    assert_eq!(value.boolean_field("c"), Some(true));
    assert_eq!(value.field("d").unwrap().as_items().unwrap().len(), 1);
    assert!(value.field("e").is_none());
    assert!(value.text_field_is("b", "x"));
    assert!(!value.text_field_is("b", "y"));
    assert!(has_exact_json_fields(&value, &["d", "c", "b", "a"]));
    assert!(!has_exact_json_fields(&value, &["a", "b", "c"]));
}

#[test]
fn numbers_are_finite_and_signed() {
    let number = |value: f64| Json::Number(JsonNumber::Double(value.to_bits()));
    assert!(number(1.5).is_finite_non_negative_number());
    assert!(number(-1.5).is_finite_number());
    assert!(!number(-1.5).is_finite_non_negative_number());
    assert!(!number(f64::INFINITY).is_finite_number());
    assert!(!number(f64::NAN).is_finite_number());
    assert!(Json::Number(JsonNumber::Negative(-2)).is_finite_number());
    assert!(!Json::Null.is_finite_number());
}

#[test]
fn values_are_compared_in_depth() {
    assert!(is_same_value(&sample(), &sample()));
    let mut other = sample();
    if let Json::Object(fields) = &mut other {
        fields[3].1 = Json::Array(vec![]);
    }
    assert!(!is_same_value(&sample(), &other));
    assert!(is_same_optional(None, None));
    assert!(!is_same_optional(Some(&Json::Null), None));
}

#[test]
fn tables_hold_one_value_per_key() {
    let mut table: Table<u64, u32> = Table::new();
    assert!(!table.insert(4, 1));
    assert!(table.insert(4, 2));
    assert!(!table.insert(5, 3));
    assert_eq!(table.get(&4), Some(&2));
    assert!(table.contains(&5));
    assert_eq!(table.find(&6), None);
    assert_eq!(table.entries.len(), 2);
}

#[test]
fn texts_are_cut_and_joined() {
    let lines = |value: &str| split_lines(value);
    for value in ["", "a", "a\n", "a\r\nb", "\n\n", "a\rb\n", "é\n"] {
        let expected: Vec<String> = value.lines().map(str::to_string).collect();
        assert_eq!(lines(value), expected, "{value:?}");
        let expected: Vec<String> = value.split_whitespace().map(str::to_string).collect();
        assert_eq!(split_words(value), expected, "{value:?}");
    }
    assert_eq!(trim_text("\u{2003} a b \u{a0}\n"), "a b");
    assert_eq!(lower_text("AbÉ"), "abÉ");
    assert!(same_ignoring_case("AbC", "aBc"));
    assert!(!same_ignoring_case("É", "é"));
    assert!(same_text("a", "a"));
    assert!(contains_text("banana", "nan"));
    assert!(!contains_text("banana", "nab"));
    assert!(contains_text("banana", ""));
    assert!(begins_with("banana", "ban"));
    assert!(!begins_with("ban", "banana"));
    assert_eq!(decimal_text(0), "0");
    assert_eq!(decimal_text(u64::MAX), "18446744073709551615");
    assert_eq!(join_texts(&vec!["a".to_string(), "b".to_string()], ", "), "a, b");
    assert_eq!(text_of(&chars_of("añb")), "añb");
    assert!(is_before("a", "b") && is_before("a", "aa") && !is_before("b", "a"));
}
