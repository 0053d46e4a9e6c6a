use fluss_sink::router::multi_table::to_table_path;
use fluss_sink::router::RouterError;
use fluss_sink::table_path::TablePath;
use fluss_sink::text::{decimal, same_text};

fn refusal(text: &str) -> String {
    match to_table_path(text) {
        Err(RouterError::FailedToExtractTablePath { reason }) => reason,
        other => panic!("{text} should be refused, got {other:?}"),
    }
}

#[test]
fn given_numbers_when_writing_should_use_decimal_digits() {
    for number in [0, 7, 10, 42, 100, 999, 1_000_000, u64::MAX as u128, u128::MAX] {
        assert_eq!(decimal(number), number.to_string());
    }
}

#[test]
fn given_texts_when_comparing_should_look_at_all_characters() {
    assert!(same_text("", ""));
    assert!(same_text("caf\u{e9}", "caf\u{e9}"));
    assert!(!same_text("abc", "abd"));
    assert!(!same_text("abc", "ab"));
}

#[test]
fn given_paths_when_comparing_should_look_at_both_names() {
    let path = TablePath::new("analytics", "events");

    assert!(path.same(&path.copy()));
    assert!(!path.same(&TablePath::new("analytics", "clicks")));
    assert!(!path.same(&TablePath::new("other", "events")));
    assert!(!TablePath::new("a.b", "c").same(&TablePath::new("a", "b.c")));
    assert_eq!(path.to_text(), "analytics.events");
}

#[test]
fn given_valid_text_when_reading_path_should_split_it() {
    for (database, table) in [("analytics", "events"), ("a", "b"), ("A-1_x", "_y"), ("0", "-")] {
        let path = to_table_path(&format!("{database}.{table}")).expect("Path should be read");
        assert_eq!(path, TablePath::new(database, table));
        assert_eq!(path.to_text(), format!("{database}.{table}"));
    }
}

#[test]
fn given_wrong_number_of_dots_when_reading_path_should_refuse_it() {
    for text in ["", "events", "a.b.c", "..", "a..b"] {
        assert_eq!(
            refusal(text),
            format!("Invalid table format, expected 'database.table', got {text}")
        );
    }
}

#[test]
fn given_empty_name_when_reading_path_should_refuse_it() {
    assert_eq!(
        refusal(".events"),
        "Invalid name detected, for  : the empty string is not allowed"
    );
    assert_eq!(
        refusal("analytics."),
        "Invalid name detected, for  : the empty string is not allowed"
    );
}

#[test]
fn given_bad_characters_when_reading_path_should_refuse_it() {
    assert_eq!(
        refusal("an alytics.events"),
        "Invalid name detected, for an alytics : 'an alytics' contains one or more characters \
         other than ASCII alphanumerics, '_' and '-'"
    );
    assert_eq!(
        refusal("analytics.ev\u{e9}nts"),
        "Invalid name detected, for ev\u{e9}nts : 'ev\u{e9}nts' contains one or more characters \
         other than ASCII alphanumerics, '_' and '-'"
    );
}

#[test]
fn given_long_name_when_reading_path_should_refuse_it() {
    let longest = "x".repeat(200);
    assert!(to_table_path(&format!("a.{longest}")).is_ok());

    let longer = "x".repeat(201);
    assert_eq!(
        refusal(&format!("a.{longer}")),
        format!(
            "Invalid name detected, for {longer} : the length of '{longer}' is longer than the \
             max allowed length 200"
        )
    );
}

#[test]
fn given_reserved_prefix_when_reading_path_should_refuse_it() {
    let reserved = "'__' is not allowed as prefix, since it is reserved for internal \
                    databases/internal tables/internal partitions in Fluss server";
    assert_eq!(
        refusal("__a.events"),
        format!("Invalid name detected, for __a : {reserved}")
    );
    assert_eq!(
        refusal("analytics.__b"),
        format!("Invalid name detected, for __b : {reserved}")
    );
    assert_eq!(
        refusal("__a.__b"),
        format!("Invalid name detected, for __a : {reserved}")
    );
    assert!(to_table_path("_a._b").is_ok());
}

#[test]
fn given_two_bad_names_when_reading_path_should_name_the_invalid_one_first() {
    assert_eq!(
        refusal("__a.b c"),
        "Invalid name detected, for b c : 'b c' contains one or more characters other than ASCII \
         alphanumerics, '_' and '-'"
    );
}
