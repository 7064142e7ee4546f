use query_rewrite::add::AddFields;
use query_rewrite::add::AddOperation;
use query_rewrite::config::get_config;
use query_rewrite::config::Config;
use query_rewrite::config::OperationFields;
use query_rewrite::config::QueryParamOperation;
use query_rewrite::remove::RemoveFields;
use query_rewrite::remove::RemoveOperation;
use query_rewrite::wire::ConfigError;
use query_rewrite::wire::PositionField;

fn query_pair(key: &str, value: &str) -> (String, String) {
    (key.to_string(), value.to_string())
}

fn insertion(position: i8, value: &str) -> QueryParamOperation {
    QueryParamOperation::Add(AddOperation {
        position,
        value: Some(value.to_string()),
    })
}

fn add_entry(name: &str, position: PositionField, value: &str) -> (String, OperationFields) {
    (
        name.to_string(),
        OperationFields::Add(AddFields {
            position,
            value: Some(value.to_string()),
        }),
    )
}

fn remove_entry(
    name: &str,
    position: PositionField,
    regexp: Option<&str>,
) -> (String, OperationFields) {
    (
        name.to_string(),
        OperationFields::Remove(RemoveFields {
            position,
            regexp: regexp.map(|text| text.to_string()),
        }),
    )
}

#[test]
fn an_empty_table_changes_nothing() {
    let config = Config::new();
    assert_eq!(config.len(), 0);
    assert!(config.entry(0).is_none());
    for start in [
        Vec::new(),
        vec![query_pair("a", "1")],
        vec![query_pair("b", "2"), query_pair("a", "1"), query_pair("b", "2")],
    ] {
        let mut query = start.clone();
        config.apply(&mut query);
        assert_eq!(query, start);
    }
}

#[test]
fn operations_run_in_the_order_of_the_table() {
    let config = Config::new()
        .with("first".to_string(), insertion(0, "1"))
        .with("second".to_string(), insertion(0, "2"))
        .with("third".to_string(), insertion(-1, "3"));
    let mut query = vec![query_pair("x", "0")];

    config.apply(&mut query);

    assert_eq!(
        query,
        vec![
            query_pair("second", "2"),
            query_pair("first", "1"),
            query_pair("x", "0"),
            query_pair("third", "3"),
        ]
    );
}

#[test]
fn a_later_operation_sees_what_an_earlier_one_left() {
    let config = Config::new()
        .with("key".to_string(), insertion(-1, "added"))
        .with(
            "other".to_string(),
            QueryParamOperation::Remove(RemoveOperation::all()),
        );
    let mut query = vec![
        query_pair("other", "1"),
        query_pair("key", "given"),
        query_pair("other", "2"),
    ];

    config.apply(&mut query);

    assert_eq!(
        query,
        vec![query_pair("key", "given"), query_pair("key", "added")]
    );

    let removes_what_was_added = Config::new()
        .with("a".to_string(), insertion(0, "new"))
        .with(
            "b".to_string(),
            QueryParamOperation::Remove(RemoveOperation::all()),
        )
        .with("c".to_string(), insertion(1, "last"));
    let mut query = vec![query_pair("b", "1"), query_pair("z", "9")];
    removes_what_was_added.apply(&mut query);
    assert_eq!(
        query,
        vec![
            query_pair("a", "new"),
            query_pair("c", "last"),
            query_pair("z", "9"),
        ]
    );
}

#[test]
fn a_name_that_returns_keeps_its_place_and_takes_the_new_operation() {
    let config = Config::new()
        .with("a".to_string(), insertion(0, "old"))
        .with("b".to_string(), insertion(0, "b"))
        .with("a".to_string(), insertion(-1, "new"));

    assert_eq!(config.len(), 2);
    let (first_name, first) = config.entry(0).unwrap();
    assert_eq!(first_name, "a");
    assert_eq!(first, &insertion(-1, "new"));
    let (second_name, second) = config.entry(1).unwrap();
    assert_eq!(second_name, "b");
    assert_eq!(second, &insertion(0, "b"));
    assert!(config.entry(2).is_none());

    let mut query = vec![query_pair("x", "0")];
    config.apply(&mut query);
    assert_eq!(
        query,
        vec![
            query_pair("b", "b"),
            query_pair("x", "0"),
            query_pair("a", "new"),
        ]
    );
}

#[test]
fn a_configuration_decodes_in_the_order_it_was_written() {
    let entries = vec![
        remove_entry("gone", PositionField::Missing, None),
        add_entry("z", PositionField::Text("0".to_string()), "front"),
        add_entry("a", PositionField::Missing, "back"),
        remove_entry("dup", PositionField::Number(-1), None),
    ];

    let config = Config::decode(&entries).unwrap();

    assert_eq!(config.len(), 4);
    assert_eq!(config.entry(0).unwrap().0, "gone");
    assert_eq!(
        config.entry(0).unwrap().1,
        &QueryParamOperation::Remove(RemoveOperation::all())
    );
    assert_eq!(config.entry(1).unwrap().0, "z");
    assert_eq!(config.entry(1).unwrap().1, &insertion(0, "front"));
    assert_eq!(config.entry(2).unwrap().0, "a");
    assert_eq!(config.entry(2).unwrap().1, &insertion(-1, "back"));
    assert_eq!(config.entry(3).unwrap().0, "dup");
    assert_eq!(
        config.entry(3).unwrap().1,
        &QueryParamOperation::Remove(RemoveOperation::position(-1))
    );

    let mut query = vec![
        query_pair("dup", "1"),
        query_pair("gone", "x"),
        query_pair("keep", "k"),
        query_pair("dup", "2"),
    ];
    config.apply(&mut query);
    assert_eq!(
        query,
        vec![
            query_pair("z", "front"),
            query_pair("dup", "1"),
            query_pair("keep", "k"),
            query_pair("a", "back"),
        ]
    );
}

#[test]
fn the_first_refused_entry_refuses_the_configuration() {
    let entries = vec![
        add_entry("fine", PositionField::Number(1), "v"),
        remove_entry("bad-pattern", PositionField::Missing, Some("(")),
        add_entry("bad-position", PositionField::Text("x".to_string()), "v"),
    ];
    assert!(matches!(
        Config::decode(&entries),
        Err(ConfigError::InvalidPattern(_))
    ));

    let entries = vec![
        add_entry("bad-position", PositionField::Null, "v"),
        remove_entry("bad-pattern", PositionField::Missing, Some("(")),
    ];
    assert!(matches!(
        Config::decode(&entries),
        Err(ConfigError::InvalidPosition)
    ));
}

#[test]
fn a_valid_payload_loads_without_a_warning() {
    let (config, warning) = get_config(Ok(vec![
        add_entry("a", PositionField::Missing, "1"),
        remove_entry("b", PositionField::Null, Some("hello.*")),
    ]));

    assert_eq!(warning, None);
    assert_eq!(config.len(), 2);
    let mut query = vec![query_pair("b", "hello"), query_pair("b", "bye")];
    config.apply(&mut query);
    assert_eq!(query, vec![query_pair("b", "bye"), query_pair("a", "1")]);
}

#[test]
fn an_empty_payload_loads_the_empty_table() {
    let (config, warning) = get_config(Ok(Vec::new()));
    assert_eq!(warning, None);
    assert_eq!(config.len(), 0);
}

#[test]
fn an_invalid_pattern_falls_back_to_the_empty_table_with_one_warning() {
    let (config, warning) = get_config(Ok(vec![
        add_entry("a", PositionField::Missing, "1"),
        remove_entry("b", PositionField::Missing, Some("(unclosed")),
        add_entry("c", PositionField::Missing, "3"),
    ]));

    assert_eq!(config.len(), 0);
    let warning = warning.unwrap();
    assert!(warning.starts_with("Invalid configuration: "));
    assert!(warning.len() > "Invalid configuration: ".len());
    let mut query = vec![query_pair("b", "1"), query_pair("x", "2")];
    config.apply(&mut query);
    assert_eq!(query, vec![query_pair("b", "1"), query_pair("x", "2")]);
}

#[test]
fn an_invalid_position_falls_back_to_the_empty_table_with_one_warning() {
    let (config, warning) = get_config(Ok(vec![add_entry(
        "a",
        PositionField::Text("first".to_string()),
        "1",
    )]));

    assert_eq!(config.len(), 0);
    assert_eq!(
        warning,
        Some(
            "Invalid configuration: position is not a whole number from -128 to 127".to_string()
        )
    );
}

#[test]
fn an_unreadable_payload_falls_back_to_the_empty_table_with_one_warning() {
    let objection = serde_json::from_str::<serde_json::Value>("{\"a\": ")
        .unwrap_err()
        .to_string();

    let (config, warning) = get_config(Err(objection.clone()));

    assert_eq!(config.len(), 0);
    assert_eq!(warning, Some(format!("Invalid configuration: {objection}")));
}
