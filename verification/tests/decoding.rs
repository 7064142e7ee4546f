use query_rewrite::add::AddFields;
use query_rewrite::add::AddOperation;
use query_rewrite::remove::RemoveFields;
use query_rewrite::remove::RemoveOperation;
use query_rewrite::wire::parse_i8;
use query_rewrite::wire::ConfigError;
use query_rewrite::wire::PositionField;

/// The position field of a JSON object, as the library takes it.
fn position_field(object: &serde_json::Value) -> PositionField {
    match object.get("position") {
        None => PositionField::Missing,
        Some(serde_json::Value::Null) => PositionField::Null,
        Some(serde_json::Value::String(text)) => PositionField::Text(text.clone()),
        Some(other) => PositionField::Number(other.as_i64().unwrap()),
    }
}

fn text_field(object: &serde_json::Value, name: &str) -> Option<String> {
    object.get(name).and_then(|value| value.as_str()).map(|text| text.to_string())
}

fn add_fields(json: &str) -> AddFields {
    let object: serde_json::Value = serde_json::from_str(json).unwrap();
    AddFields {
        position: position_field(&object),
        value: text_field(&object, "value"),
    }
}

fn remove_fields(json: &str) -> RemoveFields {
    let object: serde_json::Value = serde_json::from_str(json).unwrap();
    RemoveFields {
        position: position_field(&object),
        regexp: text_field(&object, "regexp"),
    }
}

#[test]
fn deserialize_add_position() {
    let _add_operation_from_string: AddOperation =
        AddOperation::decode(&add_fields(r#"{"position": "-1"}"#)).unwrap();
    let _add_operation_from_number: AddOperation =
        AddOperation::decode(&add_fields(r#"{"position": -1}"#)).unwrap();
}

#[test]
fn deserialize_remove() {
    let remove_operation_from_string: RemoveOperation =
        RemoveOperation::decode(&remove_fields(r#"{"position": "-1"}"#)).unwrap();
    assert_eq!(remove_operation_from_string, RemoveOperation::position(-1));
    let remove_operation_from_number: RemoveOperation =
        RemoveOperation::decode(&remove_fields(r#"{"position": -1}"#)).unwrap();
    assert_eq!(remove_operation_from_number, RemoveOperation::position(-1));
    let remove_operation_all: RemoveOperation =
        RemoveOperation::decode(&remove_fields("{}")).unwrap();
    assert_eq!(remove_operation_all, RemoveOperation::all());
    let remove_operation_all_explicit_null: RemoveOperation =
        RemoveOperation::decode(&remove_fields(r#"{"position": null}"#)).unwrap();
    assert_eq!(remove_operation_all_explicit_null, RemoveOperation::all());
    let remove_operation_all_regexp: RemoveOperation =
        RemoveOperation::decode(&remove_fields(r#"{"regexp": "hello.*"}"#)).unwrap();
    assert_eq!(
        remove_operation_all_regexp,
        RemoveOperation::all().matching_regexp("hello.*").unwrap()
    );
    let remove_operation_position_regexp: RemoveOperation = RemoveOperation::decode(
        &remove_fields(r#"{"position": "-2", "regexp": "hello.*"}"#),
    )
    .unwrap();
    assert_eq!(
        remove_operation_position_regexp,
        RemoveOperation::position(-2)
            .matching_regexp("hello.*")
            .unwrap()
    );
}

#[test]
fn add_decodes_number_and_text_alike() {
    for (number, text) in [(-128i64, "-128"), (-1, "-1"), (0, "0"), (5, "+5"), (127, "127")] {
        let from_number = AddOperation::decode(&AddFields {
            position: PositionField::Number(number),
            value: Some("v".to_string()),
        })
        .unwrap();
        let from_text = AddOperation::decode(&AddFields {
            position: PositionField::Text(text.to_string()),
            value: Some("v".to_string()),
        })
        .unwrap();
        assert_eq!(from_number, from_text);
        assert_eq!(from_number.position as i64, number);
        assert_eq!(from_number.value, Some("v".to_string()));
    }
}

#[test]
fn add_without_a_position_goes_behind_the_last() {
    let operation = AddOperation::decode(&add_fields(r#"{"value": "v"}"#)).unwrap();
    assert_eq!(
        operation,
        AddOperation {
            position: -1,
            value: Some("v".to_string())
        }
    );
    let bare = AddOperation::decode(&add_fields("{}")).unwrap();
    assert_eq!(
        bare,
        AddOperation {
            position: -1,
            value: None
        }
    );
}

#[test]
fn add_refuses_a_null_position() {
    let refused = AddOperation::decode(&add_fields(r#"{"position": null}"#));
    assert!(matches!(refused, Err(ConfigError::InvalidPosition)));
}

#[test]
fn positions_out_of_range_are_refused() {
    for number in [-129i64, 128, 300, i64::MIN, i64::MAX] {
        let add = AddOperation::decode(&AddFields {
            position: PositionField::Number(number),
            value: None,
        });
        assert!(matches!(add, Err(ConfigError::InvalidPosition)));
        let remove = RemoveOperation::decode(&RemoveFields {
            position: PositionField::Number(number),
            regexp: None,
        });
        assert!(matches!(remove, Err(ConfigError::InvalidPosition)));
    }
    for text in ["-129", "128", "1000", "99999999999999999999999"] {
        let remove = RemoveOperation::deserialize(&PositionField::Text(text.to_string()));
        assert!(matches!(remove, Err(ConfigError::InvalidPosition)));
    }
}

#[test]
fn position_texts_that_are_no_numbers_are_refused() {
    for text in ["", "+", "-", "abc", " 1", "1 ", "1.0", "--1", "+-1", "1e1", "0x10", "١"] {
        let remove = RemoveOperation::deserialize(&PositionField::Text(text.to_string()));
        assert!(matches!(remove, Err(ConfigError::InvalidPosition)), "{text:?}");
    }
}

#[test]
fn remove_position_field_in_each_form() {
    assert_eq!(
        RemoveOperation::deserialize(&PositionField::Missing).unwrap(),
        None
    );
    assert_eq!(
        RemoveOperation::deserialize(&PositionField::Null).unwrap(),
        None
    );
    assert_eq!(
        RemoveOperation::deserialize(&PositionField::Number(7)).unwrap(),
        Some(7)
    );
    assert_eq!(
        RemoveOperation::deserialize(&PositionField::Text("-007".to_string())).unwrap(),
        Some(-7)
    );
}

#[test]
fn remove_refuses_a_pattern_that_does_not_compile() {
    let refused = RemoveOperation::decode(&remove_fields(r#"{"regexp": "("}"#));
    assert!(matches!(refused, Err(ConfigError::InvalidPattern(_))));
}

#[test]
fn remove_looks_at_the_position_before_the_pattern() {
    let refused = RemoveOperation::decode(&remove_fields(r#"{"position": "x", "regexp": "("}"#));
    assert!(matches!(refused, Err(ConfigError::InvalidPosition)));
}

#[test]
fn refusals_in_words() {
    assert_eq!(
        ConfigError::InvalidPosition.message(),
        "position is not a whole number from -128 to 127"
    );
    let refused = RemoveOperation::decode(&remove_fields(r#"{"regexp": "("}"#)).unwrap_err();
    assert!(!refused.message().is_empty());
}

#[test]
fn numbers_in_decimal_are_read_as_the_standard_library_reads_them() {
    for number in -1000i32..=1000 {
        let plain = number.to_string();
        assert_eq!(parse_i8(&plain), plain.parse::<i8>().ok(), "{plain:?}");
        let padded = if number < 0 {
            format!("-00{}", -number)
        } else {
            format!("+00{number}")
        };
        assert_eq!(parse_i8(&padded), padded.parse::<i8>().ok(), "{padded:?}");
    }
    assert_eq!(parse_i8("127"), Some(127));
    assert_eq!(parse_i8("-128"), Some(-128));
    assert_eq!(parse_i8("128"), None);
    assert_eq!(parse_i8("-129"), None);
    assert_eq!(parse_i8("-0"), Some(0));
    assert_eq!(parse_i8("+0"), Some(0));
    assert_eq!(parse_i8("0000000000000000000000000000000000127"), Some(127));
}

#[test]
fn short_texts_are_read_as_the_standard_library_reads_them() {
    let alphabet = ['+', '-', '0', '1', '2', '8', '9', ' ', 'a', '.', 'é', '٣'];
    let mut texts = vec![String::new()];
    let mut from = 0;
    for _ in 0..4 {
        let upto = texts.len();
        for index in from..upto {
            for letter in alphabet {
                let mut longer = texts[index].clone();
                longer.push(letter);
                texts.push(longer);
            }
        }
        from = upto;
    }
    assert_eq!(texts.len(), 1 + 12 + 144 + 1728 + 20736);
    for text in texts {
        assert_eq!(parse_i8(&text), text.parse::<i8>().ok(), "{text:?}");
    }
}
