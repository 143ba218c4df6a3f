use brichka::DecodeError;
use brichka::JsonValue;
use brichka::SchemaField;
use brichka::TypeDesc;
use brichka::build_row_object;
use brichka::convert_field_value;
use brichka::format_complex_value;
use brichka::format_table_result;
use brichka::is_complex_type;
use brichka::to_json_string;

fn num(n: i64) -> JsonValue {
    JsonValue::Num(n.to_string())
}

fn field(name: &str, tpe: TypeDesc) -> SchemaField {
    SchemaField { name: name.to_string(), tpe }
}

#[test]
fn decoded_object_count_and_key_order() {
    let schema = vec![
        field("b", TypeDesc::Primitive),
        field("a", TypeDesc::Primitive),
        field("c", TypeDesc::Primitive),
    ];
    let data = JsonValue::Array(vec![
        JsonValue::Array(vec![num(1), num(2), num(3)]),
        JsonValue::Array(vec![num(4), num(5), num(6)]),
    ]);
    let rows = format_table_result(&schema, &data).unwrap();
    assert_eq!(rows.len(), 2);
    for row in &rows {
        match row {
            JsonValue::Object(members) => {
                assert_eq!(members.len(), 3);
                let keys: Vec<&str> = members.iter().map(|m| m.0.as_str()).collect();
                assert_eq!(keys, vec!["b", "a", "c"]);
            }
            other => panic!("expected an object, got {:?}", other),
        }
    }
}

#[test]
fn flat_schema_decodes_to_positional_zip() {
    let schema = vec![field("x", TypeDesc::Primitive), field("y", TypeDesc::Primitive)];
    let row = vec![num(10), JsonValue::Str("hi".to_string())];
    let obj = build_row_object(&schema, &row);
    assert_eq!(
        obj,
        vec![
            ("x".to_string(), num(10)),
            ("y".to_string(), JsonValue::Str("hi".to_string())),
        ]
    );
}

#[test]
fn nested_record_field_decodes() {
    let schema = vec![field(
        "a",
        TypeDesc::Record(vec![field("x", TypeDesc::Primitive)]),
    )];
    let data = JsonValue::Array(vec![JsonValue::Array(vec![JsonValue::Array(vec![num(1)])])]);
    let rows = format_table_result(&schema, &data).unwrap();
    assert_eq!(rows.len(), 1);
    assert_eq!(to_json_string(&rows[0], false), "{\"a\":{\"x\":1}}");
}

#[test]
fn array_of_records_decodes_elementwise() {
    let elem = TypeDesc::Record(vec![field("x", TypeDesc::Primitive)]);
    let schema = vec![field("a", TypeDesc::Array(Box::new(elem)))];
    let row_value = JsonValue::Array(vec![
        JsonValue::Array(vec![num(1)]),
        JsonValue::Array(vec![num(2)]),
    ]);
    let data = JsonValue::Array(vec![JsonValue::Array(vec![row_value])]);
    let rows = format_table_result(&schema, &data).unwrap();
    assert_eq!(rows.len(), 1);
    assert_eq!(to_json_string(&rows[0], false), "{\"a\":[{\"x\":1},{\"x\":2}]}");
}

#[test]
fn mismatched_row_length_fails_with_both_lengths() {
    let schema = vec![field("x", TypeDesc::Primitive)];
    let data = JsonValue::Array(vec![JsonValue::Array(vec![num(1), num(2)])]);
    let err = format_table_result(&schema, &data).unwrap_err();
    assert_eq!(err, DecodeError::RowLengthMismatch { row_len: 2, schema_len: 1 });
    assert_eq!(err.message(), "Row length 2 doesn't match schema length 1");
}

#[test]
fn mismatch_in_later_row_fails_whole_table() {
    let schema = vec![field("x", TypeDesc::Primitive)];
    let data = JsonValue::Array(vec![
        JsonValue::Array(vec![num(1)]),
        JsonValue::Array(vec![num(1), num(2)]),
    ]);
    assert!(format_table_result(&schema, &data).is_err());
}

#[test]
fn data_must_be_an_array() {
    let schema = vec![field("x", TypeDesc::Primitive)];
    let err = format_table_result(&schema, &JsonValue::Null).unwrap_err();
    assert_eq!(err, DecodeError::DataNotArray);
    assert_eq!(err.message(), "Data is not an array");
}

#[test]
fn row_must_be_an_array() {
    let schema = vec![field("x", TypeDesc::Primitive)];
    let data = JsonValue::Array(vec![num(7)]);
    let err = format_table_result(&schema, &data).unwrap_err();
    assert_eq!(err, DecodeError::RowNotArray);
    assert_eq!(err.message(), "Row is not an array");
}

#[test]
fn null_passes_through_any_descriptor() {
    let record = TypeDesc::Record(vec![field("x", TypeDesc::Primitive)]);
    assert_eq!(convert_field_value(&record, &JsonValue::Null), JsonValue::Null);
    let arr = TypeDesc::Array(Box::new(TypeDesc::Primitive));
    assert_eq!(convert_field_value(&arr, &JsonValue::Null), JsonValue::Null);
    assert_eq!(convert_field_value(&TypeDesc::Primitive, &JsonValue::Null), JsonValue::Null);
}

#[test]
fn value_without_declared_shape_passes_through() {
    let record = TypeDesc::Record(vec![field("x", TypeDesc::Primitive)]);
    assert_eq!(convert_field_value(&record, &num(5)), num(5));
}

#[test]
fn primitive_array_elements_pass_through() {
    let arr = TypeDesc::Array(Box::new(TypeDesc::Primitive));
    let v = JsonValue::Array(vec![num(1), JsonValue::Bool(true)]);
    assert_eq!(convert_field_value(&arr, &v), v);
}

#[test]
fn format_complex_value_spaces_key_separators() {
    let record = TypeDesc::Record(vec![field("x", TypeDesc::Primitive)]);
    let formatted = format_complex_value(&record, &JsonValue::Array(vec![num(1)]));
    assert_eq!(formatted, "{\"x\": 1}");
}

#[test]
fn record_with_short_row_keeps_present_fields() {
    let record = TypeDesc::Record(vec![
        field("x", TypeDesc::Primitive),
        field("y", TypeDesc::Primitive),
    ]);
    let decoded = convert_field_value(&record, &JsonValue::Array(vec![num(1)]));
    assert_eq!(decoded, JsonValue::Object(vec![("x".to_string(), num(1))]));
}

#[test]
fn complex_type_tag_is_a_prefix_check() {
    assert!(is_complex_type("{\"type\":\"struct\"}"));
    assert!(is_complex_type("  [\"integer\"]"));
    assert!(is_complex_type("\t{\"type\":\"array\"}"));
    assert!(!is_complex_type("integer"));
    assert!(!is_complex_type("  string "));
    assert!(!is_complex_type(""));
    assert!(!is_complex_type("   "));
}
