use column_mapping::{
    column_mapping_mode_from_config, ensure_column_mapping_protocol,
    get_max_column_id_from_config, validate_column_mapping_metadata,
    validate_column_mapping_mode_property, ColumnMappingMode, DataType, DeltaTableError,
    MetadataValue, PrimitiveType, Protocol, StructField, StructType,
};
use std::collections::HashMap;

const ID: &str = "delta.columnMapping.id";
const NAME: &str = "delta.columnMapping.physicalName";

fn leaf(name: &str) -> StructField {
    StructField::new(name, DataType::Primitive(PrimitiveType::Date), true)
}

fn mapped(name: &str, physical: &str, id: i64) -> StructField {
    leaf(name).with_metadata(vec![
        (NAME, MetadataValue::String(physical.to_string())),
        (ID, MetadataValue::Number(id)),
    ])
}

fn setting(key: &str, value: &str) -> HashMap<String, String> {
    let mut config = HashMap::new();
    config.insert(key.to_string(), value.to_string());
    config
}

fn max_in(value: &str) -> i64 {
    get_max_column_id_from_config(&setting("delta.columnMapping.maxColumnId", value))
}

#[test]
fn the_greatest_id_is_read_from_the_settings() {
    assert_eq!(get_max_column_id_from_config(&HashMap::new()), 0);
    assert_eq!(get_max_column_id_from_config(&setting("maxColumnId", "4")), 0);
    assert_eq!(max_in("42"), 42);
    assert_eq!(max_in("+42"), 42);
    assert_eq!(max_in("-42"), -42);
    assert_eq!(max_in("007"), 7);
    assert_eq!(max_in("-0"), 0);
    assert_eq!(max_in("9223372036854775807"), i64::MAX);
    assert_eq!(max_in("-9223372036854775808"), i64::MIN);
}

#[test]
fn what_is_no_greatest_id_reads_as_zero() {
    for value in [
        "",
        "-",
        "+",
        " 4",
        "4 ",
        "4_000",
        "4.0",
        "+-4",
        "four",
        "0x10",
        "9223372036854775808",
        "-9223372036854775809",
        "\u{664}",
    ] {
        assert_eq!(max_in(value), 0, "{value}");
    }
}

#[test]
fn a_greatest_id_is_read_back() {
    for id in [0, 1, 9, 10, 99, 100, -1, -10, i64::MAX, i64::MIN] {
        assert_eq!(max_in(&id.to_string()), id);
    }
}

#[test]
fn other_modes_are_no_mapping() {
    for value in ["Name", "ID", "", " name", "names", "none"] {
        let config = setting("delta.columnMapping.mode", value);
        assert_eq!(column_mapping_mode_from_config(&config), ColumnMappingMode::NoMapping);
    }
    let config = setting("delta.columnmapping.mode", "name");
    assert_eq!(column_mapping_mode_from_config(&config), ColumnMappingMode::NoMapping);
}

#[test]
fn an_accepted_mode_is_read_back() {
    let modes = [
        ("name", ColumnMappingMode::Name),
        ("id", ColumnMappingMode::Id),
        ("none", ColumnMappingMode::NoMapping),
    ];
    for (value, mode) in modes {
        assert!(validate_column_mapping_mode_property(value, ColumnMappingMode::NoMapping).is_ok());
        let config = setting("delta.columnMapping.mode", value);
        assert_eq!(column_mapping_mode_from_config(&config), mode);
    }
}

#[test]
fn column_mapping_is_never_disabled() {
    for current in [ColumnMappingMode::Name, ColumnMappingMode::Id] {
        assert!(validate_column_mapping_mode_property("name", current).is_ok());
        assert!(validate_column_mapping_mode_property("id", current).is_ok());
        let error = validate_column_mapping_mode_property("none", current).unwrap_err();
        assert_eq!(
            error,
            DeltaTableError::Generic(
                "Disabling column mapping on a column-mapped table is not supported. \
                 Column mapping cannot be deactivated once enabled."
                    .to_string()
            )
        );
    }
}

#[test]
fn an_invalid_mode_is_named() {
    let error = validate_column_mapping_mode_property("Name", ColumnMappingMode::Id).unwrap_err();
    assert_eq!(
        error.to_string(),
        "Invalid column mapping mode 'Name'. Supported values are 'name' and 'id'."
    );
}

fn fault(fields: Vec<StructField>, max: i64) -> String {
    validate_column_mapping_metadata(&fields, max).unwrap_err().to_string()
}

#[test]
fn each_fault_has_its_message() {
    assert_eq!(
        fault(vec![], 0),
        "delta.columnMapping.maxColumnId must be positive, got: 0"
    );
    assert_eq!(
        fault(vec![mapped("a", "p", 0)], -12),
        "delta.columnMapping.maxColumnId must be positive, got: -12"
    );
    assert_eq!(
        fault(vec![mapped("a", "p", 1), mapped("b", "p", 2)], 2),
        "Duplicate column mapping physicalName 'p' found in schema."
    );
    assert_eq!(
        fault(vec![leaf("a").with_metadata(vec![(NAME, MetadataValue::Number(42))])], 2),
        "Column mapping physicalName for field 'a' must be a string, got: Number(42)"
    );
    assert_eq!(
        fault(vec![mapped("a", "p", -1)], 2),
        "Column mapping id for field 'a' must be positive, got: -1"
    );
    assert_eq!(
        fault(vec![mapped("a", "p", 1), mapped("b", "q", 1)], 2),
        "Duplicate column mapping id 1 found in schema."
    );
    assert_eq!(
        fault(vec![mapped("a", "p", 5)], 3),
        "Column mapping id 5 for field 'a' exceeds maxColumnId (3)."
    );
    assert_eq!(
        fault(
            vec![leaf("a").with_metadata(vec![(ID, MetadataValue::String("1".to_string()))])],
            3
        ),
        "Column mapping id for field 'a' must be a number, got: String(\"1\")"
    );
}

#[test]
fn the_first_fault_is_reported() {
    // The physical name comes before the id.
    assert_eq!(
        fault(vec![mapped("a", "p", 1), mapped("b", "p", 1)], 2),
        "Duplicate column mapping physicalName 'p' found in schema."
    );
    // A duplicate comes before an id that is too great.
    assert_eq!(
        fault(vec![mapped("a", "p", 2), mapped("b", "q", 2), mapped("c", "r", 9)], 8),
        "Duplicate column mapping id 2 found in schema."
    );
    // A column comes before the columns below it, and those before the next column.
    let nested = StructField::new(
        "s",
        DataType::Struct(Box::new(StructType { fields: vec![mapped("x", "p", -3)] })),
        true,
    );
    assert_eq!(
        fault(vec![nested, mapped("b", "q", -4)], 8),
        "Column mapping id for field 'x' must be positive, got: -3"
    );
}

#[test]
fn columns_without_metadata_validate() {
    assert!(validate_column_mapping_metadata(&[], 1).is_ok());
    assert!(validate_column_mapping_metadata(&[leaf("a"), leaf("b")], 1).is_ok());
}

#[test]
fn nested_columns_are_compared_with_all_others() {
    let nested = |id: i64| {
        StructField::new(
            "s",
            DataType::Struct(Box::new(StructType { fields: vec![mapped("x", "px", id)] })),
            true,
        )
    };
    assert!(validate_column_mapping_metadata(&[nested(1), mapped("a", "pa", 2)], 2).is_ok());
    assert_eq!(
        fault(vec![nested(1), mapped("a", "pa", 1)], 2),
        "Duplicate column mapping id 1 found in schema."
    );
    assert_eq!(
        fault(vec![nested(1), mapped("a", "px", 2)], 2),
        "Duplicate column mapping physicalName 'px' found in schema."
    );
}

fn names(list: &[&str]) -> Option<Vec<String>> {
    Some(list.iter().map(|name| name.to_string()).collect())
}

fn protocol(
    min_reader_version: i32,
    min_writer_version: i32,
    reader_features: Option<Vec<String>>,
    writer_features: Option<Vec<String>>,
) -> Protocol {
    Protocol { min_reader_version, min_writer_version, reader_features, writer_features }
}

#[test]
fn legacy_versions_are_raised_where_lower() {
    assert_eq!(
        ensure_column_mapping_protocol(protocol(1, 1, None, None)),
        protocol(2, 5, None, None)
    );
    assert_eq!(
        ensure_column_mapping_protocol(protocol(2, 6, None, None)),
        protocol(2, 6, None, None)
    );
    assert_eq!(
        ensure_column_mapping_protocol(protocol(1, 6, None, None)),
        protocol(2, 6, None, None)
    );
}

#[test]
fn either_version_leads_to_features() {
    assert_eq!(
        ensure_column_mapping_protocol(protocol(1, 7, None, names(&["appendOnly"]))),
        protocol(3, 7, names(&["columnMapping"]), names(&["appendOnly", "columnMapping"]))
    );
    assert_eq!(
        ensure_column_mapping_protocol(protocol(3, 5, names(&["deletionVectors"]), None)),
        protocol(3, 7, names(&["deletionVectors", "columnMapping"]), names(&["columnMapping"]))
    );
}

#[test]
fn ensuring_the_protocol_twice_is_ensuring_it_once() {
    let once = ensure_column_mapping_protocol(protocol(
        3,
        7,
        names(&["columnMapping", "deletionVectors"]),
        names(&["deletionVectors"]),
    ));
    assert_eq!(once.reader_features, names(&["columnMapping", "deletionVectors"]));
    assert_eq!(once.writer_features, names(&["deletionVectors", "columnMapping"]));
    let twice = ensure_column_mapping_protocol(protocol(
        once.min_reader_version,
        once.min_writer_version,
        once.reader_features.clone(),
        once.writer_features.clone(),
    ));
    assert_eq!(twice, once);
    let legacy = ensure_column_mapping_protocol(protocol(1, 2, None, None));
    assert_eq!(ensure_column_mapping_protocol(legacy), protocol(2, 5, None, None));
}

#[test]
fn later_versions_become_those_of_the_feature_sets() {
    assert_eq!(
        ensure_column_mapping_protocol(protocol(4, 8, None, None)),
        protocol(3, 7, names(&["columnMapping"]), names(&["columnMapping"]))
    );
}
