use column_mapping::{
    assign_column_mapping_metadata, assign_identity_column_mapping_metadata,
    column_mapping_mode_from_config, ensure_column_mapping_protocol,
    validate_column_mapping_metadata, validate_column_mapping_mode_property, ArrayType,
    ColumnMappingMode, DataType, MapType, MetadataValue, PrimitiveType, Protocol, StructField,
    StructType,
};
use delta_kernel::schema::ColumnMetadataKey;
use delta_kernel::table_features::TableFeature;
use std::collections::HashMap;

fn integer() -> DataType {
    DataType::Primitive(PrimitiveType::Integer)
}

fn string() -> DataType {
    DataType::Primitive(PrimitiveType::String)
}

fn array(element_type: DataType, contains_null: bool) -> DataType {
    DataType::Array(Box::new(ArrayType { element_type, contains_null }))
}

fn field(name: &str, data_type: DataType, nullable: bool) -> StructField {
    StructField::new(name, data_type, nullable)
}

fn mapped(name: &str, data_type: DataType, nullable: bool, physical: &str, id: i64) -> StructField {
    field(name, data_type, nullable).with_metadata(vec![
        (
            ColumnMetadataKey::ColumnMappingPhysicalName.as_ref(),
            MetadataValue::String(physical.to_string()),
        ),
        (ColumnMetadataKey::ColumnMappingId.as_ref(), MetadataValue::Number(id)),
    ])
}

#[test]
fn test_assign_column_mapping_metadata() {
    let mut fields = vec![field("a", integer(), false), field("b", string(), true)];
    let mut max_id = 0i64;
    assign_column_mapping_metadata(&mut fields, &mut max_id);

    assert_eq!(max_id, 2);
    for field in &fields {
        assert!(field
            .metadata
            .contains_key(ColumnMetadataKey::ColumnMappingPhysicalName.as_ref()));
        assert!(field.metadata.contains_key(ColumnMetadataKey::ColumnMappingId.as_ref()));
    }
    // Generated physical names should be UUID-based, not the logical name
    let phys = fields[0]
        .metadata
        .get(ColumnMetadataKey::ColumnMappingPhysicalName.as_ref())
        .unwrap();
    match phys {
        MetadataValue::String(s) => assert!(s.starts_with("col-"), "got: {s}"),
        other => panic!("expected string, got: {other:?}"),
    }
}

#[test]
fn test_assign_preserves_existing_metadata() {
    let mut fields = vec![mapped("a", integer(), false, "custom_phys", 42)];
    let mut max_id = 0i64;
    assign_column_mapping_metadata(&mut fields, &mut max_id);

    // Existing metadata should be preserved
    assert_eq!(max_id, 42);
    let phys = fields[0]
        .metadata
        .get(ColumnMetadataKey::ColumnMappingPhysicalName.as_ref())
        .unwrap();
    assert_eq!(phys, &MetadataValue::String("custom_phys".to_string()));
    let id = fields[0]
        .metadata
        .get(ColumnMetadataKey::ColumnMappingId.as_ref())
        .unwrap();
    assert_eq!(id, &MetadataValue::Number(42));
}

#[test]
fn test_assign_nested_struct() {
    let inner = StructType::try_new(vec![field("x", integer(), false)]).unwrap();
    let mut fields = vec![field("nested", DataType::Struct(Box::new(inner)), true)];
    let mut max_id = 0i64;
    assign_column_mapping_metadata(&mut fields, &mut max_id);

    assert_eq!(max_id, 2); // nested + x
    // The nested struct field "x" should also have metadata
    if let DataType::Struct(inner) = &fields[0].data_type {
        let x = inner.fields.first().unwrap();
        assert!(x
            .metadata
            .contains_key(ColumnMetadataKey::ColumnMappingPhysicalName.as_ref()));
        assert!(x.metadata.contains_key(ColumnMetadataKey::ColumnMappingId.as_ref()));
    } else {
        panic!("expected struct type");
    }
}

#[test]
fn test_assign_deeply_nested_array_of_array_of_struct() {
    // array<array<struct<x: int>>>
    let inner_struct = StructType::try_new(vec![field("x", integer(), false)]).unwrap();
    let inner_array = array(DataType::Struct(Box::new(inner_struct)), true);
    let outer_array = array(inner_array, true);
    let mut fields = vec![field("col", outer_array, true)];
    let mut max_id = 0i64;
    assign_column_mapping_metadata(&mut fields, &mut max_id);

    // col gets id 1, nested x gets id 2
    assert_eq!(max_id, 2);
    // Verify the deeply nested struct field x has metadata
    if let DataType::Array(outer) = &fields[0].data_type {
        if let DataType::Array(inner) = &outer.element_type {
            if let DataType::Struct(s) = &inner.element_type {
                let x = s.fields.first().unwrap();
                assert!(
                    x.metadata
                        .contains_key(ColumnMetadataKey::ColumnMappingPhysicalName.as_ref()),
                    "deeply nested field should have physicalName"
                );
            } else {
                panic!("expected struct");
            }
        } else {
            panic!("expected inner array");
        }
    } else {
        panic!("expected outer array");
    }
}

#[test]
fn test_assign_map_with_array_struct_value() {
    // map<string, array<struct<v: int>>>
    let inner_struct = StructType::try_new(vec![field("v", integer(), false)]).unwrap();
    let array_type = array(DataType::Struct(Box::new(inner_struct)), true);
    let map_type = DataType::KeyValue(Box::new(MapType {
        key_type: string(),
        value_type: array_type,
        value_contains_null: true,
    }));
    let mut fields = vec![field("m", map_type, true)];
    let mut max_id = 0i64;
    assign_column_mapping_metadata(&mut fields, &mut max_id);

    // m gets id 1, v gets id 2
    assert_eq!(max_id, 2);
    if let DataType::KeyValue(map) = &fields[0].data_type {
        if let DataType::Array(arr) = &map.value_type {
            if let DataType::Struct(s) = &arr.element_type {
                let v = s.fields.first().unwrap();
                assert!(
                    v.metadata
                        .contains_key(ColumnMetadataKey::ColumnMappingPhysicalName.as_ref()),
                    "map value struct field should have physicalName"
                );
            } else {
                panic!("expected struct");
            }
        } else {
            panic!("expected array");
        }
    } else {
        panic!("expected map");
    }
}

#[test]
fn test_column_mapping_mode_from_config() {
    let mut config = HashMap::new();
    assert_eq!(column_mapping_mode_from_config(&config), ColumnMappingMode::NoMapping);
    config.insert("delta.columnMapping.mode".to_string(), "name".to_string());
    assert_eq!(column_mapping_mode_from_config(&config), ColumnMappingMode::Name);
    config.insert("delta.columnMapping.mode".to_string(), "id".to_string());
    assert_eq!(column_mapping_mode_from_config(&config), ColumnMappingMode::Id);
    config.insert("delta.columnMapping.mode".to_string(), "none".to_string());
    assert_eq!(column_mapping_mode_from_config(&config), ColumnMappingMode::NoMapping);
}

#[test]
fn test_assign_identity_column_mapping_metadata() {
    let mut fields = vec![field("alpha", integer(), false), field("beta", string(), true)];
    let mut max_id = 0i64;
    assign_identity_column_mapping_metadata(&mut fields, &mut max_id);

    assert_eq!(max_id, 2);
    // Identity mapping: physical name = logical name
    let phys_a = fields[0]
        .metadata
        .get(ColumnMetadataKey::ColumnMappingPhysicalName.as_ref())
        .unwrap();
    assert_eq!(
        phys_a,
        &MetadataValue::String("alpha".to_string()),
        "identity mapping should use logical name as physical name"
    );
    let phys_b = fields[1]
        .metadata
        .get(ColumnMetadataKey::ColumnMappingPhysicalName.as_ref())
        .unwrap();
    assert_eq!(
        phys_b,
        &MetadataValue::String("beta".to_string()),
        "identity mapping should use logical name as physical name"
    );
}

#[test]
fn test_identity_mapping_preserves_existing_metadata() {
    let mut fields = vec![mapped("a", integer(), false, "custom_phys", 10)];
    let mut max_id = 0i64;
    assign_identity_column_mapping_metadata(&mut fields, &mut max_id);

    assert_eq!(max_id, 10);
    let phys = fields[0]
        .metadata
        .get(ColumnMetadataKey::ColumnMappingPhysicalName.as_ref())
        .unwrap();
    assert_eq!(
        phys,
        &MetadataValue::String("custom_phys".to_string()),
        "existing physicalName should be preserved even with identity mode"
    );
}

#[test]
fn test_ensure_column_mapping_protocol_legacy_bump() {
    let protocol = Protocol {
        min_reader_version: 1,
        min_writer_version: 2,
        reader_features: None,
        writer_features: None,
    };
    let result = ensure_column_mapping_protocol(protocol);
    assert_eq!(result.min_reader_version, 2);
    assert_eq!(result.min_writer_version, 5);
}

#[test]
fn test_ensure_column_mapping_protocol_table_features() {
    let protocol = Protocol {
        min_reader_version: 3,
        min_writer_version: 7,
        reader_features: Some(vec![TableFeature::DeletionVectors.as_ref().to_string()]),
        writer_features: Some(vec![TableFeature::DeletionVectors.as_ref().to_string()]),
    };
    let result = ensure_column_mapping_protocol(protocol);
    assert_eq!(result.min_reader_version, 3);
    assert_eq!(result.min_writer_version, 7);
    let reader_features = result.reader_features.unwrap();
    assert!(
        reader_features.contains(&TableFeature::ColumnMapping.as_ref().to_string()),
        "ColumnMapping should be in reader features"
    );
    let writer_features = result.writer_features.unwrap();
    assert!(
        writer_features.contains(&TableFeature::ColumnMapping.as_ref().to_string()),
        "ColumnMapping should be in writer features"
    );
}

#[test]
fn test_validate_column_mapping_mode_valid_values() {
    assert!(validate_column_mapping_mode_property("name", ColumnMappingMode::NoMapping).is_ok());
    assert!(validate_column_mapping_mode_property("id", ColumnMappingMode::NoMapping).is_ok());
    assert!(validate_column_mapping_mode_property("none", ColumnMappingMode::NoMapping).is_ok());
}

#[test]
fn test_validate_column_mapping_mode_invalid_value() {
    let err = validate_column_mapping_mode_property("invalid", ColumnMappingMode::NoMapping)
        .unwrap_err()
        .to_string();
    assert!(err.contains("Invalid column mapping mode"), "got: {err}");
}

#[test]
fn test_validate_column_mapping_mode_reject_disable() {
    let err = validate_column_mapping_mode_property("none", ColumnMappingMode::Name)
        .unwrap_err()
        .to_string();
    assert!(err.contains("cannot be deactivated"), "got: {err}");
}

#[test]
fn test_validate_metadata_ok() {
    let fields = vec![
        mapped("a", integer(), false, "phys_a", 1),
        mapped("b", string(), true, "phys_b", 2),
    ];
    assert!(validate_column_mapping_metadata(&fields, 2).is_ok());
}

#[test]
fn test_validate_metadata_duplicate_physical_name() {
    let fields = vec![
        mapped("a", integer(), false, "same_name", 1),
        mapped("b", string(), true, "same_name", 2),
    ];
    let err = validate_column_mapping_metadata(&fields, 2).unwrap_err().to_string();
    assert!(err.contains("Duplicate"), "got: {err}");
}

#[test]
fn test_validate_metadata_duplicate_id() {
    let fields = vec![
        mapped("a", integer(), false, "phys_a", 1),
        mapped("b", string(), true, "phys_b", 1),
    ];
    let err = validate_column_mapping_metadata(&fields, 1).unwrap_err().to_string();
    assert!(err.contains("Duplicate column mapping id"), "got: {err}");
}

#[test]
fn test_validate_metadata_id_exceeds_max() {
    let fields = vec![mapped("a", integer(), false, "phys_a", 5)];
    let err = validate_column_mapping_metadata(&fields, 3).unwrap_err().to_string();
    assert!(err.contains("exceeds"), "got: {err}");
}

#[test]
fn test_validate_metadata_wrong_type_physical_name() {
    let fields = vec![field("a", integer(), false).with_metadata(vec![
        (
            ColumnMetadataKey::ColumnMappingPhysicalName.as_ref(),
            MetadataValue::Number(42),
        ),
        (ColumnMetadataKey::ColumnMappingId.as_ref(), MetadataValue::Number(1)),
    ])];
    let err = validate_column_mapping_metadata(&fields, 1).unwrap_err().to_string();
    assert!(err.contains("must be a string"), "got: {err}");
}

#[test]
fn test_validate_metadata_negative_id_rejected() {
    let fields = vec![mapped("a", integer(), false, "phys_a", -1)];
    let err = validate_column_mapping_metadata(&fields, 1).unwrap_err().to_string();
    assert!(err.contains("must be positive"), "got: {err}");
}

#[test]
fn test_validate_metadata_zero_id_rejected() {
    let fields = vec![mapped("a", integer(), false, "phys_a", 0)];
    let err = validate_column_mapping_metadata(&fields, 1).unwrap_err().to_string();
    assert!(err.contains("must be positive"), "got: {err}");
}

#[test]
fn test_validate_metadata_zero_max_column_id_rejected() {
    let fields = vec![mapped("a", integer(), false, "phys_a", 1)];
    let err = validate_column_mapping_metadata(&fields, 0).unwrap_err().to_string();
    assert!(err.contains("maxColumnId must be positive"), "got: {err}");
}
