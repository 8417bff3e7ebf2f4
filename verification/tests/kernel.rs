//! The library's schemas next to those of the kernel.
use column_mapping::{
    validate_column_mapping_metadata, ArrayType, DataType, MapType, MetadataValue, PrimitiveType,
    StructField, StructType,
};
use delta_kernel::schema as kernel;

const SPEC: &str = "delta.metadataSpec";

fn kernel_type(data_type: &DataType) -> kernel::DataType {
    match data_type {
        DataType::Primitive(_) => kernel::DataType::STRING,
        DataType::Array(inner) => kernel::DataType::Array(Box::new(kernel::ArrayType::new(
            kernel_type(&inner.element_type),
            inner.contains_null,
        ))),
        DataType::Struct(inner) => {
            kernel::DataType::Struct(Box::new(kernel::StructType::new_unchecked(
                inner.fields.iter().map(|field| kernel_field(field)),
            )))
        }
        DataType::KeyValue(inner) => kernel::DataType::Map(Box::new(kernel::MapType::new(
            kernel_type(&inner.key_type),
            kernel_type(&inner.value_type),
            inner.value_contains_null,
        ))),
        DataType::Variant(inner) => {
            kernel::DataType::Variant(Box::new(kernel::StructType::new_unchecked(
                inner.fields.iter().map(|field| kernel_field(field)),
            )))
        }
    }
}

fn kernel_field(field: &StructField) -> kernel::StructField {
    let made = kernel::StructField::new(
        field.name.clone(),
        kernel_type(&field.data_type),
        field.nullable,
    );
    match field.metadata.get(SPEC) {
        Some(MetadataValue::String(text)) => made.with_metadata([(SPEC, text.clone())]),
        Some(MetadataValue::Number(n)) => made.with_metadata([(SPEC, *n)]),
        Some(_) => made.with_metadata([(SPEC, true)]),
        None => made,
    }
}

fn leaf(name: &str) -> StructField {
    StructField::new(name, DataType::Primitive(PrimitiveType::String), true)
}

fn marked(name: &str, data_type: DataType, mark: MetadataValue) -> StructField {
    StructField::new(name, data_type, true).with_metadata(vec![(SPEC, mark)])
}

fn text(value: &str) -> MetadataValue {
    MetadataValue::String(value.to_string())
}

fn of_struct(fields: Vec<StructField>) -> DataType {
    DataType::Struct(Box::new(StructType { fields }))
}

fn of_variant(fields: Vec<StructField>) -> DataType {
    DataType::Variant(Box::new(StructType { fields }))
}

fn of_array(element_type: DataType) -> DataType {
    DataType::Array(Box::new(ArrayType { element_type, contains_null: true }))
}

fn of_map(key_type: DataType, value_type: DataType) -> DataType {
    DataType::KeyValue(Box::new(MapType { key_type, value_type, value_contains_null: true }))
}

fn primitive() -> DataType {
    DataType::Primitive(PrimitiveType::String)
}

/// Types with no metadata column in them, and with one at different places.
fn types() -> Vec<DataType> {
    let mark = || marked("q", primitive(), text("row_id"));
    let clean = || of_struct(vec![leaf("p"), leaf("q")]);
    let dirty = || of_struct(vec![leaf("p"), mark()]);
    let nested = || of_struct(vec![StructField::new("n", dirty(), true)]);
    let marked_struct = || of_struct(vec![marked("n", clean(), text("row_id"))]);
    let mut made = vec![
        primitive(),
        clean(),
        dirty(),
        nested(),
        marked_struct(),
        of_struct(vec![StructField::new("n", of_array(dirty()), true)]),
        of_struct(vec![StructField::new("n", of_array(clean()), true)]),
        of_struct(vec![StructField::new("n", of_map(primitive(), dirty()), true)]),
        of_struct(vec![StructField::new("n", of_variant(vec![mark()]), true)]),
        of_struct(vec![marked("n", of_variant(vec![leaf("p")]), text("x"))]),
        of_struct(vec![marked("n", primitive(), MetadataValue::Number(1))]),
        of_variant(vec![mark()]),
        of_variant(vec![leaf("p")]),
    ];
    let inner: Vec<DataType> = made.clone();
    for one in &inner {
        made.push(of_array(one.clone()));
        made.push(of_array(of_array(one.clone())));
        made.push(of_map(one.clone(), primitive()));
        made.push(of_map(primitive(), one.clone()));
        made.push(of_map(clean(), of_array(one.clone())));
    }
    made
}

fn check(fields: Vec<StructField>) {
    let expected = kernel::StructType::try_new(fields.iter().map(|field| kernel_field(field))).is_ok();
    let shown = format!("{fields:?}");
    assert_eq!(StructType::try_new(fields).is_some(), expected, "{shown}");
}

#[test]
fn structs_are_made_of_what_the_kernel_accepts() {
    let kinds = ["row_index", "row_id", "row_commit_version", "_file", "ROW_ID", "file", ""];
    for first in kinds {
        for second in kinds {
            check(vec![
                marked("a", primitive(), text(first)),
                marked("b", primitive(), text(second)),
            ]);
            check(vec![
                marked("a", primitive(), text(first)),
                leaf("b"),
                marked("c", primitive(), text(second)),
            ]);
        }
        check(vec![
            marked("a", primitive(), text(first)),
            marked("b", primitive(), MetadataValue::Number(3)),
            marked("c", primitive(), MetadataValue::Boolean(true)),
        ]);
    }
    let names = ["a", "A", "b", "", "a.b"];
    for first in names {
        for second in names {
            check(vec![leaf(first), leaf(second)]);
            check(vec![leaf(first), leaf("c"), leaf(second)]);
        }
    }
    for data_type in types() {
        check(vec![StructField::new("f", data_type.clone(), true)]);
        check(vec![leaf("e"), StructField::new("f", data_type.clone(), true)]);
        check(vec![marked("f", data_type.clone(), text("row_index"))]);
        check(vec![marked("f", data_type, text("nothing"))]);
    }
}

/// The message that the value of a physical name or an id is shown in.
fn reported(key: &str, value: MetadataValue) -> String {
    let fields = vec![
        StructField::new("f", primitive(), true).with_metadata(vec![(key, value)]),
    ];
    validate_column_mapping_metadata(&fields, 9).unwrap_err().to_string()
}

#[test]
fn values_are_shown_as_the_kernel_shows_them() {
    let name = kernel::ColumnMetadataKey::ColumnMappingPhysicalName;
    let id = kernel::ColumnMetadataKey::ColumnMappingId;
    for n in [0, 7, -7, 10, 1000000007, i64::MAX, i64::MIN] {
        assert_eq!(
            reported(name.as_ref(), MetadataValue::Number(n)),
            format!(
                "Column mapping physicalName for field 'f' must be a string, got: {:?}",
                kernel::MetadataValue::Number(n)
            )
        );
    }
    for b in [true, false] {
        assert_eq!(
            reported(name.as_ref(), MetadataValue::Boolean(b)),
            format!(
                "Column mapping physicalName for field 'f' must be a string, got: {:?}",
                kernel::MetadataValue::Boolean(b)
            )
        );
        assert_eq!(
            reported(id.as_ref(), MetadataValue::Boolean(b)),
            format!(
                "Column mapping id for field 'f' must be a number, got: {:?}",
                kernel::MetadataValue::Boolean(b)
            )
        );
    }
    for s in ["", "7", "a \"quoted\" text\n", "\u{e9}\u{200b}\\"] {
        assert_eq!(
            reported(id.as_ref(), MetadataValue::String(s.to_string())),
            format!(
                "Column mapping id for field 'f' must be a number, got: {:?}",
                kernel::MetadataValue::String(s.to_string())
            )
        );
    }
    for json in ["null", "[1,true,\"x\"]", "{\"a\":{\"b\":-2}}", "1.5", "18446744073709551615"] {
        let value: serde_json::Value = serde_json::from_str(json).unwrap();
        assert_eq!(
            reported(id.as_ref(), MetadataValue::Other(format!("{:?}", value))),
            format!(
                "Column mapping id for field 'f' must be a number, got: {:?}",
                kernel::MetadataValue::Other(value.clone())
            )
        );
        assert_eq!(
            reported(name.as_ref(), MetadataValue::Other(format!("{:?}", value))),
            format!(
                "Column mapping physicalName for field 'f' must be a string, got: {:?}",
                kernel::MetadataValue::Other(value)
            )
        );
    }
}

#[test]
fn values_of_any_depth_are_shown_as_the_kernel_shows_them() {
    let mut value = serde_json::Value::from(0.1 + 0.2);
    for _ in 0..200 {
        value = serde_json::Value::Array(vec![value]);
    }
    assert_eq!(
        reported("delta.columnMapping.id", MetadataValue::Other(format!("{:?}", value))),
        format!(
            "Column mapping id for field 'f' must be a number, got: {:?}",
            kernel::MetadataValue::Other(value)
        )
    );
}
