use column_mapping::{
    assign_column_mapping_metadata, assign_column_mapping_metadata_with_uuids,
    assign_identity_column_mapping_metadata, generated_physical_name, get_max_column_id, max_id_after, set_physical_name,
    validate_column_mapping_metadata, ArrayType, DataType, MapType, MetadataValue, PrimitiveType,
    StructField, StructType,
};

const ID: &str = "delta.columnMapping.id";
const NAME: &str = "delta.columnMapping.physicalName";
const SPEC: &str = "delta.metadataSpec";

fn leaf(name: &str) -> StructField {
    StructField::new(name, DataType::Primitive(PrimitiveType::Long), true)
}

fn text(value: &str) -> MetadataValue {
    MetadataValue::String(value.to_string())
}

fn of_struct(fields: Vec<StructField>) -> DataType {
    DataType::Struct(Box::new(StructType::try_new(fields).unwrap()))
}

fn of_array(element_type: DataType) -> DataType {
    DataType::Array(Box::new(ArrayType { element_type, contains_null: false }))
}

fn of_map(key_type: DataType, value_type: DataType) -> DataType {
    DataType::KeyValue(Box::new(MapType { key_type, value_type, value_contains_null: true }))
}

fn id_of(field: &StructField) -> i64 {
    match field.metadata.get(ID) {
        Some(MetadataValue::Number(id)) => *id,
        other => panic!("no id: {other:?}"),
    }
}

fn name_of(field: &StructField) -> String {
    match field.metadata.get(NAME) {
        Some(MetadataValue::String(name)) => name.clone(),
        other => panic!("no physical name: {other:?}"),
    }
}

fn type_fields(data_type: &DataType, out: &mut Vec<(String, String, i64)>) {
    match data_type {
        DataType::Struct(inner) => flatten(&inner.fields, out),
        DataType::Array(inner) => type_fields(&inner.element_type, out),
        DataType::KeyValue(inner) => {
            type_fields(&inner.key_type, out);
            type_fields(&inner.value_type, out);
        }
        _ => {}
    }
}

fn flatten(fields: &[StructField], out: &mut Vec<(String, String, i64)>) {
    for field in fields {
        out.push((field.name.clone(), name_of(field), id_of(field)));
        type_fields(&field.data_type, out);
    }
}

fn flat(fields: &[StructField]) -> Vec<(String, String, i64)> {
    let mut out = Vec::new();
    flatten(fields, &mut out);
    out
}

fn wide_schema() -> Vec<StructField> {
    vec![
        leaf("a"),
        StructField::new(
            "m",
            of_map(
                of_struct(vec![leaf("k1"), leaf("k2")]),
                of_array(of_struct(vec![StructField::new(
                    "v",
                    of_struct(vec![leaf("deep")]),
                    false,
                )])),
            ),
            true,
        ),
        leaf("z"),
    ]
}

#[test]
fn ids_follow_the_walk_order() {
    let mut fields = wide_schema();
    let mut max_id = 0i64;
    assign_identity_column_mapping_metadata(&mut fields, &mut max_id);
    let found: Vec<(String, String, i64)> = flat(&fields);
    let names = ["a", "m", "k1", "k2", "v", "deep", "z"];
    assert_eq!(found.len(), names.len());
    for (i, name) in names.iter().enumerate() {
        assert_eq!(found[i], (name.to_string(), name.to_string(), i as i64 + 1));
    }
    assert_eq!(max_id, 7);
}

#[test]
fn types_and_nullability_are_kept() {
    let mut fields = wide_schema();
    let mut max_id = 3i64;
    assign_identity_column_mapping_metadata(&mut fields, &mut max_id);
    assert_eq!(max_id, 10);
    assert!(fields[0].nullable);
    match &fields[1].data_type {
        DataType::KeyValue(map) => {
            assert!(map.value_contains_null);
            match &map.value_type {
                DataType::Array(array) => {
                    assert!(!array.contains_null);
                    match &array.element_type {
                        DataType::Struct(inner) => {
                            assert_eq!(inner.fields[0].name, "v");
                            assert!(!inner.fields[0].nullable);
                        }
                        other => panic!("not a struct: {other:?}"),
                    }
                }
                other => panic!("not an array: {other:?}"),
            }
        }
        other => panic!("not a map: {other:?}"),
    }
    assert_eq!(fields[2].data_type, DataType::Primitive(PrimitiveType::Long));
}

#[test]
fn generated_names_are_random_uuids() {
    let mut fields = wide_schema();
    let mut max_id = 0i64;
    assign_column_mapping_metadata(&mut fields, &mut max_id);
    let found = flat(&fields);
    assert_eq!(max_id, 7);
    let mut seen: Vec<String> = Vec::new();
    for (logical, physical, _) in found {
        assert_ne!(logical, physical);
        assert_eq!(physical.len(), 40);
        let uuid = physical.strip_prefix("col-").unwrap();
        let parsed = uuid::Uuid::parse_str(uuid).unwrap();
        assert_eq!(parsed.get_version_num(), 4);
        assert_eq!(parsed.to_string(), uuid);
        assert!(matches!(uuid.as_bytes()[19], b'8' | b'9' | b'a' | b'b'));
        assert!(!seen.contains(&physical));
        seen.push(physical);
    }
}

#[test]
fn a_generated_name_holds_the_given_uuid() {
    assert_eq!(
        generated_physical_name("6fa459ea-ee8a-4ca4-894e-db77e160355e"),
        "col-6fa459ea-ee8a-4ca4-894e-db77e160355e"
    );
}

#[test]
fn a_physical_name_is_recorded() {
    let mut field = leaf("a").with_metadata(vec![(NAME, text("old")), ("comment", text("c"))]);
    set_physical_name(&mut field, "new".to_string());
    assert_eq!(field.metadata.get(NAME), Some(&text("new")));
    assert_eq!(field.metadata.get("comment"), Some(&text("c")));
    assert_eq!(field.name, "a");
}

#[test]
fn later_metadata_takes_the_place_of_earlier() {
    let field = leaf("a").with_metadata(vec![(ID, MetadataValue::Number(1)), (ID, MetadataValue::Number(2))]);
    assert_eq!(field.metadata.get(ID), Some(&MetadataValue::Number(2)));
    assert_eq!(field.metadata.get(NAME), None);
    assert!(!field.metadata.contains_key(NAME));
}

#[test]
fn other_metadata_is_kept() {
    let json = MetadataValue::Other("[1,2]".to_string());
    let mut fields = vec![leaf("a").with_metadata(vec![
        ("comment", text("hello")),
        ("flag", MetadataValue::Boolean(true)),
        ("json", json.clone()),
    ])];
    let mut max_id = 0i64;
    assign_identity_column_mapping_metadata(&mut fields, &mut max_id);
    assert_eq!(fields[0].metadata.get("comment"), Some(&text("hello")));
    assert_eq!(fields[0].metadata.get("flag"), Some(&MetadataValue::Boolean(true)));
    assert_eq!(fields[0].metadata.get("json"), Some(&json));
    assert_eq!(name_of(&fields[0]), "a");
    assert_eq!(id_of(&fields[0]), 1);
}

#[test]
fn only_what_is_missing_is_added() {
    let mut fields = vec![
        leaf("a").with_metadata(vec![(NAME, text("phys"))]),
        leaf("b").with_metadata(vec![(ID, MetadataValue::Number(9))]),
        leaf("c"),
    ];
    let mut max_id = 4i64;
    assign_identity_column_mapping_metadata(&mut fields, &mut max_id);
    assert_eq!(
        flat(&fields),
        vec![
            ("a".to_string(), "phys".to_string(), 5),
            ("b".to_string(), "b".to_string(), 9),
            ("c".to_string(), "c".to_string(), 10),
        ]
    );
    assert_eq!(max_id, 10);
}

#[test]
fn a_smaller_existing_id_does_not_lower_the_maximum() {
    let mut fields = vec![leaf("a").with_metadata(vec![(ID, MetadataValue::Number(2))]), leaf("b")];
    let mut max_id = 8i64;
    assign_identity_column_mapping_metadata(&mut fields, &mut max_id);
    assert_eq!(id_of(&fields[0]), 2);
    assert_eq!(id_of(&fields[1]), 9);
    assert_eq!(max_id, 9);
}

#[test]
fn metadata_of_the_wrong_type_counts_as_existing() {
    let mut fields = vec![leaf("a").with_metadata(vec![(ID, text("7")), (NAME, MetadataValue::Boolean(false))])];
    let mut max_id = 1i64;
    assign_column_mapping_metadata(&mut fields, &mut max_id);
    assert_eq!(fields[0].metadata.get(ID), Some(&text("7")));
    assert_eq!(fields[0].metadata.get(NAME), Some(&MetadataValue::Boolean(false)));
    assert_eq!(max_id, 1);
}

#[test]
fn fields_of_a_variant_are_no_columns() {
    let stored = StructType::try_new(vec![leaf("metadata"), leaf("value")]).unwrap();
    let mut fields = vec![StructField::new("v", DataType::Variant(Box::new(stored)), true)];
    let mut max_id = 0i64;
    assign_column_mapping_metadata(&mut fields, &mut max_id);
    assert_eq!(max_id, 1);
    match &fields[0].data_type {
        DataType::Variant(inner) => assert!(!inner.fields[0].metadata.contains_key(ID)),
        other => panic!("not a variant: {other:?}"),
    }
    assert!(validate_column_mapping_metadata(&fields, 1).is_ok());
}

#[test]
fn a_struct_that_breaks_the_rules_stays_as_it_is() {
    let broken = StructType { fields: vec![leaf("x"), leaf("x")] };
    let mut fields = vec![
        StructField::new("s", of_array(DataType::Struct(Box::new(broken))), true),
        leaf("after"),
    ];
    let mut max_id = 0i64;
    assign_identity_column_mapping_metadata(&mut fields, &mut max_id);
    // The columns of the struct are counted, though they are not annotated.
    assert_eq!(max_id, 4);
    assert_eq!(id_of(&fields[0]), 1);
    assert_eq!(id_of(&fields[1]), 4);
    match &fields[0].data_type {
        DataType::Array(array) => match &array.element_type {
            DataType::Struct(inner) => {
                assert!(!inner.fields[0].metadata.contains_key(ID));
                assert!(!inner.fields[1].metadata.contains_key(NAME));
            }
            other => panic!("not a struct: {other:?}"),
        },
        other => panic!("not an array: {other:?}"),
    }
}

#[test]
fn a_map_keeps_the_side_that_breaks_the_rules() {
    let broken = StructType { fields: vec![leaf("x"), leaf("x")] };
    let mut fields = vec![StructField::new(
        "m",
        of_map(DataType::Struct(Box::new(broken)), of_struct(vec![leaf("v")])),
        true,
    )];
    let mut max_id = 0i64;
    assign_identity_column_mapping_metadata(&mut fields, &mut max_id);
    assert_eq!(max_id, 4);
    match &fields[0].data_type {
        DataType::KeyValue(map) => {
            match &map.key_type {
                DataType::Struct(inner) => assert!(!inner.fields[0].metadata.contains_key(ID)),
                other => panic!("not a struct: {other:?}"),
            }
            match &map.value_type {
                DataType::Struct(inner) => assert_eq!(id_of(&inner.fields[0]), 4),
                other => panic!("not a struct: {other:?}"),
            }
        }
        other => panic!("not a map: {other:?}"),
    }
}

#[test]
fn assigning_nothing_changes_nothing() {
    let mut fields: Vec<StructField> = Vec::new();
    let mut max_id = 5i64;
    assign_column_mapping_metadata(&mut fields, &mut max_id);
    assert_eq!(max_id, 5);
    assert!(fields.is_empty());
}

#[test]
fn ids_can_run_up_to_the_greatest_number() {
    let mut fields = vec![leaf("a")];
    let mut max_id = i64::MAX - 1;
    assert_eq!(max_id_after(&fields, max_id), Some(i64::MAX));
    assign_identity_column_mapping_metadata(&mut fields, &mut max_id);
    assert_eq!(max_id, i64::MAX);
    assert_eq!(id_of(&fields[0]), i64::MAX);
}

#[test]
fn running_out_of_ids_is_foreseen() {
    assert_eq!(max_id_after(&[leaf("a"), leaf("b")], i64::MAX - 1), None);
    assert_eq!(max_id_after(&wide_schema(), 0), Some(7));
    let with_id = leaf("a").with_metadata(vec![(ID, MetadataValue::Number(i64::MAX))]);
    assert_eq!(max_id_after(&[with_id], 0), Some(i64::MAX));
    let nested = StructField::new("s", of_struct(vec![leaf("x")]), true);
    assert_eq!(max_id_after(&[nested], i64::MAX - 1), None);
    let wrong = leaf("a").with_metadata(vec![(ID, text("1"))]);
    assert_eq!(max_id_after(&[wrong], 3), Some(3));
}

#[test]
fn negative_maxima_are_counted_from() {
    let mut fields = vec![leaf("a"), leaf("b")];
    let mut max_id = -2i64;
    assign_identity_column_mapping_metadata(&mut fields, &mut max_id);
    assert_eq!(id_of(&fields[0]), -1);
    assert_eq!(id_of(&fields[1]), 0);
    assert_eq!(max_id, 0);
}

#[test]
fn assigning_twice_is_assigning_once() {
    let mut fields = wide_schema();
    let mut max_id = 0i64;
    assign_column_mapping_metadata(&mut fields, &mut max_id);
    let once = flat(&fields);
    assign_identity_column_mapping_metadata(&mut fields, &mut max_id);
    assert_eq!(flat(&fields), once);
    assert_eq!(max_id, 7);
}

#[test]
fn new_ids_are_fresh() {
    let mut fields = vec![
        leaf("a"),
        leaf("b").with_metadata(vec![(ID, MetadataValue::Number(2)), (NAME, text("b"))]),
        leaf("c"),
    ];
    let mut max_id = 2i64;
    assign_identity_column_mapping_metadata(&mut fields, &mut max_id);
    assert_eq!((id_of(&fields[0]), id_of(&fields[1]), id_of(&fields[2])), (3, 2, 4));
    assert_eq!(max_id, 4);
}

#[test]
fn a_maximum_below_an_existing_id_can_give_the_id_again() {
    let mut fields = vec![leaf("a"), leaf("b").with_metadata(vec![(ID, MetadataValue::Number(1))])];
    let mut max_id = 0i64;
    assign_identity_column_mapping_metadata(&mut fields, &mut max_id);
    assert_eq!(id_of(&fields[0]), 1);
    assert_eq!(id_of(&fields[1]), 1);
    let error = validate_column_mapping_metadata(&fields, max_id).unwrap_err();
    assert_eq!(error.to_string(), "Duplicate column mapping id 1 found in schema.");
}

#[test]
fn a_fresh_schema_validates_after_identity_mapping() {
    let mut fields = wide_schema();
    let mut max_id = 0i64;
    assign_identity_column_mapping_metadata(&mut fields, &mut max_id);
    assert_eq!(max_id, 7);
    assert!(validate_column_mapping_metadata(&fields, 7).is_ok());
    assert!(validate_column_mapping_metadata(&fields, 6).is_err());
    assert!(validate_column_mapping_metadata(&fields, 8).is_ok());
}

#[test]
fn identity_mapping_of_repeated_nested_names_does_not_validate() {
    let mut fields = vec![
        StructField::new("s", of_struct(vec![leaf("x")]), true),
        StructField::new("t", of_struct(vec![leaf("x")]), true),
    ];
    let mut max_id = 0i64;
    assign_identity_column_mapping_metadata(&mut fields, &mut max_id);
    let error = validate_column_mapping_metadata(&fields, max_id).unwrap_err();
    assert_eq!(
        error.to_string(),
        "Duplicate column mapping physicalName 'x' found in schema."
    );
}

#[test]
fn the_greatest_id_found_is_that_of_the_top_level() {
    let mut fields = wide_schema();
    let mut max_id = 0i64;
    assign_column_mapping_metadata(&mut fields, &mut max_id);
    fields.pop();
    // The nested columns have greater ids; they are not looked at.
    assert_eq!(get_max_column_id(&StructType { fields }), 2);
}

#[test]
fn the_greatest_id_found_is_never_negative() {
    assert_eq!(get_max_column_id(&StructType { fields: vec![] }), 0);
    assert_eq!(get_max_column_id(&StructType { fields: vec![leaf("a")] }), 0);
    let negative = leaf("a").with_metadata(vec![(ID, MetadataValue::Number(-4))]);
    assert_eq!(get_max_column_id(&StructType { fields: vec![negative] }), 0);
    let wrong = leaf("a").with_metadata(vec![(ID, text("8"))]);
    let right = leaf("b").with_metadata(vec![(ID, MetadataValue::Number(6))]);
    let less = leaf("c").with_metadata(vec![(ID, MetadataValue::Number(5))]);
    assert_eq!(get_max_column_id(&StructType { fields: vec![wrong, right, less] }), 6);
}

#[test]
fn a_struct_has_no_name_twice() {
    assert!(StructType::try_new(vec![leaf("a"), leaf("b")]).is_some());
    assert!(StructType::try_new(vec![leaf("a"), leaf("a")]).is_none());
    assert!(StructType::try_new(vec![leaf("a"), leaf("A")]).is_some());
    assert!(StructType::try_new(vec![]).is_some());
}

#[test]
fn a_struct_has_no_kind_of_metadata_column_twice() {
    let column = |name: &str, kind: &str| leaf(name).with_metadata(vec![(SPEC, text(kind))]);
    assert!(StructType::try_new(vec![column("a", "row_id"), column("b", "row_id")]).is_none());
    assert!(StructType::try_new(vec![column("a", "row_id"), column("b", "row_index")]).is_some());
    assert!(StructType::try_new(vec![column("a", "other"), column("b", "other")]).is_some());
}

#[test]
fn the_greatest_id_of_a_flat_schema_is_the_one_handed_back() {
    let mut fields = vec![
        leaf("a"),
        leaf("b").with_metadata(vec![(ID, MetadataValue::Number(7))]),
        leaf("c"),
        leaf("d").with_metadata(vec![(ID, MetadataValue::Number(3))]),
    ];
    let mut max_id = 0i64;
    assign_identity_column_mapping_metadata(&mut fields, &mut max_id);
    assert_eq!(max_id, 8);
    assert_eq!(get_max_column_id(&StructType { fields }), 8);
}

#[test]
fn the_greatest_id_found_is_within_that_of_a_valid_schema() {
    let mut fields = wide_schema();
    let mut max_id = 0i64;
    assign_column_mapping_metadata(&mut fields, &mut max_id);
    assert!(validate_column_mapping_metadata(&fields, max_id).is_ok());
    assert!(validate_column_mapping_metadata(&fields, max_id + 5).is_ok());
    assert!(validate_column_mapping_metadata(&fields, max_id - 1).is_err());
    let found = get_max_column_id(&StructType { fields });
    assert!(0 < found && found <= max_id);
}

#[test]
fn each_column_without_a_name_gets_the_uuid_drawn_for_it() {
    let mut fields = wide_schema();
    set_physical_name(&mut fields[1], "mine".to_string());
    let uuids: Vec<String> = (0..6).map(|i| format!("uuid {i}")).collect();
    let mut max_id = 4i64;
    assign_column_mapping_metadata_with_uuids(&mut fields, &mut max_id, &uuids);
    let found: Vec<(String, String, i64)> = flat(&fields);
    let expected = [
        ("a", "col-uuid 0", 5),
        ("m", "mine", 6),
        ("k1", "col-uuid 1", 7),
        ("k2", "col-uuid 2", 8),
        ("v", "col-uuid 3", 9),
        ("deep", "col-uuid 4", 10),
        ("z", "col-uuid 5", 11),
    ];
    assert_eq!(found.len(), expected.len());
    for (i, (logical, physical, id)) in expected.iter().enumerate() {
        assert_eq!(found[i], (logical.to_string(), physical.to_string(), *id));
    }
    assert_eq!(max_id, 11);
    assert!(validate_column_mapping_metadata(&fields, max_id).is_ok());
}

#[test]
fn assigning_in_parts_is_assigning_the_whole() {
    let mut whole = wide_schema();
    let mut whole_max = 2i64;
    assign_identity_column_mapping_metadata(&mut whole, &mut whole_max);
    let mut left = wide_schema();
    let mut right = left.split_off(1);
    let mut max_id = 2i64;
    assign_identity_column_mapping_metadata(&mut left, &mut max_id);
    assign_identity_column_mapping_metadata(&mut right, &mut max_id);
    left.append(&mut right);
    assert_eq!(left, whole);
    assert_eq!(max_id, whole_max);
}

#[test]
fn a_mapped_struct_is_kept_and_counted() {
    let inner = leaf("x").with_metadata(vec![(NAME, text("p")), (ID, MetadataValue::Number(9))]);
    let mut fields = vec![StructField::new("s", of_struct(vec![inner]), true)];
    let mut max_id = 1i64;
    assign_identity_column_mapping_metadata(&mut fields, &mut max_id);
    let expected = leaf("x").with_metadata(vec![(NAME, text("p")), (ID, MetadataValue::Number(9))]);
    assert_eq!(fields[0].data_type, of_struct(vec![expected]));
    assert_eq!(id_of(&fields[0]), 2);
    assert_eq!(max_id, 9);
}

#[test]
fn keys_stand_once_and_their_order_does_not_matter() {
    let one = leaf("a").with_metadata(vec![("p", text("1")), ("q", text("2")), ("p", text("3"))]);
    let other = leaf("a").with_metadata(vec![("q", text("2")), ("p", text("3"))]);
    let mut keys = one.metadata.keys();
    keys.sort();
    assert_eq!(keys, vec!["p".to_string(), "q".to_string()]);
    assert_eq!(one, other);
    assert_ne!(one, leaf("a").with_metadata(vec![("p", text("3"))]));
    assert_ne!(leaf("a").with_metadata(vec![("p", text("3"))]), one);
    assert_ne!(other, leaf("a").with_metadata(vec![("q", text("2")), ("p", text("1"))]));
}

#[test]
fn fresh_columns_validate_from_any_greatest_id() {
    for start in [0i64, 1, 40] {
        let mut fields = wide_schema();
        let mut max_id = start;
        assign_identity_column_mapping_metadata(&mut fields, &mut max_id);
        assert_eq!(max_id, start + 7);
        assert!(validate_column_mapping_metadata(&fields, max_id).is_ok());
        let mut fields = wide_schema();
        let mut max_id = start;
        assign_column_mapping_metadata(&mut fields, &mut max_id);
        assert_eq!(max_id, start + 7);
        assert!(validate_column_mapping_metadata(&fields, max_id).is_ok());
    }
}

#[test]
fn a_schema_with_added_columns_validates() {
    let mut fields = wide_schema();
    let mut max_id = 0i64;
    assign_identity_column_mapping_metadata(&mut fields, &mut max_id);
    let mut added = vec![leaf("new"), StructField::new("s", of_struct(vec![leaf("a")]), true)];
    assign_column_mapping_metadata(&mut added, &mut max_id);
    assert_eq!(max_id, 10);
    fields.append(&mut added);
    assert!(validate_column_mapping_metadata(&fields, max_id).is_ok());
    let mut clash = vec![leaf("b").with_metadata(vec![(NAME, text("deep"))])];
    assign_column_mapping_metadata(&mut clash, &mut max_id);
    fields.append(&mut clash);
    assert_eq!(
        validate_column_mapping_metadata(&fields, max_id).unwrap_err().to_string(),
        "Duplicate column mapping physicalName 'deep' found in schema."
    );
}
