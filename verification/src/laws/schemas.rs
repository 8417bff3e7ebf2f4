//! What holds of schemas, of their parts, and of the order in which their columns are visited.
use crate::metadata::{MetadataValue, ValueView};
use crate::rules::{
    all_free_of_metadata_columns, fields_free_of_metadata_columns, free_of_metadata_columns,
    metadata_column, struct_rules,
};
use crate::schema::{fields_view, pairs_map, DataType, FieldView, StructField, StructType, TypeView};
use crate::validate::{id_of, physical_name_of};
use crate::walk::{
    columns, field_columns, id_key, lemma_columns_concat, lemma_columns_split, lemma_columns_take,
    max_after, missing_names, physical_name_key, type_columns,
};
use vstd::prelude::*;

verus! {

/// Law: a value of metadata is seen as what it is.
pub proof fn law_value_is_seen_as_it_is(value: MetadataValue)
    ensures
        value@ == (match value {
            MetadataValue::Number(n) => ValueView::Number(n as int),
            MetadataValue::String(text) => ValueView::Text(text@),
            MetadataValue::Boolean(b) => ValueView::Boolean(b),
            MetadataValue::Other(text) => ValueView::Other(text@),
        }),
{
}

/// Law: a field is seen with its name, its type, its nullability and its metadata.
pub proof fn law_field_is_seen_as_it_is(field: StructField)
    ensures
        field@.name == field.name@,
        field@.data_type == field.data_type@,
        field@.nullable == field.nullable,
        field@.metadata == field.metadata@,
{
}

/// Law: a list of fields is seen as the list of what each of them is seen as.
pub proof fn law_fields_are_seen_as_they_are(fields: Seq<StructField>)
    ensures
        fields_view(fields).len() == fields.len(),
        forall|i: int| 0 <= i < fields.len() ==> #[trigger] fields_view(fields)[i] == fields[i]@,
{
}

/// Law: a struct is seen as the list of its fields.
pub proof fn law_struct_is_seen_as_it_is(inner: StructType)
    ensures
        inner@.len() == inner.fields@.len(),
        forall|i: int| 0 <= i < inner.fields@.len() ==> #[trigger] inner@[i] == inner.fields@[i]@,
{
}

/// Law: a type is seen with all its parts: the primitive type, the element type and whether
/// elements may be null, the fields in their order, the key type, the value type and whether
/// values may be null.
pub proof fn law_type_is_seen_as_it_is(data_type: DataType)
    ensures
        match data_type {
            DataType::Primitive(primitive) => data_type@ == TypeView::Primitive(primitive),
            DataType::Array(array) => {
                &&& data_type@ is Array
                &&& *data_type@->element == array.element_type@
                &&& data_type@->contains_null == array.contains_null
            },
            DataType::Struct(inner) => data_type@ == TypeView::Struct(fields_view(inner.fields@)),
            DataType::KeyValue(map) => {
                &&& data_type@ is KeyValue
                &&& *data_type@->key == map.key_type@
                &&& *data_type@->value == map.value_type@
                &&& data_type@->value_contains_null == map.value_contains_null
            },
            DataType::Variant(inner) => data_type@ == TypeView::Variant(fields_view(inner.fields@)),
        },
{
}

/// Law: metadata given as a list of keys and values has each key of the list, with the last value
/// that the list gives it.
pub proof fn law_last_value_counts(pairs: Seq<(&str, MetadataValue)>, at: int)
    requires
        0 <= at < pairs.len(),
        forall|j: int| at < j < pairs.len() ==> (#[trigger] pairs[j]).0@ != pairs[at].0@,
    ensures
        pairs_map(pairs).contains_key(pairs[at].0@),
        pairs_map(pairs)[pairs[at].0@] == pairs[at].1@,
    decreases pairs.len(),
{
    let first = pairs.drop_last();
    let last = pairs.len() - 1;
    if at < last {
        assert(pairs[last].0@ != pairs[at].0@);
        assert forall|j: int| at < j < first.len() implies (#[trigger] first[j]).0@
            != first[at].0@ by {
            assert(pairs[j] == first[j]);
        }
        law_last_value_counts(first, at);
    }
}

/// Law: metadata given as a list of keys and values has no keys but those of the list.
pub proof fn law_only_given_keys(pairs: Seq<(&str, MetadataValue)>, key: Seq<char>)
    requires
        pairs_map(pairs).contains_key(key),
    ensures
        exists|i: int| 0 <= i < pairs.len() && (#[trigger] pairs[i]).0@ == key,
    decreases pairs.len(),
{
    let first = pairs.drop_last();
    let last = pairs.len() - 1;
    if pairs[last].0@ != key {
        law_only_given_keys(first, key);
        let i = choose|i: int| 0 <= i < first.len() && (#[trigger] first[i]).0@ == key;
        assert(pairs[i] == first[i]);
    }
}

/// Law: the physical name and the id of a column are the string and the number that its metadata
/// has under the keys `delta.columnMapping.physicalName` and `delta.columnMapping.id`.
pub proof fn law_mapping_metadata_is_under_its_keys(column: FieldView, name: Seq<char>, id: int)
    ensures
        physical_name_key() == "delta.columnMapping.physicalName"@,
        id_key() == "delta.columnMapping.id"@,
        physical_name_of(column) == Some(name) <==> column.metadata.contains_key(
            "delta.columnMapping.physicalName"@,
        ) && column.metadata["delta.columnMapping.physicalName"@] == ValueView::Text(name),
        id_of(column) == Some(id) <==> column.metadata.contains_key("delta.columnMapping.id"@)
            && column.metadata["delta.columnMapping.id"@] == ValueView::Number(id),
{
}

/// Law: the walk visits a field, then the columns of its type, then the fields after it.
pub proof fn law_walk_goes_down_before_it_goes_on(first: FieldView, rest: Seq<FieldView>)
    ensures
        columns(Seq::<FieldView>::empty()) == Seq::<FieldView>::empty(),
        columns(seq![first] + rest) == seq![first] + type_columns(first.data_type) + columns(rest),
{
    let own = seq![first];
    lemma_columns_concat(own, rest);
    assert(own.drop_last() =~= Seq::<FieldView>::empty());
    assert(columns(own.drop_last()) =~= Seq::<FieldView>::empty());
    assert(columns(own) =~= field_columns(first));
}

/// Law: the walk goes into the fields of a struct, the elements of an array, and the keys and then
/// the values of a map, and into nothing else.
pub proof fn law_walk_goes_into_every_part(data_type: TypeView)
    ensures
        match data_type {
            TypeView::Struct(fields) => type_columns(data_type) == columns(fields),
            TypeView::Array { element, .. } => type_columns(data_type) == type_columns(*element),
            TypeView::KeyValue { key, value, .. } => type_columns(data_type) == type_columns(*key)
                + type_columns(*value),
            TypeView::Primitive(_) | TypeView::Variant(_) => type_columns(data_type).len() == 0,
        },
{
}

/// One step on the way to a field within a schema.
pub enum Step {
    /// To the field at this place in a list of fields.
    Field(int),
    /// To the elements of an array.
    Element,
    /// To the keys of a map.
    Key,
    /// To the values of a map.
    Value,
}

/// The field that a path leads to from a list of fields.
pub open spec fn found_in_fields(fields: Seq<FieldView>, path: Seq<Step>) -> Option<FieldView>
    decreases path.len(), 0nat,
{
    if path.len() == 0 {
        None
    } else {
        match path[0] {
            Step::Field(i) => if 0 <= i < fields.len() {
                if path.len() == 1 {
                    Some(fields[i])
                } else {
                    found_in_type(fields[i].data_type, path.drop_first())
                }
            } else {
                None
            },
            _ => None,
        }
    }
}

/// The field that a path leads to from a type.
pub open spec fn found_in_type(data_type: TypeView, path: Seq<Step>) -> Option<FieldView>
    decreases path.len(), 1nat,
{
    if path.len() == 0 {
        None
    } else {
        match (data_type, path[0]) {
            (TypeView::Struct(fields), Step::Field(_)) => found_in_fields(fields, path),
            (TypeView::Array { element, .. }, Step::Element) => found_in_type(
                *element,
                path.drop_first(),
            ),
            (TypeView::KeyValue { key, .. }, Step::Key) => found_in_type(*key, path.drop_first()),
            (TypeView::KeyValue { value, .. }, Step::Value) => found_in_type(
                *value,
                path.drop_first(),
            ),
            _ => None,
        }
    }
}

/// What is in a part of a list is in the list.
proof fn lemma_contains_concat(
    left: Seq<FieldView>,
    right: Seq<FieldView>,
    field: FieldView,
)
    ensures
        (left + right).contains(field) <==> left.contains(field) || right.contains(field),
{
    let both = left + right;
    if left.contains(field) {
        let i = choose|i: int| 0 <= i < left.len() && left[i] == field;
        assert(both[i] == field);
    }
    if right.contains(field) {
        let i = choose|i: int| 0 <= i < right.len() && right[i] == field;
        assert(both[left.len() + i] == field);
    }
    if both.contains(field) {
        let i = choose|i: int| 0 <= i < both.len() && both[i] == field;
        if i < left.len() {
            assert(left[i] == field);
        } else {
            assert(right[i - left.len()] == field);
        }
    }
}

/// The columns of a list of fields hold each field and the columns of its type.
proof fn lemma_field_columns_in_columns(fields: Seq<FieldView>, i: int, field: FieldView)
    requires
        0 <= i < fields.len(),
        field_columns(fields[i]).contains(field),
    ensures
        columns(fields).contains(field),
{
    lemma_columns_split(fields, i + 1);
    lemma_columns_take(fields, i);
    lemma_contains_concat(columns(fields.take(i)), field_columns(fields[i]), field);
    lemma_contains_concat(columns(fields.take(i + 1)), columns(fields.skip(i + 1)), field);
}

/// Law: the walk leaves no field out: whatever path leads to a field of a schema, through structs,
/// arrays and maps, the field is among the columns.
pub proof fn law_every_nested_field_is_a_column(fields: Seq<FieldView>, path: Seq<Step>)
    requires
        found_in_fields(fields, path) is Some,
    ensures
        columns(fields).contains(found_in_fields(fields, path)->0),
    decreases path.len(), 0nat,
{
    let field = found_in_fields(fields, path)->0;
    let i = path[0]->Field_0;
    lemma_contains_concat(seq![fields[i]], type_columns(fields[i].data_type), field);
    if path.len() == 1 {
        assert(seq![fields[i]][0] == field);
    } else {
        lemma_nested_field_is_a_column(fields[i].data_type, path.drop_first());
    }
    lemma_field_columns_in_columns(fields, i, field);
}

/// Whatever path leads to a field of a type, the field is among the columns of the type.
proof fn lemma_nested_field_is_a_column(data_type: TypeView, path: Seq<Step>)
    requires
        found_in_type(data_type, path) is Some,
    ensures
        type_columns(data_type).contains(found_in_type(data_type, path)->0),
    decreases path.len(), 1nat,
{
    let field = found_in_type(data_type, path)->0;
    match data_type {
        TypeView::Struct(fields) => {
            law_every_nested_field_is_a_column(fields, path);
        },
        TypeView::Array { element, .. } => {
            lemma_nested_field_is_a_column(*element, path.drop_first());
        },
        TypeView::KeyValue { key, value, .. } => {
            if path[0] is Key {
                lemma_nested_field_is_a_column(*key, path.drop_first());
            } else {
                lemma_nested_field_is_a_column(*value, path.drop_first());
            }
            lemma_contains_concat(type_columns(*key), type_columns(*value), field);
        },
        _ => {},
    }
}

/// Law: the walk makes nothing up: a path leads to every column.
pub proof fn law_every_column_is_a_nested_field(fields: Seq<FieldView>, k: int) -> (path: Seq<Step>)
    requires
        0 <= k < columns(fields).len(),
    ensures
        found_in_fields(fields, path) == Some(columns(fields)[k]),
    decreases fields,
{
    let first = fields.drop_last();
    let last = fields.last();
    let at = fields.len() - 1;
    assert(columns(fields) == columns(first) + field_columns(last));
    assert(field_columns(last) == seq![last] + type_columns(last.data_type));
    if k < columns(first).len() {
        let path = law_every_column_is_a_nested_field(first, k);
        assert(first[path[0]->Field_0] == fields[path[0]->Field_0]);
        path
    } else {
        let j = k - columns(first).len();
        let own = seq![Step::Field(at)];
        if j == 0 {
            own
        } else {
            let rest = lemma_type_column_is_a_nested_field(last.data_type, j - 1);
            let path = own + rest;
            assert(path.drop_first() =~= rest);
            assert(rest.len() > 0);
            path
        }
    }
}

/// A path leads to every column of a type.
proof fn lemma_type_column_is_a_nested_field(data_type: TypeView, k: int) -> (path: Seq<Step>)
    requires
        0 <= k < type_columns(data_type).len(),
    ensures
        found_in_type(data_type, path) == Some(type_columns(data_type)[k]),
    decreases data_type,
{
    match data_type {
        TypeView::Struct(fields) => law_every_column_is_a_nested_field(fields, k),
        TypeView::Array { element, .. } => {
            let rest = lemma_type_column_is_a_nested_field(*element, k);
            let path = seq![Step::Element] + rest;
            assert(path.drop_first() =~= rest);
            path
        },
        TypeView::KeyValue { key, value, .. } => {
            let keys = type_columns(*key).len();
            if k < keys {
                let rest = lemma_type_column_is_a_nested_field(*key, k);
                let path = seq![Step::Key] + rest;
                assert(path.drop_first() =~= rest);
                path
            } else {
                let rest = lemma_type_column_is_a_nested_field(*value, k - keys);
                let path = seq![Step::Value] + rest;
                assert(path.drop_first() =~= rest);
                path
            }
        },
        _ => Seq::empty(),
    }
}

/// Law: one more column without an id raises the greatest id by one; one with a number for an id
/// raises it to that number, where it was less; and one with anything else for an id leaves it.
pub proof fn law_greatest_id_with_one_more_column(
    visited: Seq<FieldView>,
    column: FieldView,
    max: int,
)
    ensures
        max_after(Seq::<FieldView>::empty(), max) == max,
        !column.metadata.contains_key("delta.columnMapping.id"@) ==> max_after(
            visited.push(column),
            max,
        ) == max_after(visited, max) + 1,
        column.metadata.contains_key("delta.columnMapping.id"@) ==> match (
            column.metadata["delta.columnMapping.id"@]
        ) {
            ValueView::Number(id) => {
                let end = max_after(visited.push(column), max);
                &&& end >= id
                &&& end >= max_after(visited, max)
                &&& end == id || end == max_after(visited, max)
            },
            _ => max_after(visited.push(column), max) == max_after(visited, max),
        },
{
    assert(visited.push(column).drop_last() =~= visited);
}

/// Law: the physical names that are missing are as many as the columns without one.
pub proof fn law_missing_names_are_counted(columns: Seq<FieldView>)
    ensures
        missing_names(columns) == columns.filter(
            |column: FieldView|
                !column.metadata.contains_key("delta.columnMapping.physicalName"@),
        ).len(),
    decreases columns.len(),
{
    reveal(Seq::filter);
    if columns.len() > 0 {
        law_missing_names_are_counted(columns.drop_last());
    }
}

/// The field that a path leads to from a field, on a way on which metadata columns are looked for:
/// to the field itself; from a field that is a struct to the fields in it that are neither structs
/// nor variants; and from a field that is an array or a map to the fields of the structs that are
/// its elements, keys or values.
pub open spec fn looked_at(field: FieldView, path: Seq<Step>) -> Option<FieldView>
    decreases path.len(), 1nat,
{
    if path.len() == 0 {
        Some(field)
    } else {
        match (field.data_type, path[0]) {
            (TypeView::Struct(fields), Step::Field(i)) => if 0 <= i < fields.len() && !(
            fields[i].data_type is Struct) && !(fields[i].data_type is Variant) {
                looked_at(fields[i], path.drop_first())
            } else {
                None
            },
            (TypeView::Array { element, .. }, Step::Element) => looked_at_in(*element, path),
            (TypeView::KeyValue { key, .. }, Step::Key) => looked_at_in(*key, path),
            (TypeView::KeyValue { value, .. }, Step::Value) => looked_at_in(*value, path),
            _ => None,
        }
    }
}

/// The field that a path leads to, from its second step on, from a type that is a struct.
pub open spec fn looked_at_in(data_type: TypeView, path: Seq<Step>) -> Option<FieldView>
    decreases path.len(), 0nat,
{
    if path.len() < 2 {
        None
    } else {
        match (data_type, path[1]) {
            (TypeView::Struct(fields), Step::Field(i)) => if 0 <= i < fields.len() {
                looked_at(fields[i], path.skip(2))
            } else {
                None
            },
            _ => None,
        }
    }
}

/// Law: a field is free of metadata columns if and only if none of the fields that are looked at
/// has metadata under the key `delta.metadataSpec`.
pub proof fn law_free_of_metadata_columns(field: FieldView)
    ensures
        free_of_metadata_columns(field) <==> forall|path: Seq<Step>|
            (#[trigger] looked_at(field, path)) is Some ==> !looked_at(
                field,
                path,
            )->0.metadata.contains_key("delta.metadataSpec"@),
{
    if free_of_metadata_columns(field) {
        assert forall|path: Seq<Step>| (#[trigger] looked_at(field, path)) is Some implies
            !looked_at(field, path)->0.metadata.contains_key("delta.metadataSpec"@) by {
            lemma_free_on_path(field, path);
        }
    } else {
        let path = lemma_not_free(field);
        assert(looked_at(field, path) is Some);
    }
}

/// Where a field is free of metadata columns, so are the fields that are looked at.
proof fn lemma_free_on_path(field: FieldView, path: Seq<Step>)
    requires
        free_of_metadata_columns(field),
        looked_at(field, path) is Some,
    ensures
        !looked_at(field, path)->0.metadata.contains_key("delta.metadataSpec"@),
    decreases path.len(), 1nat,
{
    if path.len() > 0 {
        match field.data_type {
            TypeView::Struct(fields) => {
                let i = path[0]->Field_0;
                assert(free_of_metadata_columns(fields[i]));
                lemma_free_on_path(fields[i], path.drop_first());
            },
            TypeView::Array { element, .. } => {
                lemma_free_on_path_in(*element, path);
            },
            TypeView::KeyValue { key, value, .. } => {
                if path[0] is Key {
                    lemma_free_on_path_in(*key, path);
                } else {
                    lemma_free_on_path_in(*value, path);
                }
            },
            _ => {},
        }
    }
}

/// Where the fields of a struct are free of metadata columns, so are the fields that are looked at
/// from there.
proof fn lemma_free_on_path_in(data_type: TypeView, path: Seq<Step>)
    requires
        fields_free_of_metadata_columns(data_type),
        looked_at_in(data_type, path) is Some,
    ensures
        !looked_at_in(data_type, path)->0.metadata.contains_key("delta.metadataSpec"@),
    decreases path.len(), 0nat,
{
    let fields = data_type->Struct_0;
    let i = path[1]->Field_0;
    assert(all_free_of_metadata_columns(fields));
    assert(free_of_metadata_columns(fields[i]));
    lemma_free_on_path(fields[i], path.skip(2));
}

/// A path to a metadata column, where a field is not free of them.
proof fn lemma_not_free(field: FieldView) -> (path: Seq<Step>)
    requires
        !free_of_metadata_columns(field),
    ensures
        looked_at(field, path) is Some,
        looked_at(field, path)->0.metadata.contains_key("delta.metadataSpec"@),
    decreases field,
{
    if field.metadata.contains_key("delta.metadataSpec"@) {
        Seq::empty()
    } else {
        match field.data_type {
            TypeView::Struct(fields) => {
                let i = choose|i: int|
                    #![trigger fields[i]]
                    0 <= i < fields.len() && !(fields[i].data_type is Struct
                        || fields[i].data_type is Variant) && !free_of_metadata_columns(fields[i]);
                let rest = lemma_not_free(fields[i]);
                let path = seq![Step::Field(i)] + rest;
                assert(path.drop_first() =~= rest);
                path
            },
            TypeView::Array { element, .. } => lemma_not_free_in(*element, Step::Element),
            TypeView::KeyValue { key, value, .. } => {
                if !fields_free_of_metadata_columns(*key) {
                    lemma_not_free_in(*key, Step::Key)
                } else {
                    lemma_not_free_in(*value, Step::Value)
                }
            },
            _ => Seq::empty(),
        }
    }
}

/// A path to a metadata column, where a struct that one step leads to has one.
proof fn lemma_not_free_in(data_type: TypeView, step: Step) -> (path: Seq<Step>)
    requires
        !fields_free_of_metadata_columns(data_type),
    ensures
        path.len() > 0,
        path[0] == step,
        looked_at_in(data_type, path) is Some,
        looked_at_in(data_type, path)->0.metadata.contains_key("delta.metadataSpec"@),
    decreases data_type,
{
    let fields = data_type->Struct_0;
    assert(!all_free_of_metadata_columns(fields));
    let i = choose|i: int| 0 <= i < fields.len() && !free_of_metadata_columns(#[trigger] fields[i]);
    let rest = lemma_not_free(fields[i]);
    let path = seq![step, Step::Field(i)] + rest;
    assert(path.skip(2) =~= rest);
    path
}

/// Whether a field is marked as a metadata column of one of the known kinds.
pub open spec fn marked_as(field: FieldView, kind: Seq<char>) -> bool {
    &&& field.metadata.contains_key("delta.metadataSpec"@)
    &&& field.metadata["delta.metadataSpec"@] == ValueView::Text(kind)
    &&& kind == "row_index"@ || kind == "row_id"@ || kind == "row_commit_version"@ || kind
        == "_file"@
}

/// Law: a list of fields makes a struct if and only if no two of them have the same name, no two
/// are marked as the same kind of metadata column, and no metadata column is found in those that
/// are not of a primitive type.
pub proof fn law_fields_make_a_struct(fields: Seq<FieldView>)
    ensures
        struct_rules(fields) <==> {
            &&& forall|i: int, j: int|
                0 <= i < j < fields.len() ==> (#[trigger] fields[i]).name != (
                #[trigger] fields[j]).name
            &&& forall|i: int, j: int, kind: Seq<char>|
                0 <= i < j < fields.len() ==> !(#[trigger] marked_as(fields[i], kind)
                    && #[trigger] marked_as(fields[j], kind))
            &&& forall|i: int, path: Seq<Step>|
                0 <= i < fields.len() && !(fields[i].data_type is Primitive) && (
                #[trigger] looked_at(fields[i], path)) is Some ==> !looked_at(
                    fields[i],
                    path,
                )->0.metadata.contains_key("delta.metadataSpec"@)
        },
{
    assert forall|i: int, kind: Seq<char>| 0 <= i < fields.len() implies (
    #[trigger] marked_as(fields[i], kind) <==> metadata_column(fields[i]) == Some(kind)) by {}
    if struct_rules(fields) {
        assert forall|i: int, path: Seq<Step>|
            0 <= i < fields.len() && !(fields[i].data_type is Primitive) && (
            #[trigger] looked_at(fields[i], path)) is Some implies !looked_at(
            fields[i],
            path,
        )->0.metadata.contains_key("delta.metadataSpec"@) by {
            assert(free_of_metadata_columns(fields[i]));
            lemma_free_on_path(fields[i], path);
        }
        assert forall|i: int, j: int, kind: Seq<char>| 0 <= i < j < fields.len() implies !(
        #[trigger] marked_as(fields[i], kind) && #[trigger] marked_as(fields[j], kind)) by {
            assert(metadata_column(fields[i]) is Some ==> metadata_column(fields[i])
                != metadata_column(fields[j]));
        }
    } else {
        if forall|i: int, j: int|
            0 <= i < j < fields.len() ==> (#[trigger] fields[i]).name != (
            #[trigger] fields[j]).name {
            if exists|i: int|
                0 <= i < fields.len() && !((#[trigger] fields[i]).data_type is Primitive)
                    && !free_of_metadata_columns(fields[i]) {
                let i = choose|i: int|
                    0 <= i < fields.len() && !((#[trigger] fields[i]).data_type is Primitive)
                        && !free_of_metadata_columns(fields[i]);
                let path = lemma_not_free(fields[i]);
                assert(looked_at(fields[i], path) is Some);
            } else {
                let (i, j) = choose|i: int, j: int|
                    0 <= i < j < fields.len() && metadata_column(#[trigger] fields[i]) is Some
                        && metadata_column(fields[i]) == metadata_column(#[trigger] fields[j]);
                let kind = metadata_column(fields[i])->0;
                assert(marked_as(fields[i], kind) && marked_as(fields[j], kind));
            }
        }
    }
}

} // verus!
