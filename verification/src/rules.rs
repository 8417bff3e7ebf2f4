//! The rules that the fields of a struct keep.
use crate::metadata::{MetadataValue, ValueView};
use crate::outside::{
    flat_struct_accepted, flat_struct_rules, is_metadata_column_name, key_str, key_text,
    ColumnMetadataKey,
};
use crate::schema::{
    field_view, fields_view, type_view, DataType, FieldView, StructField, StructType, TypeView,
};
use vstd::prelude::*;

verus! {

/// Whether a field is marked as a metadata column: one that the reader of a table fills in.
pub open spec fn is_metadata_column(field: FieldView) -> bool {
    field.metadata.contains_key(key_text(ColumnMetadataKey::MetadataSpec))
}

/// The text that a field is marked as a metadata column with, where the mark is a text.
pub open spec fn mark_text(field: FieldView) -> Option<Seq<char>> {
    if is_metadata_column(field) {
        match field.metadata[key_text(ColumnMetadataKey::MetadataSpec)] {
            ValueView::Text(text) => Some(text),
            _ => None,
        }
    } else {
        None
    }
}

/// The kind of metadata column that a field is marked as, where the mark names one.
pub open spec fn metadata_column(field: FieldView) -> Option<Seq<char>> {
    match mark_text(field) {
        Some(text) => if is_metadata_column_name(text) {
            Some(text)
        } else {
            None
        },
        None => None,
    }
}

/// Whether neither a field nor the fields right below it are metadata columns. Fields below it
/// that are structs themselves are not looked at, unless they stand in an array or a map.
pub open spec fn free_of_metadata_columns(field: FieldView) -> bool
    decreases field,
{
    &&& !is_metadata_column(field)
    &&& match field.data_type {
        TypeView::Struct(fields) => forall|i: int|
            #![trigger fields[i]]
            0 <= i < fields.len() && !(fields[i].data_type is Struct || fields[i].data_type is Variant)
                ==> free_of_metadata_columns(fields[i]),
        TypeView::Array { element, .. } => fields_free_of_metadata_columns(*element),
        TypeView::KeyValue { key, value, .. } => fields_free_of_metadata_columns(*key)
            && fields_free_of_metadata_columns(*value),
        TypeView::Primitive(_) | TypeView::Variant(_) => true,
    }
}

/// Whether a type, where it is a struct, has only fields free of metadata columns.
pub open spec fn fields_free_of_metadata_columns(data_type: TypeView) -> bool
    decreases data_type,
{
    match data_type {
        TypeView::Struct(fields) => all_free_of_metadata_columns(fields),
        _ => true,
    }
}

/// Whether each of a list of fields is free of metadata columns.
pub open spec fn all_free_of_metadata_columns(fields: Seq<FieldView>) -> bool
    decreases fields,
{
    forall|i: int| 0 <= i < fields.len() ==> free_of_metadata_columns(#[trigger] fields[i])
}

/// Whether a list of fields can make a struct: no name stands twice, no kind of metadata column
/// stands twice, and there are no metadata columns below the fields.
pub open spec fn struct_rules(fields: Seq<FieldView>) -> bool {
    &&& forall|i: int, j: int|
        0 <= i < j < fields.len() ==> (#[trigger] fields[i]).name != (#[trigger] fields[j]).name
    &&& forall|i: int, j: int|
        0 <= i < j < fields.len() && metadata_column(#[trigger] fields[i]) is Some
            ==> metadata_column(fields[i]) != metadata_column(#[trigger] fields[j])
    &&& forall|i: int|
        0 <= i < fields.len() && !((#[trigger] fields[i]).data_type is Primitive)
            ==> free_of_metadata_columns(fields[i])
}

/// The text that a field is marked as a metadata column with.
fn mark_of(field: &StructField) -> (r: Option<String>)
    ensures
        match r {
            Some(text) => mark_text(field@) == Some(text@),
            None => mark_text(field@) is None,
        },
{
    match field.metadata.get(key_str(ColumnMetadataKey::MetadataSpec)) {
        Some(MetadataValue::String(text)) => Some(text.clone()),
        _ => None,
    }
}

/// Checks that neither a field nor the fields right below it are metadata columns.
fn is_free_of_metadata_columns(field: &StructField) -> (r: bool)
    ensures
        r == free_of_metadata_columns(field@),
    decreases *field,
{
    if field.metadata.contains_key(key_str(ColumnMetadataKey::MetadataSpec)) {
        return false;
    }
    match &field.data_type {
        DataType::Struct(inner) => {
            let ghost fields = fields_view(inner.fields@);
            let mut i: usize = 0;
            while i < inner.fields.len()
                invariant
                    i <= inner.fields@.len(),
                    fields == fields_view(inner.fields@),
                    field_view(*field).data_type == TypeView::Struct(fields),
                    field.data_type == DataType::Struct(*inner),
                    !is_metadata_column(field@),
                    forall|j: int|
                        #![trigger fields[j]]
                        0 <= j < i && !(fields[j].data_type is Struct || fields[j].data_type is Variant)
                            ==> free_of_metadata_columns(fields[j]),
                decreases inner.fields@.len() - i,
            {
                let nested = &inner.fields[i];
                assert(fields[i as int] == nested@);
                let skipped = match &nested.data_type {
                    DataType::Struct(_) | DataType::Variant(_) => true,
                    _ => false,
                };
                if !skipped && !is_free_of_metadata_columns(nested) {
                    return false;
                }
                i += 1;
            }
            true
        },
        DataType::Array(array) => are_fields_free_of_metadata_columns(&array.element_type),
        DataType::KeyValue(map) => are_fields_free_of_metadata_columns(&map.key_type)
            && are_fields_free_of_metadata_columns(&map.value_type),
        DataType::Primitive(_) | DataType::Variant(_) => true,
    }
}

/// Checks that a type, where it is a struct, has only fields free of metadata columns.
fn are_fields_free_of_metadata_columns(data_type: &DataType) -> (r: bool)
    ensures
        r == fields_free_of_metadata_columns(data_type@),
    decreases *data_type,
{
    match data_type {
        DataType::Struct(inner) => {
            let ghost fields = fields_view(inner.fields@);
            let mut i: usize = 0;
            while i < inner.fields.len()
                invariant
                    i <= inner.fields@.len(),
                    fields == fields_view(inner.fields@),
                    type_view(*data_type) == TypeView::Struct(fields),
                    *data_type == DataType::Struct(*inner),
                    forall|j: int| 0 <= j < i ==> free_of_metadata_columns(#[trigger] fields[j]),
                decreases inner.fields@.len() - i,
            {
                assert(fields[i as int] == inner.fields@[i as int]@);
                if !is_free_of_metadata_columns(&inner.fields[i]) {
                    assert(!all_free_of_metadata_columns(fields));
                    return false;
                }
                i += 1;
            }
            true
        },
        _ => true,
    }
}

impl StructType {
    /// Makes a struct of a list of fields, where they keep [`struct_rules`].
    pub fn try_new(fields: Vec<StructField>) -> (r: Option<StructType>)
        ensures
            match r {
                Some(made) => struct_rules(fields_view(fields@)) && made@ == fields_view(fields@),
                None => !struct_rules(fields_view(fields@)),
            },
    {
        let ghost views = fields_view(fields@);
        let mut flat: Vec<(String, Option<String>)> = Vec::new();
        let mut i: usize = 0;
        while i < fields.len()
            invariant
                i <= fields@.len(),
                views == fields_view(fields@),
                flat@.len() == i,
                forall|j: int|
                    #![trigger flat@[j]]
                    #![trigger views[j]]
                    0 <= j < i ==> {
                        &&& flat@[j].0@ == views[j].name
                        &&& flat@[j].1 is Some == mark_text(views[j]) is Some
                        &&& flat@[j].1 is Some ==> mark_text(views[j]) == Some(flat@[j].1->0@)
                    },
                forall|j: int|
                    0 <= j < i && !((#[trigger] views[j]).data_type is Primitive)
                        ==> free_of_metadata_columns(views[j]),
            decreases fields@.len() - i,
        {
            let field = &fields[i];
            assert(views[i as int] == field@);
            let primitive = match &field.data_type {
                DataType::Primitive(_) => true,
                _ => false,
            };
            if !primitive && !is_free_of_metadata_columns(field) {
                return None;
            }
            flat.push((field.name.clone(), mark_of(field)));
            i += 1;
        }
        let accepted = flat_struct_accepted(&flat);
        proof {
            lemma_flat_rules(flat@, views);
        }
        if accepted {
            Some(StructType { fields })
        } else {
            None
        }
    }
}

/// The names and marks of a list of fields keep the rules for them if and only if the fields do.
proof fn lemma_flat_rules(flat: Seq<(String, Option<String>)>, fields: Seq<FieldView>)
    requires
        flat.len() == fields.len(),
        forall|j: int|
            #![trigger flat[j]]
            #![trigger fields[j]]
            0 <= j < fields.len() ==> {
                &&& flat[j].0@ == fields[j].name
                &&& flat[j].1 is Some == mark_text(fields[j]) is Some
                &&& flat[j].1 is Some ==> mark_text(fields[j]) == Some(flat[j].1->0@)
            },
        forall|j: int|
            0 <= j < fields.len() && !((#[trigger] fields[j]).data_type is Primitive)
                ==> free_of_metadata_columns(fields[j]),
    ensures
        flat_struct_rules(flat) == struct_rules(fields),
{
    if flat_struct_rules(flat) {
        assert forall|i: int, j: int|
            0 <= i < j < fields.len() && metadata_column(#[trigger] fields[i]) is Some implies
            metadata_column(fields[i]) != metadata_column(#[trigger] fields[j]) by {
            assert(flat[i].0@ != flat[j].0@);
        }
        assert forall|i: int, j: int| 0 <= i < j < fields.len() implies (
        #[trigger] fields[i]).name != (#[trigger] fields[j]).name by {
            assert(flat[i].0@ != flat[j].0@);
        }
    }
    if struct_rules(fields) {
        assert forall|i: int, j: int| 0 <= i < j < flat.len() implies (#[trigger] flat[i]).0@ != (
        #[trigger] flat[j]).0@ by {
            assert(fields[i].name != fields[j].name);
        }
        assert forall|i: int, j: int|
            0 <= i < j < flat.len() && (#[trigger] flat[i]).1 is Some && (
            #[trigger] flat[j]).1 is Some && is_metadata_column_name(
                flat[i].1->0@,
            ) implies flat[i].1->0@ != flat[j].1->0@ by {
            assert(metadata_column(fields[i]) != metadata_column(fields[j]));
        }
    }
}

} // verus!
