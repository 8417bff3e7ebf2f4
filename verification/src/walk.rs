//! The order in which the columns of a schema are visited, and the ids handed out on the way.
use crate::metadata::{MetadataValue, ValueView};
use crate::outside::{key_str, key_text, ColumnMetadataKey};
use crate::schema::{field_view, fields_view, DataType, FieldView, StructField, TypeView};
use vstd::prelude::*;

verus! {

/// The metadata key of a column's id.
pub open spec fn id_key() -> Seq<char> {
    key_text(ColumnMetadataKey::ColumnMappingId)
}

/// The metadata key of a column's physical name.
pub open spec fn physical_name_key() -> Seq<char> {
    key_text(ColumnMetadataKey::ColumnMappingPhysicalName)
}

/// The columns of a list of fields, at any depth: each field, followed by the columns of its
/// type.
pub open spec fn columns(fields: Seq<FieldView>) -> Seq<FieldView>
    decreases fields,
{
    if fields.len() == 0 {
        Seq::empty()
    } else {
        columns(fields.drop_last()) + field_columns(fields.last())
    }
}

/// A field, followed by the columns of its type.
pub open spec fn field_columns(field: FieldView) -> Seq<FieldView>
    decreases field,
{
    seq![field] + type_columns(field.data_type)
}

/// The columns of a type: the fields of a struct, of the structs in an array, and of those in
/// the keys and then the values of a map.
pub open spec fn type_columns(data_type: TypeView) -> Seq<FieldView>
    decreases data_type,
{
    match data_type {
        TypeView::Struct(fields) => columns(fields),
        TypeView::Array { element, .. } => type_columns(*element),
        TypeView::KeyValue { key, value, .. } => type_columns(*key) + type_columns(*value),
        TypeView::Primitive(_) | TypeView::Variant(_) => Seq::empty(),
    }
}

/// The greatest id in use once a column has its id, where `max` was the greatest before: a
/// column without an id gets the next one, and a column with a greater id raises it.
pub open spec fn max_with(column: FieldView, max: int) -> int {
    if !column.metadata.contains_key(id_key()) {
        max + 1
    } else {
        match column.metadata[id_key()] {
            ValueView::Number(id) => if id > max {
                id
            } else {
                max
            },
            _ => max,
        }
    }
}

/// The greatest id in use once each of a list of columns has its id, in order.
pub open spec fn max_after(columns: Seq<FieldView>, max: int) -> int
    decreases columns.len(),
{
    if columns.len() == 0 {
        max
    } else {
        max_with(columns.last(), max_after(columns.drop_last(), max))
    }
}

/// The number of columns without a physical name.
pub open spec fn missing_names(columns: Seq<FieldView>) -> nat
    decreases columns.len(),
{
    if columns.len() == 0 {
        0
    } else {
        missing_names(columns.drop_last()) + if columns.last().metadata.contains_key(
            physical_name_key(),
        ) {
            0nat
        } else {
            1nat
        }
    }
}

/// The columns of two lists of fields in a row are those of the one, followed by those of the
/// other.
pub proof fn lemma_columns_concat(left: Seq<FieldView>, right: Seq<FieldView>)
    ensures
        columns(left + right) == columns(left) + columns(right),
    decreases right.len(),
{
    if right.len() == 0 {
        assert(left + right =~= left);
        assert(columns(left) + columns(right) =~= columns(left));
    } else {
        lemma_columns_concat(left, right.drop_last());
        assert((left + right).drop_last() =~= left + right.drop_last());
        assert(columns(left + right) =~= columns(left) + columns(right));
    }
}

/// The columns of the first fields of a list, up to and with one field.
pub proof fn lemma_columns_take(fields: Seq<FieldView>, i: int)
    requires
        0 <= i < fields.len(),
    ensures
        columns(fields.take(i + 1)) == columns(fields.take(i)) + field_columns(fields[i]),
{
    assert(fields.take(i + 1).drop_last() =~= fields.take(i));
}

/// The columns of a list of fields are those of its first fields, followed by those of the rest.
pub proof fn lemma_columns_split(fields: Seq<FieldView>, i: int)
    requires
        0 <= i <= fields.len(),
    ensures
        columns(fields) == columns(fields.take(i)) + columns(fields.skip(i)),
{
    assert(fields =~= fields.take(i) + fields.skip(i));
    lemma_columns_concat(fields.take(i), fields.skip(i));
}

/// Two lists of columns are visited one after the other.
pub proof fn lemma_max_after_concat(left: Seq<FieldView>, right: Seq<FieldView>, max: int)
    ensures
        max_after(left + right, max) == max_after(right, max_after(left, max)),
    decreases right.len(),
{
    if right.len() == 0 {
        assert(left + right =~= left);
    } else {
        lemma_max_after_concat(left, right.drop_last(), max);
        assert((left + right).drop_last() =~= left + right.drop_last());
    }
}

/// Visiting columns never lowers the greatest id.
pub proof fn lemma_max_after_grows(columns: Seq<FieldView>, max: int)
    ensures
        max <= max_after(columns, max),
    decreases columns.len(),
{
    if columns.len() > 0 {
        lemma_max_after_grows(columns.drop_last(), max);
    }
}

/// A column is visited before the columns of its type.
pub proof fn lemma_max_after_field(field: FieldView, max: int)
    ensures
        max_after(field_columns(field), max) == max_after(
            type_columns(field.data_type),
            max_with(field, max),
        ),
{
    let own = seq![field];
    lemma_max_after_concat(own, type_columns(field.data_type), max);
    assert(own.drop_last() =~= Seq::<FieldView>::empty());
    assert(max_after(own, max) == max_with(field, max_after(own.drop_last(), max)));
}

/// The physical names that two lists of columns lack are those that each lacks.
pub proof fn lemma_missing_names_concat(left: Seq<FieldView>, right: Seq<FieldView>)
    ensures
        missing_names(left + right) == missing_names(left) + missing_names(right),
    decreases right.len(),
{
    if right.len() == 0 {
        assert(left + right =~= left);
    } else {
        lemma_missing_names_concat(left, right.drop_last());
        assert((left + right).drop_last() =~= left + right.drop_last());
    }
}

/// The physical names that a field and the columns of its type lack.
pub proof fn lemma_missing_names_field(field: FieldView)
    ensures
        missing_names(field_columns(field)) == missing_names(type_columns(field.data_type)) + (
        if field.metadata.contains_key(physical_name_key()) {
            0nat
        } else {
            1nat
        }),
{
    let own = seq![field];
    lemma_missing_names_concat(own, type_columns(field.data_type));
    assert(own.drop_last() =~= Seq::<FieldView>::empty());
    assert(missing_names(own.drop_last()) == 0);
}

/// The greatest id in use once each column of a list of fields has its id; none where the ids
/// run out.
pub fn max_id_after(fields: &[StructField], max_id: i64) -> (r: Option<i64>)
    ensures
        match r {
            Some(end) => end == max_after(columns(fields_view(fields@)), max_id as int),
            None => max_after(columns(fields_view(fields@)), max_id as int) > i64::MAX,
        },
    decreases fields_view(fields@),
{
    let ghost views = fields_view(fields@);
    let mut max: i64 = max_id;
    let mut i: usize = 0;
    while i < fields.len()
        invariant
            i <= fields@.len(),
            views == fields_view(fields@),
            max == max_after(columns(views.take(i as int)), max_id as int),
        decreases fields@.len() - i,
    {
        let field = &fields[i];
        proof {
            let before = columns(views.take(i as int));
            assert(views[i as int] == field_view(*field));
            lemma_columns_take(views, i as int);
            lemma_columns_split(views, i + 1);
            lemma_max_after_concat(before, field_columns(field@), max_id as int);
            lemma_max_after_field(field@, max as int);
            lemma_max_after_grows(type_columns(field@.data_type), max_with(field@, max as int));
            lemma_max_after_concat(
                columns(views.take(i + 1)),
                columns(views.skip(i + 1)),
                max_id as int,
            );
            lemma_max_after_grows(
                columns(views.skip(i + 1)),
                max_after(columns(views.take(i + 1)), max_id as int),
            );
        }
        let with_field: i64 = match field.metadata.get(key_str(ColumnMetadataKey::ColumnMappingId)) {
            Some(MetadataValue::Number(id)) => if *id > max {
                *id
            } else {
                max
            },
            Some(_) => max,
            None => {
                if max == i64::MAX {
                    return None;
                }
                max + 1
            },
        };
        match type_max_id_after(&field.data_type, with_field) {
            Some(end) => {
                max = end;
            },
            None => {
                return None;
            },
        }
        i += 1;
    }
    assert(views.take(i as int) =~= views);
    Some(max)
}

/// The greatest id in use once each column of a type has its id; none where the ids run out.
fn type_max_id_after(data_type: &DataType, max_id: i64) -> (r: Option<i64>)
    ensures
        match r {
            Some(end) => end == max_after(type_columns(data_type@), max_id as int),
            None => max_after(type_columns(data_type@), max_id as int) > i64::MAX,
        },
    decreases data_type@,
{
    match data_type {
        DataType::Struct(inner) => {
            assert(data_type@->Struct_0 == fields_view(inner.fields@));
            max_id_after(inner.fields.as_slice(), max_id)
        },
        DataType::Array(inner) => {
            assert(*data_type@->element == inner.element_type@);
            type_max_id_after(&inner.element_type, max_id)
        },
        DataType::KeyValue(inner) => {
            proof {
                assert(*data_type@->key == inner.key_type@);
                assert(*data_type@->value == inner.value_type@);
                let key_columns = type_columns(inner.key_type@);
                let value_columns = type_columns(inner.value_type@);
                lemma_max_after_concat(key_columns, value_columns, max_id as int);
                lemma_max_after_grows(value_columns, max_after(key_columns, max_id as int));
            }
            match type_max_id_after(&inner.key_type, max_id) {
                Some(middle) => type_max_id_after(&inner.value_type, middle),
                None => None,
            }
        },
        DataType::Primitive(_) | DataType::Variant(_) => Some(max_id),
    }
}

} // verus!
