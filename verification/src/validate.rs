//! Validating column mapping metadata.
use crate::error::{
    duplicate_id, duplicate_physical_name, id_exceeds_max, id_not_number, id_not_positive,
    max_column_id_not_positive, message, physical_name_not_string, DeltaTableError, Fault,
};
use crate::metadata::{MetadataValue, ValueView};
use crate::outside::{key_str, ColumnMetadataKey};
use crate::schema::{field_view, fields_view, DataType, FieldView, StructField};
use crate::walk::{
    columns, field_columns, id_key, lemma_columns_split, lemma_columns_take, physical_name_key,
    type_columns,
};
use std::collections::HashSet;
use vstd::hash_set::StringHashSet;
use vstd::prelude::*;

verus! {

/// The physical name of a column, where it is there and a string.
pub open spec fn physical_name_of(column: FieldView) -> Option<Seq<char>> {
    if column.metadata.contains_key(physical_name_key()) {
        match column.metadata[physical_name_key()] {
            ValueView::Text(name) => Some(name),
            _ => None,
        }
    } else {
        None
    }
}

/// The id of a column, where it is there and a number.
pub open spec fn id_of(column: FieldView) -> Option<int> {
    if column.metadata.contains_key(id_key()) {
        match column.metadata[id_key()] {
            ValueView::Number(id) => Some(id),
            _ => None,
        }
    } else {
        None
    }
}

/// The physical names and ids that columns were found to have.
#[verifier::ext_equal]
pub struct Seen {
    pub names: Set<Seq<char>>,
    pub ids: Set<int>,
}

/// No physical names and no ids.
pub open spec fn nothing_seen() -> Seen {
    Seen { names: Set::empty(), ids: Set::empty() }
}

/// What is wrong with the physical name of a column, where others have been seen.
pub open spec fn physical_name_fault(column: FieldView, seen: Seen) -> Option<Fault> {
    if !column.metadata.contains_key(physical_name_key()) {
        None
    } else {
        match column.metadata[physical_name_key()] {
            ValueView::Text(name) => if seen.names.contains(name) {
                Some(Fault::DuplicatePhysicalName { name })
            } else {
                None
            },
            value => Some(Fault::PhysicalNameNotString { field: column.name, value }),
        }
    }
}

/// What is wrong with the id of a column, where others have been seen.
pub open spec fn id_fault(column: FieldView, seen: Seen, max: int) -> Option<Fault> {
    if !column.metadata.contains_key(id_key()) {
        None
    } else {
        match column.metadata[id_key()] {
            ValueView::Number(id) => if id <= 0 {
                Some(Fault::IdNotPositive { field: column.name, id })
            } else if seen.ids.contains(id) {
                Some(Fault::DuplicateId { id })
            } else if id > max {
                Some(Fault::IdExceedsMax { field: column.name, id, max })
            } else {
                None
            },
            value => Some(Fault::IdNotNumber { field: column.name, value }),
        }
    }
}

/// What is wrong with a column, where others have been seen: its physical name is looked at
/// first, then its id.
pub open spec fn column_fault(column: FieldView, seen: Seen, max: int) -> Option<Fault> {
    match physical_name_fault(column, seen) {
        Some(fault) => Some(fault),
        None => id_fault(column, seen, max),
    }
}

/// What has been seen once a column has been looked at: its physical name too, and its id too
/// unless that is not positive or nothing but the physical name was looked at.
pub open spec fn seen_with(column: FieldView, seen: Seen) -> Seen {
    Seen {
        names: match physical_name_of(column) {
            Some(name) => seen.names.insert(name),
            None => seen.names,
        },
        ids: match id_of(column) {
            Some(id) => if id > 0 && physical_name_fault(column, seen) is None {
                seen.ids.insert(id)
            } else {
                seen.ids
            },
            None => seen.ids,
        },
    }
}

/// The first thing that is wrong with a list of columns, where others have been seen.
pub open spec fn first_fault(columns: Seq<FieldView>, seen: Seen, max: int) -> Option<Fault>
    decreases columns.len(),
{
    if columns.len() == 0 {
        None
    } else {
        match first_fault(columns.drop_last(), seen, max) {
            Some(fault) => Some(fault),
            None => column_fault(
                columns.last(),
                seen_after(columns.drop_last(), seen, max),
                max,
            ),
        }
    }
}

/// What has been seen once a list of columns has been looked at, up to and with the first column
/// that something is wrong with.
pub open spec fn seen_after(columns: Seq<FieldView>, seen: Seen, max: int) -> Seen
    decreases columns.len(),
{
    if columns.len() == 0 {
        seen
    } else {
        let before = seen_after(columns.drop_last(), seen, max);
        if first_fault(columns.drop_last(), seen, max) is Some {
            before
        } else {
            seen_with(columns.last(), before)
        }
    }
}

/// The first thing that is wrong with the columns of a schema and the greatest id given for them.
pub open spec fn schema_fault(fields: Seq<FieldView>, max: int) -> Option<Fault> {
    if max <= 0 {
        Some(Fault::MaxColumnIdNotPositive { max })
    } else {
        first_fault(columns(fields), nothing_seen(), max)
    }
}

/// The columns of one list are looked at before those of the other, which are not looked at
/// where something is wrong with the first.
pub proof fn lemma_first_fault_concat(
    left: Seq<FieldView>,
    right: Seq<FieldView>,
    seen: Seen,
    max: int,
)
    ensures
        first_fault(left, seen, max) is Some ==> {
            &&& first_fault(left + right, seen, max) == first_fault(left, seen, max)
            &&& seen_after(left + right, seen, max) == seen_after(left, seen, max)
        },
        first_fault(left, seen, max) is None ==> {
            &&& first_fault(left + right, seen, max) == first_fault(
                right,
                seen_after(left, seen, max),
                max,
            )
            &&& seen_after(left + right, seen, max) == seen_after(
                right,
                seen_after(left, seen, max),
                max,
            )
        },
    decreases right.len(),
{
    if right.len() == 0 {
        assert(left + right =~= left);
    } else {
        lemma_first_fault_concat(left, right.drop_last(), seen, max);
        assert((left + right).drop_last() =~= left + right.drop_last());
    }
}

/// A field is looked at before the columns of its type.
proof fn lemma_first_fault_field(field: FieldView, seen: Seen, max: int)
    ensures
        column_fault(field, seen, max) is Some ==> {
            &&& first_fault(field_columns(field), seen, max) == column_fault(field, seen, max)
            &&& seen_after(field_columns(field), seen, max) == seen_with(field, seen)
        },
        column_fault(field, seen, max) is None ==> {
            &&& first_fault(field_columns(field), seen, max) == first_fault(
                type_columns(field.data_type),
                seen_with(field, seen),
                max,
            )
            &&& seen_after(field_columns(field), seen, max) == seen_after(
                type_columns(field.data_type),
                seen_with(field, seen),
                max,
            )
        },
{
    let own = seq![field];
    assert(own.drop_last() =~= Seq::<FieldView>::empty());
    assert(first_fault(own.drop_last(), seen, max) is None);
    assert(seen_after(own.drop_last(), seen, max) == seen);
    assert(first_fault(own, seen, max) == column_fault(field, seen, max));
    assert(seen_after(own, seen, max) == seen_with(field, seen));
    lemma_first_fault_concat(own, type_columns(field.data_type), seen, max);
}

/// The numbers in a set of ids.
pub open spec fn numbers(ids: Set<i64>) -> Set<int> {
    ids.map(|id: i64| id as int)
}

/// What the sets of physical names and ids hold.
pub open spec fn seen_in(names: Set<Seq<char>>, ids: Set<i64>) -> Seen {
    Seen { names, ids: numbers(ids) }
}

/// An id is among the numbers of a set of ids if and only if it is in the set, and adding it to
/// the one adds it to the other.
pub proof fn lemma_numbers(ids: Set<i64>, id: i64)
    ensures
        numbers(ids).contains(id as int) == ids.contains(id),
        numbers(ids.insert(id)) == numbers(ids).insert(id as int),
{
    if ids.contains(id) {
        assert(numbers(ids).contains(id as int));
    }
    let more = ids.insert(id);
    assert forall|n: int| numbers(more).contains(n) == numbers(ids).insert(id as int).contains(n) by {
        if numbers(ids).contains(n) {
            let other = choose|other: i64| ids.contains(other) && n == other as int;
            assert(more.contains(other));
        }
        if n == id {
            assert(more.contains(id));
        }
    }
    assert(numbers(more) =~= numbers(ids).insert(id as int));
}

/// Validate column mapping metadata consistency across all fields in the schema.
/// Checks for:
/// - Positive maxColumnId
/// - Positive field IDs (> 0)
/// - Duplicate physical names
/// - Duplicate IDs
/// - IDs not exceeding maxColumnId
/// - Correct metadata value types
pub fn validate_column_mapping_metadata(fields: &[StructField], max_column_id: i64) -> (r: Result<
    (),
    DeltaTableError,
>)
    ensures
        match r {
            Ok(()) => schema_fault(fields_view(fields@), max_column_id as int) is None,
            Err(error) => {
                &&& schema_fault(fields_view(fields@), max_column_id as int) is Some
                &&& error@ == message(schema_fault(fields_view(fields@), max_column_id as int)->0)
            },
        },
{
    if max_column_id <= 0 {
        return Err(max_column_id_not_positive(max_column_id));
    }
    let mut physical_names = StringHashSet::new();
    let mut ids: HashSet<i64> = HashSet::new();
    assert(seen_in(physical_names@, ids@) =~~= nothing_seen());

    validate_fields_recursive(fields, &mut physical_names, &mut ids, max_column_id)
}

/// Validates a list of fields and their columns, and adds their physical names and ids to those
/// that were seen before.
pub fn validate_fields_recursive(
    fields: &[StructField],
    physical_names: &mut StringHashSet,
    ids: &mut HashSet<i64>,
    max_column_id: i64,
) -> (r: Result<(), DeltaTableError>)
    ensures
        seen_in(final(physical_names)@, final(ids)@) == seen_after(
            columns(fields_view(fields@)),
            seen_in(old(physical_names)@, old(ids)@),
            max_column_id as int,
        ),
        reports(
            r,
            first_fault(
                columns(fields_view(fields@)),
                seen_in(old(physical_names)@, old(ids)@),
                max_column_id as int,
            ),
        ),
    decreases fields_view(fields@),
{
    let ghost views = fields_view(fields@);
    let ghost max = max_column_id as int;
    let ghost seen = seen_in(physical_names@, ids@);
    let mut i: usize = 0;
    while i < fields.len()
        invariant
            i <= fields@.len(),
            views == fields_view(fields@),
            max == max_column_id,
            seen == seen_in(old(physical_names)@, old(ids)@),
            first_fault(columns(views.take(i as int)), seen, max) is None,
            seen_in(physical_names@, ids@) == seen_after(
                columns(views.take(i as int)),
                seen,
                max,
            ),
        decreases fields@.len() - i,
    {
        proof {
            let field = views[i as int];
            let before = columns(views.take(i as int));
            assert(field == field_view(fields@[i as int]));
            lemma_columns_take(views, i as int);
            lemma_columns_split(views, i + 1);
            lemma_first_fault_concat(before, field_columns(field), seen, max);
            lemma_first_fault_concat(
                columns(views.take(i + 1)),
                columns(views.skip(i + 1)),
                seen,
                max,
            );
            lemma_first_fault_field(field, seen_after(before, seen, max), max);
        }
        match validate_field(&fields[i], physical_names, ids, max_column_id) {
            Ok(()) => {},
            Err(error) => {
                return Err(error);
            },
        }
        // Recurse into nested types.
        match validate_data_type_recursive(
            &fields[i].data_type,
            physical_names,
            ids,
            max_column_id,
        ) {
            Ok(()) => {},
            Err(error) => {
                return Err(error);
            },
        }
        i += 1;
    }
    assert(views.take(i as int) =~= views);
    Ok(())
}

/// Whether a result is an error with the message of a fault, and no error where there is none.
pub open spec fn reports(r: Result<(), DeltaTableError>, fault: Option<Fault>) -> bool {
    match r {
        Ok(()) => fault is None,
        Err(error) => fault is Some && error@ == message(fault->0),
    }
}

/// Validates the metadata of a field itself.
fn validate_field(
    field: &StructField,
    physical_names: &mut StringHashSet,
    ids: &mut HashSet<i64>,
    max_column_id: i64,
) -> (r: Result<(), DeltaTableError>)
    ensures
        seen_in(final(physical_names)@, final(ids)@) == seen_with(
            field@,
            seen_in(old(physical_names)@, old(ids)@),
        ),
        reports(
            r,
            column_fault(
                field@,
                seen_in(old(physical_names)@, old(ids)@),
                max_column_id as int,
            ),
        ),
{
    broadcast use vstd::std_specs::hash::group_hash_axioms;

    // Validate physicalName type and uniqueness.
    if let Some(value) = field.metadata.get(
        key_str(ColumnMetadataKey::ColumnMappingPhysicalName),
    ) {
        match value {
            MetadataValue::String(name) => {
                if !physical_names.insert(name.clone()) {
                    assert(physical_names@ =~= old(physical_names)@.insert(name@));
                    return Err(duplicate_physical_name(name));
                }
            },
            other => {
                return Err(physical_name_not_string(&field.name, other));
            },
        }
    }
    // Validate id type, uniqueness, positivity, and range.

    if let Some(value) = field.metadata.get(key_str(ColumnMetadataKey::ColumnMappingId)) {
        match value {
            MetadataValue::Number(id) => {
                if *id <= 0 {
                    return Err(id_not_positive(&field.name, *id));
                }
                proof {
                    lemma_numbers(ids@, *id);
                }
                if !ids.insert(*id) {
                    assert(ids@ =~= old(ids)@.insert(*id));
                    return Err(duplicate_id(*id));
                }
                if *id > max_column_id {
                    return Err(id_exceeds_max(&field.name, *id, max_column_id));
                }
            },
            other => {
                return Err(id_not_number(&field.name, other));
            },
        }
    }
    Ok(())
}

/// Validates the columns of a type, and adds their physical names and ids to those that were seen
/// before.
pub fn validate_data_type_recursive(
    data_type: &DataType,
    physical_names: &mut StringHashSet,
    ids: &mut HashSet<i64>,
    max_column_id: i64,
) -> (r: Result<(), DeltaTableError>)
    ensures
        seen_in(final(physical_names)@, final(ids)@) == seen_after(
            type_columns(data_type@),
            seen_in(old(physical_names)@, old(ids)@),
            max_column_id as int,
        ),
        reports(
            r,
            first_fault(
                type_columns(data_type@),
                seen_in(old(physical_names)@, old(ids)@),
                max_column_id as int,
            ),
        ),
    decreases data_type@,
{
    match data_type {
        DataType::Struct(inner) => validate_fields_recursive(
            inner.fields.as_slice(),
            physical_names,
            ids,
            max_column_id,
        ),
        DataType::Array(inner) => validate_data_type_recursive(
            &inner.element_type,
            physical_names,
            ids,
            max_column_id,
        ),
        DataType::KeyValue(inner) => {
            proof {
                lemma_first_fault_concat(
                    type_columns(inner.key_type@),
                    type_columns(inner.value_type@),
                    seen_in(physical_names@, ids@),
                    max_column_id as int,
                );
            }
            match validate_data_type_recursive(
                &inner.key_type,
                physical_names,
                ids,
                max_column_id,
            ) {
                Ok(()) => {},
                Err(error) => {
                    return Err(error);
                },
            }
            validate_data_type_recursive(&inner.value_type, physical_names, ids, max_column_id)
        },
        _ => Ok(()),
    }
}

} // verus!
