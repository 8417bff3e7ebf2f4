//! What validation reports, told by the columns, and how it is worded.
use crate::error::{message, shown, DeltaTableError, Fault};
use crate::laws::validating::{
    consistent, has_id, has_physical_name, lemma_no_fault_iff_consistent, lemma_seen_of_faultless,
};
use crate::metadata::ValueView;
use crate::outside::text_debug;
use crate::schema::FieldView;
use crate::text::decimal;
use crate::validate::{
    column_fault, first_fault, id_of, lemma_first_fault_concat, nothing_seen, physical_name_of,
    reports, schema_fault, seen_after, seen_with, Seen,
};
use crate::walk::columns;
use vstd::prelude::*;

verus! {

/// Law: a greatest id that is not positive is what is reported, whatever the schema.
pub proof fn law_greatest_id_has_to_be_positive(fields: Seq<FieldView>, max: int)
    ensures
        max <= 0 <==> schema_fault(fields, max) == Some(Fault::MaxColumnIdNotPositive { max }),
{
    if max > 0 {
        lemma_not_about_max(columns(fields), max);
    }
}

/// What is wrong with columns is not the greatest id.
proof fn lemma_not_about_max(columns: Seq<FieldView>, max: int)
    ensures
        first_fault(columns, nothing_seen(), max) is Some ==> !(first_fault(
            columns,
            nothing_seen(),
            max,
        )->0 is MaxColumnIdNotPositive),
    decreases columns.len(),
{
    if columns.len() > 0 {
        lemma_not_about_max(columns.drop_last(), max);
    }
}

/// What is reported of a schema is what is wrong with the first column that is not in order with
/// the columns before it.
proof fn lemma_report(fields: Seq<FieldView>, max: int, k: int)
    requires
        max > 0,
        0 <= k < columns(fields).len(),
        consistent(columns(fields).take(k), max),
    ensures
        ({
            let seen = seen_after(columns(fields).take(k), nothing_seen(), max);
            &&& column_fault(columns(fields)[k], seen, max) is Some ==> schema_fault(fields, max)
                == column_fault(columns(fields)[k], seen, max)
            &&& forall|name: Seq<char>| #[trigger]
                seen.names.contains(name) <==> has_physical_name(columns(fields).take(k), name)
            &&& forall|id: int| #[trigger]
                seen.ids.contains(id) <==> has_id(columns(fields).take(k), id)
        }),
{
    let all = columns(fields);
    let before = all.take(k);
    let visited = all.take(k + 1);
    lemma_no_fault_iff_consistent(before, max);
    lemma_seen_of_faultless(before, max);
    assert(visited.drop_last() =~= before);
    assert(visited.last() == all[k]);
    assert(all =~= visited + all.skip(k + 1));
    lemma_first_fault_concat(visited, all.skip(k + 1), nothing_seen(), max);
}

/// Law: where the columns before a column are in order, a physical name of the column that is not
/// a string is reported, with the field's name and the value.
pub proof fn law_physical_name_has_to_be_a_string(fields: Seq<FieldView>, max: int, k: int)
    requires
        max > 0,
        0 <= k < columns(fields).len(),
        consistent(columns(fields).take(k), max),
        columns(fields)[k].metadata.contains_key("delta.columnMapping.physicalName"@),
        !(columns(fields)[k].metadata["delta.columnMapping.physicalName"@] is Text),
    ensures
        schema_fault(fields, max) == Some(
            Fault::PhysicalNameNotString {
                field: columns(fields)[k].name,
                value: columns(fields)[k].metadata["delta.columnMapping.physicalName"@],
            },
        ),
{
    lemma_report(fields, max, k);
}

/// Law: where the columns before a column are in order, a physical name that one of them has too
/// is reported.
pub proof fn law_physical_names_have_to_differ(fields: Seq<FieldView>, max: int, k: int, j: int)
    requires
        max > 0,
        0 <= j < k < columns(fields).len(),
        consistent(columns(fields).take(k), max),
        physical_name_of(columns(fields)[k]) is Some,
        physical_name_of(columns(fields)[j]) == physical_name_of(columns(fields)[k]),
    ensures
        schema_fault(fields, max) == Some(
            Fault::DuplicatePhysicalName { name: physical_name_of(columns(fields)[k])->0 },
        ),
{
    lemma_report(fields, max, k);
    let before = columns(fields).take(k);
    assert(before[j] == columns(fields)[j]);
    assert(has_physical_name(before, physical_name_of(columns(fields)[k])->0));
}

/// Whether the physical name of a column is missing, or a string that none of the columns before
/// it has.
pub open spec fn name_in_order(columns: Seq<FieldView>, k: int) -> bool {
    columns[k].metadata.contains_key("delta.columnMapping.physicalName"@) ==> {
        &&& columns[k].metadata["delta.columnMapping.physicalName"@] is Text
        &&& forall|j: int|
            0 <= j < k ==> physical_name_of(#[trigger] columns[j]) != physical_name_of(columns[k])
    }
}

/// A physical name that is in order has not been seen.
proof fn lemma_name_in_order(columns: Seq<FieldView>, k: int)
    requires
        0 <= k < columns.len(),
        name_in_order(columns, k),
        physical_name_of(columns[k]) is Some,
    ensures
        !has_physical_name(columns.take(k), physical_name_of(columns[k])->0),
{
    let before = columns.take(k);
    if has_physical_name(before, physical_name_of(columns[k])->0) {
        let j = choose|j: int|
            0 <= j < before.len() && physical_name_of(#[trigger] before[j]) == physical_name_of(
                columns[k],
            );
        assert(before[j] == columns[j]);
    }
}

/// Law: where the columns before a column and its physical name are in order, an id of the column
/// that is not a number is reported, with the field's name and the value.
pub proof fn law_id_has_to_be_a_number(fields: Seq<FieldView>, max: int, k: int)
    requires
        max > 0,
        0 <= k < columns(fields).len(),
        consistent(columns(fields).take(k), max),
        name_in_order(columns(fields), k),
        columns(fields)[k].metadata.contains_key("delta.columnMapping.id"@),
        !(columns(fields)[k].metadata["delta.columnMapping.id"@] is Number),
    ensures
        schema_fault(fields, max) == Some(
            Fault::IdNotNumber {
                field: columns(fields)[k].name,
                value: columns(fields)[k].metadata["delta.columnMapping.id"@],
            },
        ),
{
    lemma_report(fields, max, k);
    if physical_name_of(columns(fields)[k]) is Some {
        lemma_name_in_order(columns(fields), k);
    }
}

/// Law: where the columns before a column and its physical name are in order, an id that is not
/// positive is reported; else one that a column before it has too; else one that is greater than
/// the greatest id.
pub proof fn law_id_has_to_be_in_order(fields: Seq<FieldView>, max: int, k: int)
    requires
        max > 0,
        0 <= k < columns(fields).len(),
        consistent(columns(fields).take(k), max),
        name_in_order(columns(fields), k),
        id_of(columns(fields)[k]) is Some,
    ensures
        ({
            let column = columns(fields)[k];
            let id = id_of(column)->0;
            let repeated = exists|j: int|
                0 <= j < k && id_of(#[trigger] columns(fields)[j]) == Some(id);
            &&& id <= 0 ==> schema_fault(fields, max) == Some(
                Fault::IdNotPositive { field: column.name, id },
            )
            &&& id > 0 && repeated ==> schema_fault(fields, max) == Some(Fault::DuplicateId { id })
            &&& id > max && !repeated ==> schema_fault(fields, max) == Some(
                Fault::IdExceedsMax { field: column.name, id, max },
            )
        }),
{
    lemma_report(fields, max, k);
    let all = columns(fields);
    let before = all.take(k);
    let id = id_of(all[k])->0;
    if physical_name_of(all[k]) is Some {
        lemma_name_in_order(all, k);
    }
    if exists|j: int| 0 <= j < k && id_of(#[trigger] all[j]) == Some(id) {
        let j = choose|j: int| 0 <= j < k && id_of(#[trigger] all[j]) == Some(id);
        assert(before[j] == all[j]);
        assert(has_id(before, id));
    }
    if has_id(before, id) {
        let j = choose|j: int| 0 <= j < before.len() && id_of(#[trigger] before[j]) == Some(id);
        assert(before[j] == all[j]);
    }
}

/// Law: what has been seen of a column is its physical name, where that is a string, and its id,
/// where that is a positive number and nothing was wrong with the physical name.
pub proof fn law_what_is_seen_of_a_column(
    column: FieldView,
    seen: Seen,
    name: Seq<char>,
    id: int,
)
    ensures
        seen_with(column, seen).names.contains(name) <==> seen.names.contains(name) || (
        column.metadata.contains_key("delta.columnMapping.physicalName"@)
            && column.metadata["delta.columnMapping.physicalName"@] == ValueView::Text(name)),
        seen_with(column, seen).ids.contains(id) <==> seen.ids.contains(id) || (id > 0
            && column.metadata.contains_key("delta.columnMapping.id"@)
            && column.metadata["delta.columnMapping.id"@] == ValueView::Number(id)
            && unseen_name(column, seen)),
{
}

/// Whether the physical name of a column is missing, or a string that has not been seen.
pub open spec fn unseen_name(column: FieldView, seen: Seen) -> bool {
    column.metadata.contains_key("delta.columnMapping.physicalName"@) ==> {
        &&& column.metadata["delta.columnMapping.physicalName"@] is Text
        &&& !seen.names.contains(
            column.metadata["delta.columnMapping.physicalName"@]->Text_0,
        )
    }
}

/// Law: nothing is wrong with a column if and only if its physical name is missing or a string not
/// seen before, and its id is missing or a number not seen before, from 1 to the greatest id.
pub proof fn law_column_is_in_order(column: FieldView, seen: Seen, max: int)
    ensures
        column_fault(column, seen, max) is None <==> {
            &&& unseen_name(column, seen)
            &&& column.metadata.contains_key("delta.columnMapping.id"@) ==> {
                let value = column.metadata["delta.columnMapping.id"@];
                &&& value is Number
                &&& 1 <= value->Number_0 <= max
                &&& !seen.ids.contains(value->Number_0)
            }
        },
{
}

/// Law: a physical name that is not a string or has been seen is what is wrong with a column,
/// whatever its id. Where the physical name is in order, it is the id: not a number; else not
/// positive; else seen before; else greater than the greatest id.
pub proof fn law_what_is_wrong_with_a_column(column: FieldView, seen: Seen, max: int)
    ensures
        column.metadata.contains_key("delta.columnMapping.physicalName"@) ==> {
            let value = column.metadata["delta.columnMapping.physicalName"@];
            &&& !(value is Text) ==> column_fault(column, seen, max) == Some(
                Fault::PhysicalNameNotString { field: column.name, value },
            )
            &&& value is Text && seen.names.contains(value->Text_0) ==> column_fault(
                column,
                seen,
                max,
            ) == Some(Fault::DuplicatePhysicalName { name: value->Text_0 })
        },
        unseen_name(column, seen) && column.metadata.contains_key("delta.columnMapping.id"@) ==> {
            let value = column.metadata["delta.columnMapping.id"@];
            let id = value->Number_0;
            &&& !(value is Number) ==> column_fault(column, seen, max) == Some(
                Fault::IdNotNumber { field: column.name, value },
            )
            &&& value is Number && id <= 0 ==> column_fault(column, seen, max) == Some(
                Fault::IdNotPositive { field: column.name, id },
            )
            &&& value is Number && id > 0 && seen.ids.contains(id) ==> column_fault(
                column,
                seen,
                max,
            ) == Some(Fault::DuplicateId { id })
            &&& value is Number && id > 0 && id > max && !seen.ids.contains(id) ==> column_fault(
                column,
                seen,
                max,
            ) == Some(Fault::IdExceedsMax { field: column.name, id, max })
        },
{
}

/// Law: the columns are looked at one after the other, up to the first that something is wrong
/// with.
pub proof fn law_looking_stops_at_the_first_fault(
    visited: Seq<FieldView>,
    column: FieldView,
    seen: Seen,
    max: int,
)
    ensures
        first_fault(Seq::<FieldView>::empty(), seen, max) is None,
        seen_after(Seq::<FieldView>::empty(), seen, max) == seen,
        first_fault(visited, seen, max) is Some ==> {
            &&& first_fault(visited.push(column), seen, max) == first_fault(visited, seen, max)
            &&& seen_after(visited.push(column), seen, max) == seen_after(visited, seen, max)
        },
        first_fault(visited, seen, max) is None ==> {
            &&& first_fault(visited.push(column), seen, max) == column_fault(
                column,
                seen_after(visited, seen, max),
                max,
            )
            &&& seen_after(visited.push(column), seen, max) == seen_with(
                column,
                seen_after(visited, seen, max),
            )
        },
{
    assert(visited.push(column).drop_last() =~= visited);
}

/// Law: each fault is worded with what it is about: the greatest id, the physical name, the id,
/// the name of the field and the value.
pub proof fn law_faults_are_worded(
    name: Seq<char>,
    field: Seq<char>,
    value: ValueView,
    id: int,
    max: int,
)
    ensures
        message(Fault::MaxColumnIdNotPositive { max })
            == "delta.columnMapping.maxColumnId must be positive, got: "@ + decimal(max),
        message(Fault::DuplicatePhysicalName { name })
            == "Duplicate column mapping physicalName '"@ + name + "' found in schema."@,
        message(Fault::PhysicalNameNotString { field, value })
            == "Column mapping physicalName for field '"@ + field + "' must be a string, got: "@
            + shown(value),
        message(Fault::IdNotPositive { field, id }) == "Column mapping id for field '"@ + field
            + "' must be positive, got: "@ + decimal(id),
        message(Fault::DuplicateId { id }) == "Duplicate column mapping id "@ + decimal(id)
            + " found in schema."@,
        message(Fault::IdExceedsMax { field, id, max }) == "Column mapping id "@ + decimal(id)
            + " for field '"@ + field + "' exceeds maxColumnId ("@ + decimal(max) + ")."@,
        message(Fault::IdNotNumber { field, value }) == "Column mapping id for field '"@ + field
            + "' must be a number, got: "@ + shown(value),
        message(Fault::Disabling)
            == "Disabling column mapping on a column-mapped table is not supported. Column mapping cannot be deactivated once enabled."@,
        message(Fault::InvalidMode { setting: name }) == "Invalid column mapping mode '"@ + name
            + "'. Supported values are 'name' and 'id'."@,
{
}

/// Law: a value is shown by its kind, with what it holds in brackets.
pub proof fn law_values_are_shown(number: int, text: Seq<char>)
    ensures
        shown(ValueView::Number(number)) == "Number("@ + decimal(number) + ")"@,
        shown(ValueView::Text(text)) == "String("@ + text_debug(text) + ")"@,
        shown(ValueView::Boolean(true)) == "Boolean(true)"@,
        shown(ValueView::Boolean(false)) == "Boolean(false)"@,
        shown(ValueView::Other(text)) == "Other("@ + text + ")"@,
{
}

/// Law: an error is seen as its message, and a result reports a fault if and only if it is an
/// error with the fault's message, and none if and only if it is no error.
pub proof fn law_results_report_faults(r: Result<(), DeltaTableError>, fault: Fault, text: String)
    ensures
        DeltaTableError::Generic(text)@ == text@,
        reports(r, None) <==> r is Ok,
        reports(r, Some(fault)) <==> r is Err && r->Err_0@ == message(fault),
{
}

} // verus!
