//! What holds of schemas that validate.
use crate::assign::{fields_assigned, generated_name, Naming};
use crate::config::is_max_column_id;
use crate::laws::assigning::{
    draw_of, is_mapped, law_every_column_is_mapped,
    law_identity_mapping_uses_logical_names, law_ids_stay_within_max, law_max_counts_missing_ids,
    law_max_is_given_or_an_id, law_new_ids_are_fresh, lemma_draws_in_order,
    lemma_fields_columns_assigned, lemma_generated_name, missing_ids, well_formed,
};
use crate::schema::{FieldView, TypeView};
use crate::validate::{
    column_fault, first_fault, id_of, lemma_first_fault_concat, lemma_numbers, nothing_seen,
    physical_name_of, schema_fault, seen_after, seen_in, seen_with, Seen,
};
use crate::walk::{
    columns, field_columns, id_key, lemma_columns_concat, lemma_columns_split, lemma_columns_take,
    max_after, missing_names, physical_name_key, type_columns,
};
use vstd::prelude::*;

verus! {

/// Whether the metadata of a column is of the right types, and its id is from 1 to `max`.
pub open spec fn in_order(column: FieldView, max: int) -> bool {
    &&& column.metadata.contains_key(physical_name_key()) ==> column.metadata[physical_name_key()]
        is Text
    &&& column.metadata.contains_key(id_key()) ==> {
        &&& column.metadata[id_key()] is Number
        &&& 1 <= column.metadata[id_key()]->Number_0 <= max
    }
}

/// Whether no two columns have the same physical name.
pub open spec fn distinct_physical_names(columns: Seq<FieldView>) -> bool {
    forall|k: int, j: int|
        0 <= k < j < columns.len() && physical_name_of(#[trigger] columns[k]) is Some
            ==> physical_name_of(columns[k]) != physical_name_of(#[trigger] columns[j])
}

/// Whether no two columns have the same id.
pub open spec fn distinct_ids(columns: Seq<FieldView>) -> bool {
    forall|k: int, j: int|
        0 <= k < j < columns.len() && id_of(#[trigger] columns[k]) is Some ==> id_of(columns[k])
            != id_of(#[trigger] columns[j])
}

/// Whether the column mapping metadata of a list of columns is consistent.
pub open spec fn consistent(columns: Seq<FieldView>, max: int) -> bool {
    &&& forall|k: int| 0 <= k < columns.len() ==> in_order(#[trigger] columns[k], max)
    &&& distinct_physical_names(columns)
    &&& distinct_ids(columns)
}

/// Whether one of the columns has the physical name.
pub open spec fn has_physical_name(columns: Seq<FieldView>, name: Seq<char>) -> bool {
    exists|i: int| 0 <= i < columns.len() && physical_name_of(#[trigger] columns[i]) == Some(name)
}

/// Whether one of the columns has the id.
pub open spec fn has_id(columns: Seq<FieldView>, id: int) -> bool {
    exists|i: int| 0 <= i < columns.len() && id_of(#[trigger] columns[i]) == Some(id)
}

/// The physical names and ids of one more column.
proof fn lemma_has_push(columns: Seq<FieldView>, column: FieldView)
    ensures
        forall|name: Seq<char>| #[trigger]
            has_physical_name(columns.push(column), name) <==> has_physical_name(columns, name)
                || physical_name_of(column) == Some(name),
        forall|id: int| #[trigger]
            has_id(columns.push(column), id) <==> has_id(columns, id) || id_of(column) == Some(id),
{
    let more = columns.push(column);
    assert(more[columns.len() as int] == column);
    assert forall|name: Seq<char>|
        has_physical_name(columns, name) || physical_name_of(column) == Some(
            name,
        ) implies #[trigger] has_physical_name(more, name) by {
        if has_physical_name(columns, name) {
            let i = choose|i: int|
                0 <= i < columns.len() && physical_name_of(#[trigger] columns[i]) == Some(name);
            assert(more[i] == columns[i]);
        }
    }
    assert forall|name: Seq<char>| #[trigger] has_physical_name(more, name) implies
        has_physical_name(columns, name) || physical_name_of(column) == Some(name) by {
        let i = choose|i: int|
            0 <= i < more.len() && physical_name_of(#[trigger] more[i]) == Some(name);
        if i < columns.len() {
            assert(more[i] == columns[i]);
        }
    }
    assert forall|id: int|
        has_id(columns, id) || id_of(column) == Some(id) implies #[trigger] has_id(more, id) by {
        if has_id(columns, id) {
            let i = choose|i: int|
                0 <= i < columns.len() && id_of(#[trigger] columns[i]) == Some(id);
            assert(more[i] == columns[i]);
        }
    }
    assert forall|id: int| #[trigger] has_id(more, id) implies has_id(columns, id) || id_of(column)
        == Some(id) by {
        let i = choose|i: int| 0 <= i < more.len() && id_of(#[trigger] more[i]) == Some(id);
        if i < columns.len() {
            assert(more[i] == columns[i]);
        }
    }
}

/// Where nothing is wrong with a list of columns, what has been seen of them are their physical
/// names and their ids.
pub proof fn lemma_seen_of_faultless(columns: Seq<FieldView>, max: int)
    requires
        first_fault(columns, nothing_seen(), max) is None,
    ensures
        forall|name: Seq<char>| #[trigger]
            seen_after(columns, nothing_seen(), max).names.contains(name) <==> has_physical_name(
                columns,
                name,
            ),
        forall|id: int| #[trigger]
            seen_after(columns, nothing_seen(), max).ids.contains(id) <==> has_id(columns, id),
    decreases columns.len(),
{
    let seen = seen_after(columns, nothing_seen(), max);
    if columns.len() > 0 {
        let first = columns.drop_last();
        let last = columns.last();
        let before = seen_after(first, nothing_seen(), max);
        lemma_seen_of_faultless(first, max);
        lemma_has_push(first, last);
        assert(first.push(last) =~= columns);
        assert(seen == seen_with(last, before));
        assert(column_fault(last, before, max) is None);
        assert forall|name: Seq<char>| #[trigger] seen.names.contains(name) <==> has_physical_name(
            columns,
            name,
        ) by {
            assert(before.names.contains(name) <==> has_physical_name(first, name));
        }
        assert forall|id: int| #[trigger] seen.ids.contains(id) <==> has_id(columns, id) by {
            assert(before.ids.contains(id) <==> has_id(first, id));
        }
    }
}

/// Nothing is wrong with a list of columns if and only if they are consistent.
pub proof fn lemma_no_fault_iff_consistent(columns: Seq<FieldView>, max: int)
    ensures
        first_fault(columns, nothing_seen(), max) is None <==> consistent(columns, max),
    decreases columns.len(),
{
    if columns.len() > 0 {
        let first = columns.drop_last();
        let last = columns.last();
        let at = columns.len() - 1;
        let seen = seen_after(first, nothing_seen(), max);
        lemma_no_fault_iff_consistent(first, max);
        if first_fault(first, nothing_seen(), max) is None {
            lemma_seen_of_faultless(first, max);
        }
        assert(columns[at] == last);
        assert forall|k: int| #![trigger first[k]] 0 <= k < first.len() implies first[k]
            == columns[k] by {}
        assert forall|k: int| #![trigger columns[k]] 0 <= k < first.len() implies first[k]
            == columns[k] by {}
        if first_fault(columns, nothing_seen(), max) is None {
            assert(column_fault(last, seen, max) is None);
            assert forall|k: int, j: int|
                0 <= k < j < columns.len() && physical_name_of(
                    #[trigger] columns[k],
                ) is Some implies physical_name_of(columns[k]) != physical_name_of(
                #[trigger] columns[j],
            ) by {
                if j < at {
                    assert(first[j] == columns[j]);
                } else if physical_name_of(columns[k]) == physical_name_of(last) {
                    assert(physical_name_of(first[k]) == physical_name_of(last));
                    assert(has_physical_name(first, physical_name_of(last)->0));
                    assert(seen.names.contains(physical_name_of(last)->0));
                }
            }
            assert forall|k: int, j: int|
                0 <= k < j < columns.len() && id_of(#[trigger] columns[k]) is Some implies id_of(
                columns[k],
            ) != id_of(#[trigger] columns[j]) by {
                if j < at {
                    assert(first[j] == columns[j]);
                } else if id_of(columns[k]) == id_of(last) {
                    assert(id_of(first[k]) == id_of(last));
                    assert(has_id(first, id_of(last)->0));
                    assert(seen.ids.contains(id_of(last)->0));
                }
            }
            assert(in_order(last, max));
            assert(consistent(columns, max));
        }
        if consistent(columns, max) {
            assert(consistent(first, max));
            assert(in_order(last, max));
            if physical_name_of(last) is Some && seen.names.contains(physical_name_of(last)->0) {
                assert(has_physical_name(first, physical_name_of(last)->0));
                let k = choose|k: int|
                    0 <= k < first.len() && physical_name_of(#[trigger] first[k])
                        == physical_name_of(last);
                assert(physical_name_of(columns[k]) == physical_name_of(columns[at]));
            }
            if id_of(last) is Some && seen.ids.contains(id_of(last)->0) {
                assert(has_id(first, id_of(last)->0));
                let k = choose|k: int|
                    0 <= k < first.len() && id_of(#[trigger] first[k]) == id_of(last);
                assert(id_of(columns[k]) == id_of(columns[at]));
            }
            assert(column_fault(last, seen, max) is None);
        }
    }
}

/// Law: a schema validates if and only if the greatest id is positive, all physical names are
/// strings, all ids are numbers from 1 to the greatest id, and no two columns at any depth share
/// a physical name or an id.
pub proof fn law_validates_iff_consistent(fields: Seq<FieldView>, max: int)
    ensures
        schema_fault(fields, max) is None <==> max > 0 && consistent(columns(fields), max),
{
    lemma_no_fault_iff_consistent(columns(fields), max);
}

/// Law: what is reported of a schema is what is wrong with the first column, in the order of the
/// walk, that has something wrong with it. The columns before it are looked at in full: what has
/// been seen by then are their physical names and ids.
pub proof fn law_first_faulty_column_is_reported(fields: Seq<FieldView>, max: int)
    requires
        max > 0,
        schema_fault(fields, max) is Some,
    ensures
        exists|k: int| #[trigger]
            is_first_faulty(columns(fields), k, max) && column_fault(
                columns(fields)[k],
                seen_after(columns(fields).take(k), nothing_seen(), max),
                max,
            ) == schema_fault(fields, max),
{
    let _ = lemma_first_faulty(columns(fields), max);
}

/// Whether the column at `k` is the first that something is wrong with.
pub open spec fn is_first_faulty(columns: Seq<FieldView>, k: int, max: int) -> bool {
    let before = columns.take(k);
    let seen = seen_after(before, nothing_seen(), max);
    &&& 0 <= k < columns.len()
    &&& first_fault(before, nothing_seen(), max) is None
    &&& forall|name: Seq<char>| #[trigger]
        seen.names.contains(name) <==> has_physical_name(before, name)
    &&& forall|id: int| #[trigger] seen.ids.contains(id) <==> has_id(before, id)
    &&& column_fault(columns[k], seen, max) is Some
}

/// The first fault is that of the first faulty column.
proof fn lemma_first_faulty(columns: Seq<FieldView>, max: int) -> (k: int)
    requires
        first_fault(columns, nothing_seen(), max) is Some,
    ensures
        is_first_faulty(columns, k, max),
        column_fault(columns[k], seen_after(columns.take(k), nothing_seen(), max), max)
            == first_fault(columns, nothing_seen(), max),
    decreases columns.len(),
{
    let first = columns.drop_last();
    let at = columns.len() - 1;
    if first_fault(first, nothing_seen(), max) is Some {
        let k = lemma_first_faulty(first, max);
        assert(columns.take(k) =~= first.take(k));
        assert(columns[k] == first[k]);
        k
    } else {
        assert(columns.take(at) =~= first);
        lemma_seen_of_faultless(first, max);
        at
    }
}

/// Law: validating one list of fields and then, where nothing is wrong with it, another with what
/// has been seen by then, is validating the two lists in a row: the outcome is the same, and so
/// is what has been seen.
pub proof fn law_validating_in_parts(
    left: Seq<FieldView>,
    right: Seq<FieldView>,
    seen: Seen,
    max: int,
)
    ensures
        first_fault(columns(left), seen, max) is Some ==> {
            &&& first_fault(columns(left + right), seen, max) == first_fault(
                columns(left),
                seen,
                max,
            )
            &&& seen_after(columns(left + right), seen, max) == seen_after(
                columns(left),
                seen,
                max,
            )
        },
        first_fault(columns(left), seen, max) is None ==> {
            let middle = seen_after(columns(left), seen, max);
            &&& first_fault(columns(left + right), seen, max) == first_fault(
                columns(right),
                middle,
                max,
            )
            &&& seen_after(columns(left + right), seen, max) == seen_after(
                columns(right),
                middle,
                max,
            )
        },
{
    lemma_columns_concat(left, right);
    lemma_first_fault_concat(columns(left), columns(right), seen, max);
}

/// Law: an array is validated as its elements, a struct as its fields, and a type without columns
/// validates and adds nothing to what has been seen.
pub proof fn law_types_validate_as_their_parts(data_type: TypeView, seen: Seen, max: int)
    ensures
        data_type is Array ==> {
            let element = type_columns(*data_type->element);
            &&& first_fault(type_columns(data_type), seen, max) == first_fault(element, seen, max)
            &&& seen_after(type_columns(data_type), seen, max) == seen_after(element, seen, max)
        },
        data_type is Struct ==> {
            let fields = columns(data_type->Struct_0);
            &&& first_fault(type_columns(data_type), seen, max) == first_fault(fields, seen, max)
            &&& seen_after(type_columns(data_type), seen, max) == seen_after(fields, seen, max)
        },
        data_type is Primitive || data_type is Variant ==> {
            &&& first_fault(type_columns(data_type), seen, max) is None
            &&& seen_after(type_columns(data_type), seen, max) == seen
        },
{
}

/// Law: what has been seen fixes the sets of physical names and ids that hold it.
pub proof fn law_seen_fixes_the_sets(
    names: Set<Seq<char>>,
    ids: Set<i64>,
    other_names: Set<Seq<char>>,
    other_ids: Set<i64>,
)
    requires
        seen_in(names, ids) == seen_in(other_names, other_ids),
    ensures
        names == other_names,
        ids == other_ids,
{
    assert forall|id: i64| ids.contains(id) == other_ids.contains(id) by {
        lemma_numbers(ids, id);
        lemma_numbers(other_ids, id);
        assert(seen_in(names, ids).ids == seen_in(other_names, other_ids).ids);
    }
    assert(ids =~= other_ids);
    assert(seen_in(names, ids).names == seen_in(other_names, other_ids).names);
}

/// Law: a schema that validates also validates with a greater greatest id.
pub proof fn law_validates_with_greater_max(fields: Seq<FieldView>, max: int, greater: int)
    requires
        schema_fault(fields, max) is None,
        max <= greater,
    ensures
        schema_fault(fields, greater) is None,
{
    law_validates_iff_consistent(fields, max);
    law_validates_iff_consistent(fields, greater);
    assert forall|k: int| 0 <= k < columns(fields).len() implies in_order(
        #[trigger] columns(fields)[k],
        greater,
    ) by {
        assert(in_order(columns(fields)[k], max));
    }
}

/// Law: an assignment to a schema whose metadata is consistent with the given greatest id makes
/// one that validates with the greatest id handed back if and only if the physical names come out
/// distinct. There has to be a column, or a positive greatest id.
pub proof fn law_assigned_schema_validates(
    before: Seq<FieldView>,
    after: Seq<FieldView>,
    max: int,
    naming: Naming,
)
    requires
        well_formed(before),
        fields_assigned(before, after, max, naming),
        max >= 0,
        consistent(columns(before), max),
        columns(before).len() > 0 || max > 0,
    ensures
        schema_fault(after, max_after(columns(before), max)) is None <==> distinct_physical_names(
            columns(after),
        ),
{
    let old_columns = columns(before);
    let new_columns = columns(after);
    let end = max_after(old_columns, max);
    lemma_fields_columns_assigned(before, after, max, naming);
    law_every_column_is_mapped(before, after, max, naming);
    law_ids_stay_within_max(before, after, max, naming);
    assert forall|k: int| 0 <= k < old_columns.len() && id_of(
        #[trigger] old_columns[k],
    ) is Some implies id_of(old_columns[k])->0 <= max by {
        assert(in_order(old_columns[k], max));
    }
    law_new_ids_are_fresh(before, after, max, naming);
    assert forall|k: int| 0 <= k < new_columns.len() implies in_order(
        #[trigger] new_columns[k],
        end,
    ) && id_of(new_columns[k]) is Some by {
        assert(is_mapped(new_columns[k]));
        assert(in_order(old_columns[k], max));
        if old_columns[k].metadata.contains_key(id_key()) {
            assert(id_of(new_columns[k]) == id_of(old_columns[k]));
        }
        assert(id_of(new_columns[k])->0 <= end);
    }
    assert forall|k: int, j: int|
        0 <= k < j < new_columns.len() && id_of(#[trigger] new_columns[k]) is Some implies id_of(
        new_columns[k],
    ) != id_of(#[trigger] new_columns[j]) by {
        let old_k = old_columns[k];
        let old_j = old_columns[j];
        if old_k.metadata.contains_key(id_key()) && old_j.metadata.contains_key(id_key()) {
            assert(in_order(old_k, max));
            assert(id_of(new_columns[k]) == id_of(old_k));
            assert(id_of(new_columns[j]) == id_of(old_j));
        }
    }
    assert(end > 0) by {
        if old_columns.len() > 0 {
            assert(in_order(new_columns[0], end));
            assert(id_of(new_columns[0]) is Some);
        }
    }
    law_validates_iff_consistent(after, end);
}

/// Whether no column has a physical name or an id.
pub open spec fn all_fresh(columns: Seq<FieldView>) -> bool {
    forall|k: int|
        0 <= k < columns.len() ==> {
            &&& !(#[trigger] columns[k]).metadata.contains_key(physical_name_key())
            &&& !columns[k].metadata.contains_key(id_key())
        }
}

/// Whether no two columns have the same logical name.
pub open spec fn distinct_names(columns: Seq<FieldView>) -> bool {
    forall|k: int, j: int|
        0 <= k < j < columns.len() ==> (#[trigger] columns[k]).name != (#[trigger] columns[j]).name
}

/// Identity mapping gives fresh columns of different names different physical names.
proof fn lemma_identity_names_differ(before: Seq<FieldView>, after: Seq<FieldView>, max: int)
    requires
        well_formed(before),
        fields_assigned(before, after, max, Naming::Logical),
        all_fresh(columns(before)),
        distinct_names(columns(before)),
    ensures
        distinct_physical_names(columns(after)),
{
    let old_columns = columns(before);
    let new_columns = columns(after);
    law_identity_mapping_uses_logical_names(before, after, max);
    assert forall|k: int, j: int|
        0 <= k < j < new_columns.len() && physical_name_of(
            #[trigger] new_columns[k],
        ) is Some implies physical_name_of(new_columns[k]) != physical_name_of(
        #[trigger] new_columns[j],
    ) by {
        assert(physical_name_of(new_columns[k]) == Some(old_columns[k].name));
        assert(physical_name_of(new_columns[j]) == Some(old_columns[j].name));
    }
}

/// Different UUIDs give fresh columns different physical names.
proof fn lemma_generated_names_differ(
    before: Seq<FieldView>,
    after: Seq<FieldView>,
    max: int,
    uuids: Seq<Seq<char>>,
)
    requires
        well_formed(before),
        fields_assigned(before, after, max, Naming::Drawn { uuids, used: 0 }),
        missing_names(columns(before)) <= uuids.len(),
        uuids.no_duplicates(),
        all_fresh(columns(before)),
    ensures
        distinct_physical_names(columns(after)),
{
    let old_columns = columns(before);
    let new_columns = columns(after);
    law_every_column_is_mapped(before, after, max, Naming::Drawn { uuids, used: 0 });
    assert forall|k: int, j: int|
        0 <= k < j < new_columns.len() && physical_name_of(
            #[trigger] new_columns[k],
        ) is Some implies physical_name_of(new_columns[k]) != physical_name_of(
        #[trigger] new_columns[j],
    ) by {
        assert(!old_columns[k].metadata.contains_key(physical_name_key()));
        assert(!old_columns[j].metadata.contains_key(physical_name_key()));
        lemma_generated_name(before, after, max, uuids, k);
        lemma_generated_name(before, after, max, uuids, j);
        lemma_draws_in_order(old_columns, k, j);
        let first = uuids[draw_of(old_columns, k)];
        let second = uuids[draw_of(old_columns, j)];
        if generated_name(first) == generated_name(second) {
            lemma_generated_name_holds(first, second);
        }
    }
}

/// Generated names that hold different UUIDs differ.
proof fn lemma_generated_name_holds(first: Seq<char>, second: Seq<char>)
    requires
        generated_name(first) == generated_name(second),
    ensures
        first == second,
{
    let prefix = "col-"@.len() as int;
    assert(generated_name(first).skip(prefix) =~= first);
    assert(generated_name(second).skip(prefix) =~= second);
}

/// Fresh columns are consistent, and raise the greatest id by their number.
proof fn lemma_fresh(columns: Seq<FieldView>, max: int)
    requires
        all_fresh(columns),
    ensures
        consistent(columns, max),
        max_after(columns, max) == max + columns.len(),
{
    lemma_all_ids_missing(columns);
    law_max_counts_missing_ids(columns, max);
}

/// Law: identity mapping of a schema that has no column mapping metadata and no two columns of the
/// same name at any depth makes one that validates, from whatever greatest id it starts. The
/// greatest id grows by the number of columns.
pub proof fn law_identity_mapping_of_fresh_schema_validates(
    before: Seq<FieldView>,
    after: Seq<FieldView>,
    max: int,
)
    requires
        well_formed(before),
        fields_assigned(before, after, max, Naming::Logical),
        max >= 0,
        columns(before).len() > 0 || max > 0,
        all_fresh(columns(before)),
        distinct_names(columns(before)),
    ensures
        max_after(columns(before), max) == max + columns(before).len(),
        schema_fault(after, max_after(columns(before), max)) is None,
{
    lemma_fresh(columns(before), max);
    lemma_identity_names_differ(before, after, max);
    law_assigned_schema_validates(before, after, max, Naming::Logical);
}

/// Law: an assignment with generated names, to a schema that has no column mapping metadata, makes
/// one that validates, from whatever greatest id it starts, where no UUID was drawn twice. The
/// greatest id grows by the number of columns.
pub proof fn law_generated_mapping_of_fresh_schema_validates(
    before: Seq<FieldView>,
    after: Seq<FieldView>,
    max: int,
    uuids: Seq<Seq<char>>,
)
    requires
        well_formed(before),
        fields_assigned(before, after, max, Naming::Drawn { uuids, used: 0 }),
        missing_names(columns(before)) <= uuids.len(),
        uuids.no_duplicates(),
        max >= 0,
        columns(before).len() > 0 || max > 0,
        all_fresh(columns(before)),
    ensures
        max_after(columns(before), max) == max + columns(before).len(),
        schema_fault(after, max_after(columns(before), max)) is None,
{
    lemma_fresh(columns(before), max);
    lemma_generated_names_differ(before, after, max, uuids);
    law_assigned_schema_validates(before, after, max, Naming::Drawn { uuids, used: 0 });
}

/// Law: columns added to a schema that validates are in order. Where new fields without an id are
/// assigned from the greatest id that the schema validates with, the schema followed by the new
/// fields validates with the greatest id handed back, if and only if no two physical names in it
/// are the same. Physical names that the new fields bring along have to be strings.
pub proof fn law_schema_with_added_columns_validates(
    existing: Seq<FieldView>,
    added: Seq<FieldView>,
    assigned: Seq<FieldView>,
    max: int,
    naming: Naming,
)
    requires
        well_formed(added),
        schema_fault(existing, max) is None,
        fields_assigned(added, assigned, max, naming),
        forall|k: int|
            0 <= k < columns(added).len() ==> !(#[trigger] columns(
                added,
            )[k]).metadata.contains_key(id_key()),
        forall|k: int|
            0 <= k < columns(added).len() && (#[trigger] columns(added)[k]).metadata.contains_key(
                physical_name_key(),
            ) ==> columns(added)[k].metadata[physical_name_key()] is Text,
    ensures
        max_after(columns(added), max) == max + columns(added).len(),
        schema_fault(existing + assigned, max_after(columns(added), max)) is None
            <==> distinct_physical_names(columns(existing + assigned)),
{
    let kept = columns(existing);
    let new_columns = columns(assigned);
    let all = columns(existing + assigned);
    let end = max_after(columns(added), max);
    lemma_columns_concat(existing, assigned);
    law_validates_iff_consistent(existing, max);
    lemma_all_ids_missing(columns(added));
    law_max_counts_missing_ids(columns(added), max);
    lemma_fields_columns_assigned(added, assigned, max, naming);
    law_every_column_is_mapped(added, assigned, max, naming);
    law_ids_stay_within_max(added, assigned, max, naming);
    law_new_ids_are_fresh(added, assigned, max, naming);
    assert forall|k: int| 0 <= k < new_columns.len() implies in_order(
        #[trigger] new_columns[k],
        end,
    ) && id_of(new_columns[k]) is Some && max < id_of(new_columns[k])->0 by {
        assert(!columns(added)[k].metadata.contains_key(id_key()));
        assert(is_mapped(new_columns[k]));
    }
    assert forall|k: int| 0 <= k < all.len() implies in_order(#[trigger] all[k], end) by {
        if k < kept.len() {
            assert(in_order(kept[k], max));
        } else {
            assert(in_order(new_columns[k - kept.len()], end));
        }
    }
    assert forall|k: int, j: int|
        0 <= k < j < all.len() && id_of(#[trigger] all[k]) is Some implies id_of(all[k]) != id_of(
        #[trigger] all[j],
    ) by {
        if j < kept.len() {
            assert(id_of(kept[k]) != id_of(kept[j]));
        } else {
            let at = j - kept.len();
            assert(in_order(new_columns[at], end));
            if k < kept.len() {
                assert(in_order(kept[k], max));
            } else {
                assert(!columns(added)[k - kept.len()].metadata.contains_key(id_key()));
                assert(id_of(new_columns[k - kept.len()]) != id_of(new_columns[at]));
            }
        }
    }
    law_validates_iff_consistent(existing + assigned, end);
}

/// Where no column has an id, all ids are missing.
proof fn lemma_all_ids_missing(columns: Seq<FieldView>)
    requires
        forall|k: int|
            0 <= k < columns.len() ==> !(#[trigger] columns[k]).metadata.contains_key(id_key()),
    ensures
        missing_ids(columns) == columns.len(),
    decreases columns.len(),
{
    if columns.len() > 0 {
        let first = columns.drop_last();
        assert forall|k: int| 0 <= k < first.len() implies !(
        #[trigger] first[k]).metadata.contains_key(id_key()) by {
            assert(columns[k] == first[k]);
        }
        lemma_all_ids_missing(first);
        assert(columns.last() == columns[columns.len() - 1]);
    }
}

/// Each field of a list is among its columns.
proof fn lemma_field_is_column(fields: Seq<FieldView>, i: int) -> (k: int)
    requires
        0 <= i < fields.len(),
    ensures
        0 <= k < columns(fields).len(),
        columns(fields)[k] == fields[i],
{
    lemma_columns_split(fields, i + 1);
    lemma_columns_take(fields, i);
    let k = columns(fields.take(i)).len() as int;
    assert(field_columns(fields[i])[0] == fields[i]);
    assert(columns(fields.take(i + 1))[k] == fields[i]);
    k
}

/// Law: the greatest id found in a schema that validates is at most the greatest id that it
/// validates with.
pub proof fn law_max_column_id_of_valid_schema(fields: Seq<FieldView>, found: int, max: int)
    requires
        is_max_column_id(fields, found),
        schema_fault(fields, max) is None,
    ensures
        0 <= found <= max,
{
    law_validates_iff_consistent(fields, max);
    if found != 0 {
        let i = choose|i: int| 0 <= i < fields.len() && id_of(#[trigger] fields[i]) == Some(found);
        let k = lemma_field_is_column(fields, i);
        assert(in_order(columns(fields)[k], max));
    }
}

/// Law: the greatest id found in a schema after an assignment is at most the one that the
/// assignment hands back, where that is not negative.
pub proof fn law_max_column_id_after_assignment(
    before: Seq<FieldView>,
    after: Seq<FieldView>,
    max: int,
    naming: Naming,
    found: int,
)
    requires
        well_formed(before),
        fields_assigned(before, after, max, naming),
        max_after(columns(before), max) >= 0,
        is_max_column_id(after, found),
    ensures
        found <= max_after(columns(before), max),
{
    law_ids_stay_within_max(before, after, max, naming);
    if found != 0 {
        let i = choose|i: int| 0 <= i < after.len() && id_of(#[trigger] after[i]) == Some(found);
        let k = lemma_field_is_column(after, i);
        assert(id_of(columns(after)[k]) == Some(found));
    }
}

/// Where there are no more columns than fields, the columns are the fields.
proof fn lemma_flat_columns(fields: Seq<FieldView>)
    ensures
        columns(fields).len() >= fields.len(),
        columns(fields).len() == fields.len() ==> columns(fields) == fields,
    decreases fields.len(),
{
    if fields.len() > 0 {
        lemma_flat_columns(fields.drop_last());
        assert(field_columns(fields.last()).len() >= 1);
        if columns(fields).len() == fields.len() {
            assert(field_columns(fields.last()) =~= seq![fields.last()]);
            assert(columns(fields) =~= fields);
        }
    }
}

/// Law: in a schema without columns below the top level, the greatest id found after an
/// assignment that starts from zero is the one that the assignment hands back.
pub proof fn law_max_column_id_of_flat_schema(
    before: Seq<FieldView>,
    after: Seq<FieldView>,
    naming: Naming,
    found: int,
)
    requires
        well_formed(before),
        fields_assigned(before, after, 0, naming),
        columns(before).len() == before.len(),
    ensures
        is_max_column_id(after, found) <==> found == max_after(columns(before), 0),
{
    law_every_column_is_mapped(before, after, 0, naming);
    law_ids_stay_within_max(before, after, 0, naming);
    law_max_is_given_or_an_id(before, after, 0, naming);
    lemma_flat_columns(after);
}

} // verus!
