//! What holds of the columns of a schema once they have been assigned.
use crate::assign::{
    field_assigned, fields_assigned, generated_name, given_name, lemma_naming_after_concat,
    metadata_assigned, naming_after, naming_with, type_assigned, Naming,
};
use crate::metadata::ValueView;
use crate::rules::struct_rules;
use crate::schema::{FieldView, TypeView};
use crate::validate::{id_of, physical_name_of};
use crate::walk::{
    columns, field_columns, id_key, lemma_columns_concat, lemma_columns_split, lemma_columns_take,
    lemma_max_after_concat, lemma_max_after_grows, lemma_missing_names_concat, max_after, max_with,
    missing_names, physical_name_key, type_columns,
};
use vstd::prelude::*;

verus! {

/// Whether the structs that a type leads to keep [`struct_rules`].
pub open spec fn well_formed_type(data_type: TypeView) -> bool
    decreases data_type,
{
    match data_type {
        TypeView::Struct(fields) => struct_rules(fields) && well_formed(fields),
        TypeView::Array { element, .. } => well_formed_type(*element),
        TypeView::KeyValue { key, value, .. } => well_formed_type(*key) && well_formed_type(*value),
        TypeView::Primitive(_) | TypeView::Variant(_) => true,
    }
}

/// Whether the structs below a list of fields keep [`struct_rules`].
pub open spec fn well_formed(fields: Seq<FieldView>) -> bool
    decreases fields,
{
    forall|i: int| 0 <= i < fields.len() ==> well_formed_type((#[trigger] fields[i]).data_type)
}

/// Whether `after` is a column once it has been assigned, apart from the columns below it.
pub open spec fn column_assigned(
    before: FieldView,
    after: FieldView,
    max: int,
    naming: Naming,
) -> bool {
    &&& after.name == before.name
    &&& after.nullable == before.nullable
    &&& metadata_assigned(before, after.metadata, max, naming)
}

/// Whether each of a list of columns has been assigned, one after the other.
pub open spec fn columns_assigned(
    before: Seq<FieldView>,
    after: Seq<FieldView>,
    max: int,
    naming: Naming,
) -> bool {
    &&& after.len() == before.len()
    &&& forall|k: int|
        #![trigger before[k]]
        #![trigger after[k]]
        0 <= k < before.len() ==> column_assigned(
            before[k],
            after[k],
            max_after(before.take(k), max),
            naming_after(before.take(k), naming),
        )
}

/// Two lists of columns are assigned one after the other.
proof fn lemma_columns_assigned_concat(
    left: Seq<FieldView>,
    left_after: Seq<FieldView>,
    right: Seq<FieldView>,
    right_after: Seq<FieldView>,
    max: int,
    naming: Naming,
)
    requires
        columns_assigned(left, left_after, max, naming),
        columns_assigned(right, right_after, max_after(left, max), naming_after(left, naming)),
    ensures
        columns_assigned(left + right, left_after + right_after, max, naming),
{
    let before = left + right;
    let after = left_after + right_after;
    assert forall|k: int|
        #![trigger before[k]]
        #![trigger after[k]]
        0 <= k < before.len() implies column_assigned(
        before[k],
        after[k],
        max_after(before.take(k), max),
        naming_after(before.take(k), naming),
    ) by {
        if k < left.len() {
            assert(before.take(k) =~= left.take(k));
            assert(left[k] == before[k]);
        } else {
            let j = k - left.len();
            assert(before.take(k) =~= left + right.take(j));
            lemma_max_after_concat(left, right.take(j), max);
            lemma_naming_after_concat(left, right.take(j), naming);
            assert(right[j] == before[k]);
        }
    }
}

/// A field and the columns of its type are assigned one after the other.
proof fn lemma_field_columns_assigned(
    before: FieldView,
    after: FieldView,
    max: int,
    naming: Naming,
)
    requires
        well_formed_type(before.data_type),
        field_assigned(before, after, max, naming),
    ensures
        columns_assigned(field_columns(before), field_columns(after), max, naming),
    decreases before,
{
    let rest = naming_with(before, naming);
    lemma_type_columns_assigned(before.data_type, after.data_type, max_with(before, max), rest);
    let own = seq![before];
    assert(own.take(0) =~= Seq::<FieldView>::empty());
    assert(own.drop_last() =~= Seq::<FieldView>::empty());
    assert(max_after(own, max) == max_with(before, max_after(own.drop_last(), max)));
    assert(missing_names(own.drop_last()) == 0);
    assert(naming_after(own, naming) == naming_with(before, naming));
    assert(columns_assigned(own, seq![after], max, naming));
    lemma_columns_assigned_concat(
        own,
        seq![after],
        type_columns(before.data_type),
        type_columns(after.data_type),
        max,
        naming,
    );
}

/// The columns of a type are assigned one after the other.
proof fn lemma_type_columns_assigned(
    before: TypeView,
    after: TypeView,
    max: int,
    naming: Naming,
)
    requires
        well_formed_type(before),
        type_assigned(before, after, max, naming),
    ensures
        columns_assigned(type_columns(before), type_columns(after), max, naming),
    decreases before,
{
    match before {
        TypeView::Struct(fields) => {
            lemma_fields_columns_assigned(fields, after->Struct_0, max, naming);
        },
        TypeView::Array { element, .. } => {
            lemma_type_columns_assigned(*element, *after->element, max, naming);
        },
        TypeView::KeyValue { key, value, .. } => {
            let middle = max_after(type_columns(*key), max);
            let rest = naming_after(type_columns(*key), naming);
            lemma_type_columns_assigned(*key, *after->key, max, naming);
            lemma_type_columns_assigned(*value, *after->value, middle, rest);
            lemma_columns_assigned_concat(
                type_columns(*key),
                type_columns(*after->key),
                type_columns(*value),
                type_columns(*after->value),
                max,
                naming,
            );
        },
        _ => {},
    }
}

/// The columns of a list of fields are assigned one after the other, at any depth: none is left
/// out, none is added, and their order stays.
pub proof fn lemma_fields_columns_assigned(
    before: Seq<FieldView>,
    after: Seq<FieldView>,
    max: int,
    naming: Naming,
)
    requires
        well_formed(before),
        fields_assigned(before, after, max, naming),
    ensures
        columns_assigned(columns(before), columns(after), max, naming),
    decreases before,
{
    if before.len() > 0 {
        let last = before.len() - 1;
        let first = before.drop_last();
        let first_after = after.drop_last();
        assert(first =~= before.take(last));
        assert forall|i: int| 0 <= i < first.len() implies field_assigned(
            #[trigger] first[i],
            first_after[i],
            max_after(columns(first.take(i)), max),
            naming_after(columns(first.take(i)), naming),
        ) by {
            assert(before[i] == first[i]);
            assert(first.take(i) =~= before.take(i));
        }
        assert forall|i: int| 0 <= i < first.len() implies well_formed_type(
            (#[trigger] first[i]).data_type,
        ) by {
            assert(before[i] == first[i]);
        }
        lemma_fields_columns_assigned(first, first_after, max, naming);
        let middle = max_after(columns(first), max);
        let rest = naming_after(columns(first), naming);
        assert(field_assigned(before[last], after[last], middle, rest));
        lemma_field_columns_assigned(before[last], after[last], middle, rest);
        lemma_columns_assigned_concat(
            columns(first),
            columns(first_after),
            field_columns(before[last]),
            field_columns(after[last]),
            max,
            naming,
        );
    }
}

/// Law: after an assignment every column has a physical name and an id.
pub proof fn law_every_column_is_mapped(
    before: Seq<FieldView>,
    after: Seq<FieldView>,
    max: int,
    naming: Naming,
)
    requires
        well_formed(before),
        fields_assigned(before, after, max, naming),
    ensures
        columns(after).len() == columns(before).len(),
        forall|k: int|
            0 <= k < columns(after).len() ==> is_mapped(#[trigger] columns(after)[k]),
{
    lemma_fields_columns_assigned(before, after, max, naming);
    assert forall|k: int| 0 <= k < columns(after).len() implies is_mapped(
        #[trigger] columns(after)[k],
    ) by {
        let metadata = columns(after)[k].metadata;
        assert(metadata.dom().contains(physical_name_key()));
        assert(metadata.dom().contains(id_key()));
    }
}

/// Whether a column has a physical name and an id.
pub open spec fn is_mapped(column: FieldView) -> bool {
    &&& column.metadata.contains_key(physical_name_key())
    &&& column.metadata.contains_key(id_key())
}

/// Law: an assignment keeps the names, the nullability and all existing metadata of the columns,
/// and adds nothing but physical names and ids.
pub proof fn law_existing_metadata_is_kept(
    before: Seq<FieldView>,
    after: Seq<FieldView>,
    max: int,
    naming: Naming,
)
    requires
        well_formed(before),
        fields_assigned(before, after, max, naming),
    ensures
        columns(after).len() == columns(before).len(),
        forall|k: int|
            0 <= k < columns(before).len() ==> {
                let old_column = #[trigger] columns(before)[k];
                let new_column = columns(after)[k];
                &&& new_column.name == old_column.name
                &&& new_column.nullable == old_column.nullable
                &&& forall|key: Seq<char>| #[trigger]
                    old_column.metadata.contains_key(key) ==> new_column.metadata.contains_key(key)
                        && new_column.metadata[key] == old_column.metadata[key]
                &&& forall|key: Seq<char>| #[trigger]
                    new_column.metadata.contains_key(key) ==> old_column.metadata.contains_key(key)
                        || key == physical_name_key() || key == id_key()
            },
{
    lemma_fields_columns_assigned(before, after, max, naming);
    assert forall|k: int| 0 <= k < columns(before).len() implies {
        let old_column = #[trigger] columns(before)[k];
        let new_column = columns(after)[k];
        &&& new_column.name == old_column.name
        &&& new_column.nullable == old_column.nullable
        &&& forall|key: Seq<char>| #[trigger]
            old_column.metadata.contains_key(key) ==> new_column.metadata.contains_key(key)
                && new_column.metadata[key] == old_column.metadata[key]
        &&& forall|key: Seq<char>| #[trigger]
            new_column.metadata.contains_key(key) ==> old_column.metadata.contains_key(key) || key
                == physical_name_key() || key == id_key()
    } by {
        let old_column = columns(before)[k];
        let new_column = columns(after)[k];
        assert forall|key: Seq<char>| #[trigger] old_column.metadata.contains_key(key) implies
            new_column.metadata.contains_key(key) by {
            assert(old_column.metadata.dom().contains(key));
        }
        assert forall|key: Seq<char>| #[trigger] new_column.metadata.contains_key(key) implies
            old_column.metadata.contains_key(key) || key == physical_name_key() || key
            == id_key() by {
            assert(new_column.metadata.dom().contains(key));
        }
    }
}

/// Law: identity mapping gives a column without a physical name its logical name.
pub proof fn law_identity_mapping_uses_logical_names(
    before: Seq<FieldView>,
    after: Seq<FieldView>,
    max: int,
)
    requires
        well_formed(before),
        fields_assigned(before, after, max, Naming::Logical),
    ensures
        columns(after).len() == columns(before).len(),
        forall|k: int|
            0 <= k < columns(before).len() && !(#[trigger] columns(
                before,
            )[k]).metadata.contains_key(physical_name_key()) ==> physical_name_of(
                columns(after)[k],
            ) == Some(columns(before)[k].name),
{
    let naming = Naming::Logical;
    lemma_fields_columns_assigned(before, after, max, naming);
    law_every_column_is_mapped(before, after, max, naming);
    assert forall|k: int|
        0 <= k < columns(before).len() && !(#[trigger] columns(before)[k]).metadata.contains_key(
            physical_name_key(),
        ) implies physical_name_of(columns(after)[k]) == Some(columns(before)[k].name) by {
        assert(is_mapped(columns(after)[k]));
    }
}

/// A list of columns lacks at least the physical names that the first of them lack, and one more
/// where the next column lacks one.
proof fn lemma_missing_names_take(columns: Seq<FieldView>, k: int)
    requires
        0 <= k < columns.len(),
    ensures
        missing_names(columns.take(k)) <= missing_names(columns),
        !columns[k].metadata.contains_key(physical_name_key()) ==> missing_names(columns.take(k))
            < missing_names(columns),
        !columns[k].metadata.contains_key(physical_name_key()) ==> missing_names(
            columns.take(k + 1),
        ) == missing_names(columns.take(k)) + 1,
{
    assert(columns.take(k + 1).drop_last() =~= columns.take(k));
    assert(columns =~= columns.take(k + 1) + columns.skip(k + 1));
    lemma_missing_names_concat(columns.take(k + 1), columns.skip(k + 1));
}

/// Law: an assignment with generated names gives the columns without a physical name, in the
/// order of the walk, one UUID each: the name of such a column is `col-` followed by the UUID
/// drawn for it, whatever its logical name, and no two columns get the same draw.
pub proof fn law_generated_names_hold_their_uuid(
    before: Seq<FieldView>,
    after: Seq<FieldView>,
    max: int,
    uuids: Seq<Seq<char>>,
)
    requires
        well_formed(before),
        fields_assigned(before, after, max, Naming::Drawn { uuids, used: 0 }),
    ensures
        columns(after).len() == columns(before).len(),
        forall|k: int|
            0 <= k < columns(before).len() && !(#[trigger] columns(
                before,
            )[k]).metadata.contains_key(physical_name_key()) ==> {
                &&& draw_of(columns(before), k) < missing_names(columns(before))
                &&& physical_name_of(columns(after)[k]) == Some(
                    generated_name(uuids[draw_of(columns(before), k)]),
                )
            },
        forall|k: int, j: int|
            0 <= k < j < columns(before).len() && !(#[trigger] columns(
                before,
            )[k]).metadata.contains_key(physical_name_key()) ==> draw_of(columns(before), k)
                < #[trigger] draw_of(columns(before), j),
{
    let naming = Naming::Drawn { uuids, used: 0 };
    let old_columns = columns(before);
    law_every_column_is_mapped(before, after, max, naming);
    assert forall|k: int|
        0 <= k < old_columns.len() && !(#[trigger] old_columns[k]).metadata.contains_key(
            physical_name_key(),
        ) implies draw_of(old_columns, k) < missing_names(old_columns) && physical_name_of(
        columns(after)[k],
    ) == Some(generated_name(uuids[draw_of(old_columns, k)])) by {
        lemma_generated_name(before, after, max, uuids, k);
    }
    assert forall|k: int, j: int|
        0 <= k < j < old_columns.len() && !(#[trigger] old_columns[k]).metadata.contains_key(
            physical_name_key(),
        ) implies draw_of(old_columns, k) < #[trigger] draw_of(old_columns, j) by {
        lemma_draws_in_order(old_columns, k, j);
    }
}

/// The physical name that a column without one gets holds the UUID drawn for it.
pub proof fn lemma_generated_name(
    before: Seq<FieldView>,
    after: Seq<FieldView>,
    max: int,
    uuids: Seq<Seq<char>>,
    k: int,
)
    requires
        well_formed(before),
        fields_assigned(before, after, max, Naming::Drawn { uuids, used: 0 }),
        0 <= k < columns(before).len(),
        !columns(before)[k].metadata.contains_key(physical_name_key()),
    ensures
        columns(after).len() == columns(before).len(),
        draw_of(columns(before), k) < missing_names(columns(before)),
        physical_name_of(columns(after)[k]) == Some(
            generated_name(uuids[draw_of(columns(before), k)]),
        ),
{
    lemma_fields_columns_assigned(before, after, max, Naming::Drawn { uuids, used: 0 });
    lemma_generated_name_of_column(columns(before), columns(after), max, uuids, k);
}

/// The physical name that one of a list of columns gets holds the UUID drawn for it.
proof fn lemma_generated_name_of_column(
    before: Seq<FieldView>,
    after: Seq<FieldView>,
    max: int,
    uuids: Seq<Seq<char>>,
    k: int,
)
    requires
        columns_assigned(before, after, max, Naming::Drawn { uuids, used: 0 }),
        0 <= k < before.len(),
        !before[k].metadata.contains_key(physical_name_key()),
    ensures
        draw_of(before, k) < missing_names(before),
        physical_name_of(after[k]) == Some(generated_name(uuids[draw_of(before, k)])),
{
    let naming = Naming::Drawn { uuids, used: 0 };
    let reached = max_after(before.take(k), max);
    let rest = naming_after(before.take(k), naming);
    assert(column_assigned(before[k], after[k], reached, rest));
    lemma_name_given(before[k], after[k], reached, rest);
    assert(draw_of(before, k) < missing_names(before)) by {
        lemma_missing_names_take(before, k);
    }
}

/// The physical name that a column without one gets is the one that comes next.
proof fn lemma_name_given(before: FieldView, after: FieldView, max: int, naming: Naming)
    requires
        column_assigned(before, after, max, naming),
        !before.metadata.contains_key(physical_name_key()),
    ensures
        physical_name_of(after) == Some(given_name(naming, before.name)),
{
    assert(after.metadata.dom().contains(physical_name_key()));
}

/// The draw for a column without a physical name comes before those for later columns.
pub proof fn lemma_draws_in_order(columns: Seq<FieldView>, k: int, j: int)
    requires
        0 <= k < j < columns.len(),
        !columns[k].metadata.contains_key(physical_name_key()),
    ensures
        draw_of(columns, k) < draw_of(columns, j),
{
    let head = columns.take(j);
    assert(head.take(k) =~= columns.take(k));
    assert(head[k] == columns[k]);
    lemma_missing_names_take(head, k);
}

/// Which of the UUIDs is drawn for a column without a physical name: the one after those for the
/// columns before it.
pub open spec fn draw_of(columns: Seq<FieldView>, k: int) -> int {
    missing_names(columns.take(k)) as int
}

/// The greatest id after one more column.
pub proof fn lemma_max_after_take(columns: Seq<FieldView>, k: int, max: int)
    requires
        0 <= k < columns.len(),
    ensures
        max_after(columns.take(k + 1), max) == max_with(
            columns[k],
            max_after(columns.take(k), max),
        ),
        max <= max_after(columns.take(k), max),
        max_after(columns.take(k + 1), max) <= max_after(columns, max),
{
    assert(columns.take(k + 1).drop_last() =~= columns.take(k));
    assert(columns =~= columns.take(k + 1) + columns.skip(k + 1));
    lemma_max_after_concat(columns.take(k + 1), columns.skip(k + 1), max);
    lemma_max_after_grows(columns.skip(k + 1), max_after(columns.take(k + 1), max));
    lemma_max_after_grows(columns.take(k), max);
}

/// The id of an assigned column is at most the greatest id after it.
pub proof fn lemma_id_after(before: FieldView, after: FieldView, max: int, naming: Naming)
    requires
        column_assigned(before, after, max, naming),
    ensures
        id_of(after) is Some ==> id_of(after)->0 <= max_with(before, max),
        !before.metadata.contains_key(id_key()) ==> id_of(after) == Some(max + 1),
        before.metadata.contains_key(id_key()) ==> id_of(after) == id_of(before),
{
    assert(after.metadata.dom().contains(id_key()));
}

/// Law: the greatest id that an assignment hands back is no less than the one it was given, and
/// no column has a greater id.
pub proof fn law_ids_stay_within_max(
    before: Seq<FieldView>,
    after: Seq<FieldView>,
    max: int,
    naming: Naming,
)
    requires
        well_formed(before),
        fields_assigned(before, after, max, naming),
    ensures
        max <= max_after(columns(before), max),
        forall|k: int|
            0 <= k < columns(after).len() && id_of(#[trigger] columns(after)[k]) is Some ==> id_of(
                columns(after)[k],
            )->0 <= max_after(columns(before), max),
{
    lemma_fields_columns_assigned(before, after, max, naming);
    lemma_max_after_grows(columns(before), max);
    assert forall|k: int|
        0 <= k < columns(after).len() && id_of(#[trigger] columns(after)[k]) is Some implies id_of(
        columns(after)[k],
    )->0 <= max_after(columns(before), max) by {
        lemma_max_after_take(columns(before), k, max);
        lemma_id_after(
            columns(before)[k],
            columns(after)[k],
            max_after(columns(before).take(k), max),
            naming_after(columns(before).take(k), naming),
        );
    }
}

/// The greatest id after a list of columns is the one before it, or the id of one of them.
pub proof fn lemma_max_after_is_an_id(
    before: Seq<FieldView>,
    after: Seq<FieldView>,
    max: int,
    naming: Naming,
)
    requires
        columns_assigned(before, after, max, naming),
    ensures
        max_after(before, max) == max || exists|k: int|
            0 <= k < after.len() && id_of(#[trigger] after[k]) == Some(max_after(before, max)),
    decreases before.len(),
{
    if before.len() > 0 {
        let last = before.len() - 1;
        let first = before.drop_last();
        let first_after = after.drop_last();
        assert forall|k: int|
            #![trigger first[k]]
            #![trigger first_after[k]]
            0 <= k < first.len() implies column_assigned(
            first[k],
            first_after[k],
            max_after(first.take(k), max),
            naming_after(first.take(k), naming),
        ) by {
            assert(before[k] == first[k]);
            assert(first.take(k) =~= before.take(k));
        }
        lemma_max_after_is_an_id(first, first_after, max, naming);
        assert(before.take(last) =~= first);
        lemma_id_after(
            before[last],
            after[last],
            max_after(first, max),
            naming_after(first, naming),
        );
        if max_after(before, max) == max_after(first, max) {
            if max_after(before, max) != max {
                let k = choose|k: int|
                    0 <= k < first_after.len() && id_of(#[trigger] first_after[k]) == Some(
                        max_after(first, max),
                    );
                assert(after[k] == first_after[k]);
            }
        } else {
            assert(id_of(after[last]) == Some(max_after(before, max)));
        }
    }
}

/// Law: the greatest id that an assignment hands back is the one it was given, or the id of a
/// column.
pub proof fn law_max_is_given_or_an_id(
    before: Seq<FieldView>,
    after: Seq<FieldView>,
    max: int,
    naming: Naming,
)
    requires
        well_formed(before),
        fields_assigned(before, after, max, naming),
    ensures
        max_after(columns(before), max) == max || exists|k: int|
            0 <= k < columns(after).len() && id_of(#[trigger] columns(after)[k]) == Some(
                max_after(columns(before), max),
            ),
{
    lemma_fields_columns_assigned(before, after, max, naming);
    lemma_max_after_is_an_id(columns(before), columns(after), max, naming);
}

/// Whether no column has an id greater than `max`.
pub open spec fn ids_within(columns: Seq<FieldView>, max: int) -> bool {
    forall|k: int|
        0 <= k < columns.len() && id_of(#[trigger] columns[k]) is Some ==> id_of(columns[k])->0
            <= max
}

/// The number of columns without an id.
pub open spec fn missing_ids(columns: Seq<FieldView>) -> nat
    decreases columns.len(),
{
    if columns.len() == 0 {
        0
    } else {
        missing_ids(columns.drop_last()) + if columns.last().metadata.contains_key(id_key()) {
            0nat
        } else {
            1nat
        }
    }
}

/// Law: where no existing id is greater than the given greatest id, that grows by one for each
/// column without an id.
pub proof fn law_max_counts_missing_ids(columns: Seq<FieldView>, max: int)
    requires
        ids_within(columns, max),
    ensures
        max_after(columns, max) == max + missing_ids(columns),
    decreases columns.len(),
{
    if columns.len() > 0 {
        let first = columns.drop_last();
        assert forall|k: int| 0 <= k < first.len() && id_of(#[trigger] first[k]) is Some implies
            id_of(first[k])->0 <= max by {
            assert(columns[k] == first[k]);
        }
        law_max_counts_missing_ids(first, max);
        assert(columns.last() == columns[columns.len() - 1]);
    }
}

/// Law: where no existing id is greater than the given greatest id, the ids that an assignment
/// gives are greater than it, and no other column has them.
pub proof fn law_new_ids_are_fresh(
    before: Seq<FieldView>,
    after: Seq<FieldView>,
    max: int,
    naming: Naming,
)
    requires
        well_formed(before),
        fields_assigned(before, after, max, naming),
        ids_within(columns(before), max),
    ensures
        columns(after).len() == columns(before).len(),
        forall|k: int|
            0 <= k < columns(before).len() && !(#[trigger] columns(
                before,
            )[k]).metadata.contains_key(id_key()) ==> {
                &&& id_of(columns(after)[k]) is Some
                &&& max < id_of(columns(after)[k])->0
            },
        forall|k: int, j: int|
            0 <= k < columns(before).len() && 0 <= j < columns(before).len() && k != j
                && !(#[trigger] columns(before)[k]).metadata.contains_key(id_key()) ==> id_of(
                columns(after)[k],
            ) != id_of(#[trigger] columns(after)[j]),
{
    lemma_fields_columns_assigned(before, after, max, naming);
    let old_columns = columns(before);
    let new_columns = columns(after);
    assert forall|k: int|
        0 <= k < old_columns.len() && !(#[trigger] old_columns[k]).metadata.contains_key(
            id_key(),
        ) implies id_of(new_columns[k]) is Some && max < id_of(new_columns[k])->0 by {
        lemma_max_after_take(old_columns, k, max);
        lemma_id_after(
            old_columns[k],
            new_columns[k],
            max_after(old_columns.take(k), max),
            naming_after(old_columns.take(k), naming),
        );
    }
    assert forall|k: int, j: int|
        0 <= k < old_columns.len() && 0 <= j < old_columns.len() && k != j && !(
        #[trigger] old_columns[k]).metadata.contains_key(id_key()) implies id_of(new_columns[k])
        != id_of(#[trigger] new_columns[j]) by {
        lemma_id_after(
            old_columns[k],
            new_columns[k],
            max_after(old_columns.take(k), max),
            naming_after(old_columns.take(k), naming),
        );
        lemma_id_after(
            old_columns[j],
            new_columns[j],
            max_after(old_columns.take(j), max),
            naming_after(old_columns.take(j), naming),
        );
        lemma_max_after_take(old_columns, k, max);
        lemma_max_after_take(old_columns, j, max);
        if old_columns[j].metadata.contains_key(id_key()) {
            assert(id_of(old_columns[j]) is Some ==> id_of(old_columns[j])->0 <= max);
        } else {
            let low = if k < j { k } else { j };
            let high = if k < j { j } else { k };
            let head = old_columns.take(high);
            lemma_max_after_take(head, low, max);
            assert(head.take(low + 1) =~= old_columns.take(low + 1));
        }
    }
}

/// A column with a physical name and an id keeps its metadata.
proof fn lemma_mapped_metadata_stays(
    before: FieldView,
    after: Map<Seq<char>, ValueView>,
    max: int,
    naming: Naming,
)
    requires
        is_mapped(before),
        metadata_assigned(before, after, max, naming),
    ensures
        after == before.metadata,
{
    assert(after.dom() =~= before.metadata.dom());
    assert forall|key: Seq<char>| #[trigger] after.contains_key(key) implies after[key]
        == before.metadata[key] by {
        assert(before.metadata.dom().contains(key));
        assert(before.metadata.contains_key(key));
    }
    assert(after =~= before.metadata);
}

/// Whether all columns of a list have a physical name and an id.
pub open spec fn all_mapped(columns: Seq<FieldView>) -> bool {
    forall|k: int| 0 <= k < columns.len() ==> is_mapped(#[trigger] columns[k])
}

/// Where all columns of two lists are mapped, so are those of each.
pub proof fn lemma_all_mapped_concat(left: Seq<FieldView>, right: Seq<FieldView>)
    requires
        all_mapped(left + right),
    ensures
        all_mapped(left),
        all_mapped(right),
{
    let both = left + right;
    assert forall|k: int| 0 <= k < left.len() implies is_mapped(#[trigger] left[k]) by {
        assert(both[k] == left[k]);
    }
    assert forall|k: int| 0 <= k < right.len() implies is_mapped(#[trigger] right[k]) by {
        assert(both[left.len() + k] == right[k]);
    }
}

/// A field stays where it and the columns of its type are mapped.
proof fn lemma_mapped_field_stays(
    before: FieldView,
    after: FieldView,
    max: int,
    naming: Naming,
)
    requires
        all_mapped(field_columns(before)),
        field_assigned(before, after, max, naming),
    ensures
        after == before,
    decreases before,
{
    lemma_all_mapped_concat(seq![before], type_columns(before.data_type));
    assert(is_mapped(seq![before][0]));
    lemma_mapped_metadata_stays(before, after.metadata, max, naming);
    let rest = naming_with(before, naming);
    lemma_mapped_type_stays(before.data_type, after.data_type, max_with(before, max), rest);
}

/// A type stays where its columns are mapped.
proof fn lemma_mapped_type_stays(
    before: TypeView,
    after: TypeView,
    max: int,
    naming: Naming,
)
    requires
        all_mapped(type_columns(before)),
        type_assigned(before, after, max, naming),
    ensures
        after == before,
    decreases before,
{
    match before {
        TypeView::Struct(fields) => {
            if struct_rules(fields) {
                lemma_mapped_fields_stay(fields, after->Struct_0, max, naming);
            }
        },
        TypeView::Array { element, .. } => {
            lemma_mapped_type_stays(*element, *after->element, max, naming);
        },
        TypeView::KeyValue { key, value, .. } => {
            lemma_all_mapped_concat(type_columns(*key), type_columns(*value));
            lemma_mapped_type_stays(*key, *after->key, max, naming);
            lemma_mapped_type_stays(
                *value,
                *after->value,
                max_after(type_columns(*key), max),
                naming_after(type_columns(*key), naming),
            );
        },
        _ => {},
    }
}

/// Fields stay where their columns are mapped.
proof fn lemma_mapped_fields_stay(
    before: Seq<FieldView>,
    after: Seq<FieldView>,
    max: int,
    naming: Naming,
)
    requires
        all_mapped(columns(before)),
        fields_assigned(before, after, max, naming),
    ensures
        after == before,
    decreases before,
{
    assert forall|i: int| 0 <= i < before.len() implies after[i] == before[i] by {
        lemma_field_columns_within(before, i);
        let middle = max_after(columns(before.take(i)), max);
        let rest = naming_after(columns(before.take(i)), naming);
        assert(field_assigned(before[i], after[i], middle, rest));
        lemma_mapped_field_stays(before[i], after[i], middle, rest);
    }
    assert(after =~= before);
}

/// Where the columns of a list of fields are mapped, so are those of each field.
pub proof fn lemma_field_columns_within(fields: Seq<FieldView>, i: int)
    requires
        0 <= i < fields.len(),
        all_mapped(columns(fields)),
    ensures
        all_mapped(field_columns(fields[i])),
{
    lemma_columns_split(fields, i + 1);
    lemma_columns_take(fields, i);
    lemma_all_mapped_concat(columns(fields.take(i + 1)), columns(fields.skip(i + 1)));
    lemma_all_mapped_concat(columns(fields.take(i)), field_columns(fields[i]));
}

/// The greatest id stays, where each column has an id and none is greater.
proof fn lemma_max_stays(columns: Seq<FieldView>, max: int)
    requires
        all_mapped(columns),
        ids_within(columns, max),
    ensures
        max_after(columns, max) == max,
    decreases columns.len(),
{
    if columns.len() > 0 {
        let first = columns.drop_last();
        assert forall|k: int| 0 <= k < first.len() implies is_mapped(#[trigger] first[k]) by {
            assert(columns[k] == first[k]);
        }
        assert forall|k: int| 0 <= k < first.len() && id_of(#[trigger] first[k]) is Some implies
            id_of(first[k])->0 <= max by {
            assert(columns[k] == first[k]);
        }
        lemma_max_stays(first, max);
        assert(is_mapped(columns[columns.len() - 1]));
    }
}

/// Law: assigning a schema whose columns all have a physical name and an id changes nothing in
/// it, wherever names would come from.
pub proof fn law_mapped_schema_stays(
    before: Seq<FieldView>,
    after: Seq<FieldView>,
    max: int,
    naming: Naming,
)
    requires
        all_mapped(columns(before)),
        fields_assigned(before, after, max, naming),
    ensures
        after == before,
{
    lemma_mapped_fields_stay(before, after, max, naming);
}

/// Law: assigning a schema a second time changes neither the schema nor the greatest id, wherever
/// names would come from.
pub proof fn law_assigning_twice_is_assigning_once(
    before: Seq<FieldView>,
    once: Seq<FieldView>,
    twice: Seq<FieldView>,
    max: int,
    naming: Naming,
    second_naming: Naming,
)
    requires
        well_formed(before),
        fields_assigned(before, once, max, naming),
        fields_assigned(once, twice, max_after(columns(before), max), second_naming),
    ensures
        twice == once,
        max_after(columns(once), max_after(columns(before), max)) == max_after(
            columns(before),
            max,
        ),
{
    law_every_column_is_mapped(before, once, max, naming);
    law_ids_stay_within_max(before, once, max, naming);
    lemma_mapped_fields_stay(once, twice, max_after(columns(before), max), second_naming);
    lemma_max_stays(columns(once), max_after(columns(before), max));
}

/// The metadata of a column comes out of an assignment in one way only.
proof fn lemma_metadata_determined(
    before: FieldView,
    one: Map<Seq<char>, ValueView>,
    other: Map<Seq<char>, ValueView>,
    max: int,
    naming: Naming,
)
    requires
        metadata_assigned(before, one, max, naming),
        metadata_assigned(before, other, max, naming),
    ensures
        one == other,
{
    assert(one.dom() =~= other.dom());
    assert forall|key: Seq<char>| #[trigger] one.contains_key(key) implies one[key]
        == other[key] by {
        assert(one.dom().contains(key));
        if key != physical_name_key() && key != id_key() {
            assert(before.metadata.dom().contains(key));
        }
    }
    assert(one =~= other);
}

/// A type comes out of an assignment in one way only.
proof fn lemma_type_determined(
    before: TypeView,
    one: TypeView,
    other: TypeView,
    max: int,
    naming: Naming,
)
    requires
        type_assigned(before, one, max, naming),
        type_assigned(before, other, max, naming),
    ensures
        one == other,
    decreases before,
{
    match before {
        TypeView::Struct(fields) => {
            if struct_rules(fields) {
                law_assignment_is_determined(fields, one->Struct_0, other->Struct_0, max, naming);
            }
        },
        TypeView::Array { element, .. } => {
            lemma_type_determined(*element, *one->element, *other->element, max, naming);
        },
        TypeView::KeyValue { key, value, .. } => {
            lemma_type_determined(*key, *one->key, *other->key, max, naming);
            lemma_type_determined(
                *value,
                *one->value,
                *other->value,
                max_after(type_columns(*key), max),
                naming_after(type_columns(*key), naming),
            );
        },
        _ => {},
    }
}

/// Law: what an assignment makes of a schema is fixed by the schema, the greatest id, and where
/// names come from.
pub proof fn law_assignment_is_determined(
    before: Seq<FieldView>,
    one: Seq<FieldView>,
    other: Seq<FieldView>,
    max: int,
    naming: Naming,
)
    requires
        fields_assigned(before, one, max, naming),
        fields_assigned(before, other, max, naming),
    ensures
        one == other,
    decreases before,
{
    assert forall|i: int| 0 <= i < before.len() implies one[i] == other[i] by {
        let field = before[i];
        let middle = max_after(columns(before.take(i)), max);
        let rest = naming_after(columns(before.take(i)), naming);
        assert(field_assigned(field, one[i], middle, rest));
        assert(field_assigned(field, other[i], middle, rest));
        lemma_metadata_determined(field, one[i].metadata, other[i].metadata, middle, rest);
        lemma_type_determined(
            field.data_type,
            one[i].data_type,
            other[i].data_type,
            max_with(field, middle),
            naming_with(field, rest),
        );
    }
    assert(one =~= other);
}

/// Law: assigning one list of fields, and then another from the greatest id that is left, is
/// assigning the two lists in a row. The greatest id left at the end is the same, and assigning
/// no fields leaves it as it is.
pub proof fn law_assigning_in_parts(
    left: Seq<FieldView>,
    left_after: Seq<FieldView>,
    right: Seq<FieldView>,
    right_after: Seq<FieldView>,
    after: Seq<FieldView>,
    max: int,
    naming: Naming,
)
    requires
        fields_assigned(left, left_after, max, naming),
        fields_assigned(
            right,
            right_after,
            max_after(columns(left), max),
            naming_after(columns(left), naming),
        ),
    ensures
        fields_assigned(left + right, after, max, naming) <==> after == left_after + right_after,
        max_after(columns(left + right), max) == max_after(
            columns(right),
            max_after(columns(left), max),
        ),
        naming_after(columns(left + right), naming) == naming_after(
            columns(right),
            naming_after(columns(left), naming),
        ),
        max_after(columns(Seq::<FieldView>::empty()), max) == max,
{
    let both = left + right;
    let both_after = left_after + right_after;
    lemma_columns_concat(left, right);
    lemma_max_after_concat(columns(left), columns(right), max);
    lemma_naming_after_concat(columns(left), columns(right), naming);
    assert forall|i: int| 0 <= i < both.len() implies field_assigned(
        #[trigger] both[i],
        both_after[i],
        max_after(columns(both.take(i)), max),
        naming_after(columns(both.take(i)), naming),
    ) by {
        if i < left.len() {
            assert(both.take(i) =~= left.take(i));
            assert(both[i] == left[i]);
        } else {
            let j = i - left.len();
            assert(both.take(i) =~= left + right.take(j));
            lemma_columns_concat(left, right.take(j));
            lemma_max_after_concat(columns(left), columns(right.take(j)), max);
            lemma_naming_after_concat(columns(left), columns(right.take(j)), naming);
            assert(both[i] == right[j]);
        }
    }
    assert(fields_assigned(both, both_after, max, naming));
    if fields_assigned(both, after, max, naming) {
        law_assignment_is_determined(both, after, both_after, max, naming);
    }
}

} // verus!
