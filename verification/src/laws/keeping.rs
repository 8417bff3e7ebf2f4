//! What an assignment keeps, and what it adds, told field by field.
use crate::assign::{
    field_assigned, fields_assigned, generated_name, lemma_naming_after_concat,
    lemma_stays_where_mapped, naming_after, naming_in, naming_with, texts, type_assigned, Naming,
    PhysicalNameMode,
};
use crate::laws::assigning::{
    all_mapped, column_assigned, draw_of, is_mapped, law_every_column_is_mapped,
    lemma_all_mapped_concat, lemma_draws_in_order, lemma_field_columns_within,
    lemma_fields_columns_assigned, lemma_generated_name, lemma_id_after, lemma_max_after_is_an_id,
    lemma_max_after_take, well_formed, well_formed_type,
};
use crate::laws::schemas::{found_in_fields, found_in_type, Step};
use crate::metadata::ValueView;
use crate::rules::struct_rules;
use crate::schema::{FieldView, TypeView};
use crate::validate::{id_of, physical_name_of};
use crate::walk::{
    columns, id_key, lemma_max_after_concat, lemma_max_after_grows, max_after, max_with,
    missing_names, physical_name_key, type_columns,
};
use vstd::prelude::*;

verus! {

/// A field without the metadata for column mapping, its own and that of the fields in its type.
pub open spec fn erased_field(field: FieldView) -> FieldView
    decreases field,
{
    FieldView {
        name: field.name,
        data_type: erased_type(field.data_type),
        nullable: field.nullable,
        metadata: field.metadata.remove("delta.columnMapping.physicalName"@).remove(
            "delta.columnMapping.id"@,
        ),
    }
}

/// A list of fields without the metadata for column mapping.
pub open spec fn erased_fields(fields: Seq<FieldView>) -> Seq<FieldView>
    decreases fields,
{
    Seq::new(
        fields.len(),
        |i: int|
            if 0 <= i < fields.len() {
                erased_field(fields[i])
            } else {
                arbitrary()
            },
    )
}

/// A type whose fields are without the metadata for column mapping. What a variant is stored as
/// is left as it is.
pub open spec fn erased_type(data_type: TypeView) -> TypeView
    decreases data_type,
{
    match data_type {
        TypeView::Primitive(primitive) => TypeView::Primitive(primitive),
        TypeView::Array { element, contains_null } => TypeView::Array {
            element: Box::new(erased_type(*element)),
            contains_null,
        },
        TypeView::Struct(fields) => TypeView::Struct(erased_fields(fields)),
        TypeView::KeyValue { key, value, value_contains_null } => TypeView::KeyValue {
            key: Box::new(erased_type(*key)),
            value: Box::new(erased_type(*value)),
            value_contains_null,
        },
        TypeView::Variant(fields) => TypeView::Variant(fields),
    }
}

/// Law: an assignment changes nothing but the metadata for column mapping. With that erased at
/// every depth, the schema after is the schema before: its nesting, the order and the names of its
/// fields, their nullability, their other metadata, the primitive types, and for every array and
/// map whether its elements or values may be null.
pub proof fn law_only_mapping_metadata_changes(
    before: Seq<FieldView>,
    after: Seq<FieldView>,
    max: int,
    naming: Naming,
)
    requires
        fields_assigned(before, after, max, naming),
    ensures
        erased_fields(after) == erased_fields(before),
    decreases before,
{
    assert forall|i: int| 0 <= i < before.len() implies erased_field(after[i]) == erased_field(
        before[i],
    ) by {
        let middle = max_after(columns(before.take(i)), max);
        let rest = naming_after(columns(before.take(i)), naming);
        assert(field_assigned(before[i], after[i], middle, rest));
        lemma_only_mapping_metadata_of_field_changes(before[i], after[i], middle, rest);
    }
    assert(erased_fields(after) =~= erased_fields(before));
}

/// An assignment changes nothing of a field but metadata for column mapping.
proof fn lemma_only_mapping_metadata_of_field_changes(
    before: FieldView,
    after: FieldView,
    max: int,
    naming: Naming,
)
    requires
        field_assigned(before, after, max, naming),
    ensures
        erased_field(after) == erased_field(before),
    decreases before,
{
    law_only_mapping_metadata_of_type_changes(
        before.data_type,
        after.data_type,
        max_with(before, max),
        naming_with(before, naming),
    );
    let old_rest = erased_field(before).metadata;
    let new_rest = erased_field(after).metadata;
    assert forall|key: Seq<char>| #[trigger] new_rest.contains_key(key) <==> old_rest.contains_key(
        key,
    ) by {
        assert(after.metadata.dom().contains(key) <==> before.metadata.dom().insert(
            physical_name_key(),
        ).insert(id_key()).contains(key));
    }
    assert forall|key: Seq<char>| #[trigger] new_rest.contains_key(key) implies new_rest[key]
        == old_rest[key] by {
        assert(old_rest.contains_key(key));
        assert(before.metadata.contains_key(key));
    }
    assert(new_rest =~= old_rest);
}

/// Law: an assignment changes nothing of a type but the metadata for column mapping of the fields
/// in it.
pub proof fn law_only_mapping_metadata_of_type_changes(
    before: TypeView,
    after: TypeView,
    max: int,
    naming: Naming,
)
    requires
        type_assigned(before, after, max, naming),
    ensures
        erased_type(after) == erased_type(before),
    decreases before,
{
    match before {
        TypeView::Struct(fields) => {
            if struct_rules(fields) {
                law_only_mapping_metadata_changes(fields, after->Struct_0, max, naming);
            }
        },
        TypeView::Array { element, .. } => {
            law_only_mapping_metadata_of_type_changes(*element, *after->element, max, naming);
        },
        TypeView::KeyValue { key, value, .. } => {
            law_only_mapping_metadata_of_type_changes(*key, *after->key, max, naming);
            law_only_mapping_metadata_of_type_changes(
                *value,
                *after->value,
                max_after(type_columns(*key), max),
                naming_after(type_columns(*key), naming),
            );
        },
        _ => {},
    }
}

/// Law: a struct whose fields cannot make a struct stays as it is, fields and all.
pub proof fn law_struct_that_breaks_the_rules_stays(
    before: TypeView,
    after: TypeView,
    max: int,
    naming: Naming,
)
    requires
        type_assigned(before, after, max, naming),
        before is Struct,
        !struct_rules(before->Struct_0),
    ensures
        after == before,
{
}

/// Whether a field has been given what it lacked for column mapping, and nothing else: a physical
/// name, which is its logical name or `col-` and the next UUID, and the id after `max`.
pub open spec fn given_what_it_lacked(
    before: FieldView,
    after: FieldView,
    max: int,
    naming: Naming,
) -> bool {
    let name_at = "delta.columnMapping.physicalName"@;
    let id_at = "delta.columnMapping.id"@;
    &&& after.name == before.name
    &&& after.nullable == before.nullable
    &&& after.metadata.contains_key(name_at)
    &&& after.metadata.contains_key(id_at)
    &&& forall|key: Seq<char>| #[trigger]
        before.metadata.contains_key(key) ==> after.metadata.contains_key(key)
            && after.metadata[key] == before.metadata[key]
    &&& forall|key: Seq<char>| #[trigger]
        after.metadata.contains_key(key) ==> before.metadata.contains_key(key) || key == name_at
            || key == id_at
    &&& !before.metadata.contains_key(name_at) ==> after.metadata[name_at] == ValueView::Text(
        match naming {
            Naming::Logical => before.name,
            Naming::Drawn { uuids, used } => "col-"@ + uuids[used],
        },
    )
    &&& !before.metadata.contains_key(id_at) ==> after.metadata[id_at] == ValueView::Number(max + 1)
}

/// A field that has been assigned has been given what it lacked.
proof fn lemma_field_given(before: FieldView, after: FieldView, max: int, naming: Naming)
    requires
        field_assigned(before, after, max, naming),
    ensures
        given_what_it_lacked(before, after, max, naming),
{
    let dom = before.metadata.dom().insert(physical_name_key()).insert(id_key());
    assert(after.metadata.dom() == dom);
    assert(dom.contains(physical_name_key()) && dom.contains(id_key()));
    assert forall|key: Seq<char>| #[trigger] before.metadata.contains_key(key) implies
        after.metadata.contains_key(key) && after.metadata[key] == before.metadata[key] by {
        assert(dom.contains(key));
    }
    assert forall|key: Seq<char>| #[trigger] after.metadata.contains_key(key) implies
        before.metadata.contains_key(key) || key == "delta.columnMapping.physicalName"@ || key
        == "delta.columnMapping.id"@ by {
        assert(dom.contains(key));
    }
}

/// Whether all structs that a path passes through, from a list of fields on, keep the rules for
/// the fields of a struct.
pub open spec fn passes_structs_in_fields(fields: Seq<FieldView>, path: Seq<Step>) -> bool
    decreases path.len(), 0nat,
{
    path.len() > 1 && path[0] is Field && 0 <= path[0]->Field_0 < fields.len()
        ==> passes_structs_in_type(fields[path[0]->Field_0].data_type, path.drop_first())
}

/// Whether all structs that a path passes through, from a type on, keep the rules for the fields
/// of a struct.
pub open spec fn passes_structs_in_type(data_type: TypeView, path: Seq<Step>) -> bool
    decreases path.len(), 1nat,
{
    path.len() > 0 ==> match (data_type, path[0]) {
        (TypeView::Struct(fields), Step::Field(_)) => struct_rules(fields)
            && passes_structs_in_fields(fields, path),
        (TypeView::Array { element, .. }, Step::Element) => passes_structs_in_type(
            *element,
            path.drop_first(),
        ),
        (TypeView::KeyValue { key, .. }, Step::Key) => passes_structs_in_type(
            *key,
            path.drop_first(),
        ),
        (TypeView::KeyValue { value, .. }, Step::Value) => passes_structs_in_type(
            *value,
            path.drop_first(),
        ),
        _ => true,
    }
}

/// The columns of a list of fields that the walk visits before the field that a path leads to.
pub open spec fn visited_in_fields(fields: Seq<FieldView>, path: Seq<Step>) -> Seq<FieldView>
    decreases path.len(), 0nat,
{
    let i = path[0]->Field_0;
    if path.len() <= 1 {
        columns(fields.take(i))
    } else {
        columns(fields.take(i)) + (seq![fields[i]] + visited_in_type(
            fields[i].data_type,
            path.drop_first(),
        ))
    }
}

/// The columns of a type that the walk visits before the field that a path leads to: on the way
/// into the values of a map, those of its keys.
pub open spec fn visited_in_type(data_type: TypeView, path: Seq<Step>) -> Seq<FieldView>
    decreases path.len(), 1nat,
{
    if path.len() == 0 {
        Seq::empty()
    } else {
        match (data_type, path[0]) {
            (TypeView::Struct(fields), Step::Field(_)) => visited_in_fields(fields, path),
            (TypeView::Array { element, .. }, Step::Element) => visited_in_type(
                *element,
                path.drop_first(),
            ),
            (TypeView::KeyValue { key, .. }, Step::Key) => visited_in_type(
                *key,
                path.drop_first(),
            ),
            (TypeView::KeyValue { key, value, .. }, Step::Value) => type_columns(*key)
                + visited_in_type(*value, path.drop_first()),
            _ => Seq::empty(),
        }
    }
}

/// A field is visited before the columns of its type.
proof fn lemma_visited_field(field: FieldView, inner: Seq<FieldView>, max: int, naming: Naming)
    ensures
        max_after(seq![field] + inner, max) == max_after(inner, max_with(field, max)),
        naming_after(seq![field] + inner, naming) == naming_after(
            inner,
            naming_with(field, naming),
        ),
{
    let own = seq![field];
    lemma_max_after_concat(own, inner, max);
    lemma_naming_after_concat(own, inner, naming);
    assert(own.drop_last() =~= Seq::<FieldView>::empty());
    assert(max_after(own.drop_last(), max) == max);
    assert(missing_names(own.drop_last()) == 0);
}

/// Law: after an assignment the same paths lead to fields as before, and every field at every
/// depth has been given what it lacked for column mapping: the id after the greatest so far in the
/// walk, and its logical name or the next of the UUIDs. This holds of every path that does not
/// pass through a struct whose fields cannot make one.
pub proof fn law_every_nested_field_is_given_what_it_lacked(
    before: Seq<FieldView>,
    after: Seq<FieldView>,
    max: int,
    naming: Naming,
    path: Seq<Step>,
)
    requires
        fields_assigned(before, after, max, naming),
        passes_structs_in_fields(before, path),
    ensures
        found_in_fields(after, path) is Some <==> found_in_fields(before, path) is Some,
        found_in_fields(before, path) is Some ==> given_what_it_lacked(
            found_in_fields(before, path)->0,
            found_in_fields(after, path)->0,
            max_after(visited_in_fields(before, path), max),
            naming_after(visited_in_fields(before, path), naming),
        ),
    decreases path.len(), 0nat,
{
    if path.len() > 0 && path[0] is Field && 0 <= path[0]->Field_0 < before.len() {
        let i = path[0]->Field_0;
        let visited = columns(before.take(i));
        let middle = max_after(visited, max);
        let rest = naming_after(visited, naming);
        assert(field_assigned(before[i], after[i], middle, rest));
        if path.len() == 1 {
            lemma_field_given(before[i], after[i], middle, rest);
        } else {
            let down = path.drop_first();
            let inner = visited_in_type(before[i].data_type, down);
            lemma_nested_field_is_given_what_it_lacked(
                before[i].data_type,
                after[i].data_type,
                max_with(before[i], middle),
                naming_with(before[i], rest),
                down,
            );
            lemma_max_after_concat(visited, seq![before[i]] + inner, max);
            lemma_naming_after_concat(visited, seq![before[i]] + inner, naming);
            lemma_visited_field(before[i], inner, middle, rest);
        }
    }
}

/// The same paths lead to fields of a type after an assignment as before, and every field has
/// been given what it lacked.
proof fn lemma_nested_field_is_given_what_it_lacked(
    before: TypeView,
    after: TypeView,
    max: int,
    naming: Naming,
    path: Seq<Step>,
)
    requires
        type_assigned(before, after, max, naming),
        passes_structs_in_type(before, path),
    ensures
        found_in_type(after, path) is Some <==> found_in_type(before, path) is Some,
        found_in_type(before, path) is Some ==> given_what_it_lacked(
            found_in_type(before, path)->0,
            found_in_type(after, path)->0,
            max_after(visited_in_type(before, path), max),
            naming_after(visited_in_type(before, path), naming),
        ),
    decreases path.len(), 1nat,
{
    if path.len() > 0 {
        let down = path.drop_first();
        match (before, path[0]) {
            (TypeView::Struct(fields), Step::Field(_)) => {
                law_every_nested_field_is_given_what_it_lacked(
                    fields,
                    after->Struct_0,
                    max,
                    naming,
                    path,
                );
            },
            (TypeView::Array { element, .. }, Step::Element) => {
                lemma_nested_field_is_given_what_it_lacked(
                    *element,
                    *after->element,
                    max,
                    naming,
                    down,
                );
            },
            (TypeView::KeyValue { key, .. }, Step::Key) => {
                lemma_nested_field_is_given_what_it_lacked(*key, *after->key, max, naming, down);
            },
            (TypeView::KeyValue { key, value, .. }, Step::Value) => {
                let keys = type_columns(*key);
                lemma_nested_field_is_given_what_it_lacked(
                    *value,
                    *after->value,
                    max_after(keys, max),
                    naming_after(keys, naming),
                    down,
                );
                lemma_max_after_concat(keys, visited_in_type(*value, down), max);
                lemma_naming_after_concat(keys, visited_in_type(*value, down), naming);
            },
            _ => {},
        }
    }
}

/// Law: nothing of a schema changes in an assignment if and only if all its columns have a
/// physical name and an id.
pub proof fn law_schema_stays_iff_all_is_mapped(
    fields: Seq<FieldView>,
    max: int,
    naming: Naming,
)
    requires
        well_formed(fields),
    ensures
        fields_assigned(fields, fields, max, naming) <==> all_mapped(columns(fields)),
    decreases fields,
{
    if fields_assigned(fields, fields, max, naming) {
        law_every_column_is_mapped(fields, fields, max, naming);
    }
    if all_mapped(columns(fields)) {
        assert forall|i: int| 0 <= i < fields.len() implies field_assigned(
            #[trigger] fields[i],
            fields[i],
            max_after(columns(fields.take(i)), max),
            naming_after(columns(fields.take(i)), naming),
        ) by {
            let field = fields[i];
            let middle = max_after(columns(fields.take(i)), max);
            let rest = naming_after(columns(fields.take(i)), naming);
            lemma_field_columns_within(fields, i);
            lemma_all_mapped_concat(seq![field], type_columns(field.data_type));
            assert(is_mapped(seq![field][0]));
            lemma_stays_where_mapped(field, middle, rest);
            law_type_stays_iff_all_is_mapped(
                field.data_type,
                max_with(field, middle),
                naming_with(field, rest),
            );
        }
    }
}

/// Law: nothing of a type changes in an assignment if and only if all its columns have a physical
/// name and an id.
pub proof fn law_type_stays_iff_all_is_mapped(data_type: TypeView, max: int, naming: Naming)
    requires
        well_formed_type(data_type),
    ensures
        type_assigned(data_type, data_type, max, naming) <==> all_mapped(type_columns(data_type)),
    decreases data_type,
{
    match data_type {
        TypeView::Struct(fields) => {
            law_schema_stays_iff_all_is_mapped(fields, max, naming);
        },
        TypeView::Array { element, .. } => {
            law_type_stays_iff_all_is_mapped(*element, max, naming);
        },
        TypeView::KeyValue { key, value, .. } => {
            let keys = type_columns(*key);
            let values = type_columns(*value);
            law_type_stays_iff_all_is_mapped(*key, max, naming);
            law_type_stays_iff_all_is_mapped(
                *value,
                max_after(keys, max),
                naming_after(keys, naming),
            );
            if all_mapped(keys + values) {
                lemma_all_mapped_concat(keys, values);
            }
            if all_mapped(keys) && all_mapped(values) {
                assert forall|k: int| 0 <= k < (keys + values).len() implies is_mapped(
                    #[trigger] (keys + values)[k],
                ) by {
                    if k < keys.len() {
                        assert(is_mapped(keys[k]));
                    } else {
                        assert(is_mapped(values[k - keys.len()]));
                    }
                }
            }
        },
        _ => {},
    }
}

/// Law: a generated name is `col-` followed by its UUID, and in each mode names come from where
/// the mode says.
pub proof fn law_names_come_from_where_the_mode_says(uuids: Seq<String>, used: int, i: int)
    requires
        0 <= i < uuids.len(),
    ensures
        generated_name(uuids[i]@) == "col-"@ + uuids[i]@,
        naming_in(PhysicalNameMode::Identity, uuids, used) == Naming::Logical,
        naming_in(PhysicalNameMode::Generated, uuids, used) == (Naming::Drawn {
            uuids: texts(uuids),
            used,
        }),
        texts(uuids).len() == uuids.len(),
        texts(uuids)[i] == uuids[i]@,
{
}

/// Law: each column without a physical name uses up one UUID, and no other column does.
pub proof fn law_each_missing_name_uses_up_one_uuid(
    visited: Seq<FieldView>,
    column: FieldView,
    uuids: Seq<Seq<char>>,
    used: int,
)
    ensures
        naming_after(visited, Naming::Logical) == Naming::Logical,
        naming_after(Seq::<FieldView>::empty(), Naming::Drawn { uuids, used }) == (Naming::Drawn {
            uuids,
            used,
        }),
        naming_after(visited, Naming::Drawn { uuids, used }) is Drawn,
        naming_after(visited, Naming::Drawn { uuids, used })->uuids == uuids,
        naming_after(visited.push(column), Naming::Drawn { uuids, used })->used == naming_after(
            visited,
            Naming::Drawn { uuids, used },
        )->used + if column.metadata.contains_key("delta.columnMapping.physicalName"@) {
            0int
        } else {
            1int
        },
{
    assert(visited.push(column).drop_last() =~= visited);
}

/// Law: a column without an id gets the next one: greater than the greatest id given and than the
/// ids of all columns before it, and the first such number.
pub proof fn law_new_id_is_the_next(
    before: Seq<FieldView>,
    after: Seq<FieldView>,
    max: int,
    naming: Naming,
    k: int,
)
    requires
        well_formed(before),
        fields_assigned(before, after, max, naming),
        0 <= k < columns(before).len(),
        !columns(before)[k].metadata.contains_key("delta.columnMapping.id"@),
    ensures
        columns(after).len() == columns(before).len(),
        id_of(columns(after)[k]) is Some,
        id_of(columns(after)[k])->0 > max,
        forall|j: int|
            0 <= j < k && id_of(#[trigger] columns(after)[j]) is Some ==> id_of(
                columns(after)[j],
            )->0 < id_of(columns(after)[k])->0,
        id_of(columns(after)[k])->0 == max + 1 || exists|j: int|
            0 <= j < k && id_of(#[trigger] columns(after)[j]) == Some(
                id_of(columns(after)[k])->0 - 1,
            ),
{
    let old_columns = columns(before);
    let new_columns = columns(after);
    lemma_fields_columns_assigned(before, after, max, naming);
    let head = old_columns.take(k);
    let head_after = new_columns.take(k);
    let reached = max_after(head, max);
    lemma_id_after(old_columns[k], new_columns[k], reached, naming_after(head, naming));
    lemma_max_after_grows(head, max);
    assert forall|j: int|
        #![trigger head[j]]
        #![trigger head_after[j]]
        0 <= j < head.len() implies column_assigned(
        head[j],
        head_after[j],
        max_after(head.take(j), max),
        naming_after(head.take(j), naming),
    ) by {
        assert(head.take(j) =~= old_columns.take(j));
        assert(head[j] == old_columns[j]);
    }
    assert forall|j: int| 0 <= j < k && id_of(#[trigger] new_columns[j]) is Some implies id_of(
        new_columns[j],
    )->0 < id_of(new_columns[k])->0 by {
        assert(head_after[j] == new_columns[j]);
        lemma_max_after_take(head, j, max);
        lemma_id_after(
            head[j],
            head_after[j],
            max_after(head.take(j), max),
            naming_after(head.take(j), naming),
        );
    }
    lemma_max_after_is_an_id(head, head_after, max, naming);
    if reached != max {
        let j = choose|j: int|
            0 <= j < head_after.len() && id_of(#[trigger] head_after[j]) == Some(reached);
        assert(new_columns[j] == head_after[j]);
    }
}

/// Law: where the UUIDs drawn for an assignment are pairwise distinct, so are the physical names
/// that it gives, at whatever depth the columns are: each is `col-` and a UUID of its own.
pub proof fn law_distinct_draws_give_distinct_names(
    before: Seq<FieldView>,
    after: Seq<FieldView>,
    max: int,
    uuids: Seq<String>,
    k: int,
    j: int,
)
    requires
        well_formed(before),
        fields_assigned(before, after, max, Naming::Drawn { uuids: texts(uuids), used: 0 }),
        missing_names(columns(before)) <= uuids.len(),
        forall|a: int, b: int|
            0 <= a < b < uuids.len() ==> (#[trigger] uuids[a])@ != (#[trigger] uuids[b])@,
        0 <= k < j < columns(before).len(),
        !columns(before)[k].metadata.contains_key("delta.columnMapping.physicalName"@),
        !columns(before)[j].metadata.contains_key("delta.columnMapping.physicalName"@),
    ensures
        columns(after).len() == columns(before).len(),
        physical_name_of(columns(after)[k]) is Some,
        physical_name_of(columns(after)[j]) is Some,
        physical_name_of(columns(after)[k]) != physical_name_of(columns(after)[j]),
        exists|a: int, b: int|
            {
                &&& 0 <= a < b < uuids.len()
                &&& physical_name_of(columns(after)[k]) == Some("col-"@ + (#[trigger] uuids[a])@)
                &&& physical_name_of(columns(after)[j]) == Some("col-"@ + (#[trigger] uuids[b])@)
            },
{
    let drawn = texts(uuids);
    let a = draw_of(columns(before), k);
    let b = draw_of(columns(before), j);
    lemma_generated_name(before, after, max, drawn, k);
    lemma_generated_name(before, after, max, drawn, j);
    lemma_draws_in_order(columns(before), k, j);
    let first = uuids[a]@;
    let second = uuids[b]@;
    assert(drawn[a] == first && drawn[b] == second);
    assert(first != second);
    let prefix = "col-"@.len() as int;
    assert(("col-"@ + first).skip(prefix) =~= first);
    assert(("col-"@ + second).skip(prefix) =~= second);
}

} // verus!
