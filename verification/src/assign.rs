//! Assigning column mapping metadata to the columns of a schema.
use crate::draws::{draw_uuid, drawn_in_turn, result_at};
use crate::metadata::{MetadataValue, ValueView};
use crate::outside::{key_str, key_text, ColumnMetadataKey};
use crate::rules::{
    all_free_of_metadata_columns, fields_free_of_metadata_columns, free_of_metadata_columns,
    metadata_column, struct_rules,
};
use crate::schema::{
    clone_fields, field_view, fields_view, ArrayType, DataType, FieldView, MapType, StructField,
    StructType, TypeView,
};
use crate::text::is_random_uuid;
use crate::walk::{
    columns, field_columns, id_key, lemma_columns_split, lemma_columns_take,
    lemma_max_after_concat, lemma_max_after_field, lemma_max_after_grows,
    lemma_missing_names_concat, lemma_missing_names_field, max_after, max_with, missing_names,
    physical_name_key, type_columns,
};
use vstd::prelude::*;
use vstd::string::StringExecFns;

verus! {

/// Controls how physical names are generated for fields that lack them.
#[derive(Clone, Copy)]
pub enum PhysicalNameMode {
    /// Generate a UUID-based physical name (for new columns on a column-mapped table).
    Generated,
    /// Use the logical name as the physical name (for activating column mapping on existing
    /// tables, preserving Parquet file readability).
    Identity,
}

/// Where the physical names of columns that lack one come from.
pub enum Naming {
    /// From the logical names.
    Logical,
    /// From UUIDs, of which the first `used` have been used up: the next column without a
    /// physical name takes the next UUID.
    Drawn { uuids: Seq<Seq<char>>, used: int },
}

/// The generated physical name that holds a UUID.
pub open spec fn generated_name(uuid: Seq<char>) -> Seq<char> {
    "col-"@ + uuid
}

/// The physical name that the next column gets if it lacks one, where its logical name is given.
pub open spec fn given_name(naming: Naming, logical: Seq<char>) -> Seq<char> {
    match naming {
        Naming::Logical => logical,
        Naming::Drawn { uuids, used } => generated_name(uuids[used]),
    }
}

/// Where physical names come from once a column has one.
pub open spec fn naming_with(column: FieldView, naming: Naming) -> Naming {
    match naming {
        Naming::Logical => naming,
        Naming::Drawn { uuids, used } => if column.metadata.contains_key(physical_name_key()) {
            naming
        } else {
            Naming::Drawn { uuids, used: used + 1 }
        },
    }
}

/// Where physical names come from once each of a list of columns has one.
pub open spec fn naming_after(columns: Seq<FieldView>, naming: Naming) -> Naming {
    match naming {
        Naming::Logical => naming,
        Naming::Drawn { uuids, used } => Naming::Drawn {
            uuids,
            used: used + missing_names(columns),
        },
    }
}

/// Whether there are UUIDs enough for the columns without a physical name.
pub open spec fn enough_for(columns: Seq<FieldView>, naming: Naming) -> bool {
    match naming {
        Naming::Logical => true,
        Naming::Drawn { uuids, used } => 0 <= used && used + missing_names(columns) <= uuids.len(),
    }
}

/// The texts in a list of strings.
pub open spec fn texts(strings: Seq<String>) -> Seq<Seq<char>> {
    Seq::new(strings.len(), |i: int| strings[i]@)
}

/// Where physical names come from in a mode, with a list of UUIDs of which some are used up.
pub open spec fn naming_in(mode: PhysicalNameMode, uuids: Seq<String>, used: int) -> Naming {
    match mode {
        PhysicalNameMode::Generated => Naming::Drawn { uuids: texts(uuids), used },
        PhysicalNameMode::Identity => Naming::Logical,
    }
}

/// Two lists of columns get their names one after the other.
pub proof fn lemma_naming_after_concat(
    left: Seq<FieldView>,
    right: Seq<FieldView>,
    naming: Naming,
)
    ensures
        naming_after(left + right, naming) == naming_after(right, naming_after(left, naming)),
        enough_for(left + right, naming) ==> enough_for(left, naming) && enough_for(
            right,
            naming_after(left, naming),
        ),
{
    lemma_missing_names_concat(left, right);
}

/// A column gets its name before the columns of its type.
pub proof fn lemma_naming_after_field(field: FieldView, naming: Naming)
    ensures
        naming_after(field_columns(field), naming) == naming_after(
            type_columns(field.data_type),
            naming_with(field, naming),
        ),
        enough_for(field_columns(field), naming) ==> enough_for(
            type_columns(field.data_type),
            naming_with(field, naming),
        ),
{
    lemma_missing_names_field(field);
}

/// Whether `after` is the metadata of a column once it has been assigned: a physical name and an
/// id are there, each is new only if it was missing, and everything else is as it was. `max` is
/// the greatest id in use before, and `naming` says where a physical name comes from.
pub open spec fn metadata_assigned(
    before: FieldView,
    after: Map<Seq<char>, ValueView>,
    max: int,
    naming: Naming,
) -> bool {
    &&& after.dom() == before.metadata.dom().insert(physical_name_key()).insert(id_key())
    &&& forall|key: Seq<char>| #[trigger]
        before.metadata.contains_key(key) ==> after[key] == before.metadata[key]
    &&& !before.metadata.contains_key(physical_name_key()) ==> after[physical_name_key()]
        == ValueView::Text(given_name(naming, before.name))
    &&& !before.metadata.contains_key(id_key()) ==> after[id_key()] == ValueView::Number(max + 1)
}

/// Whether `after` is a field once it and the columns of its type have been assigned.
pub open spec fn field_assigned(
    before: FieldView,
    after: FieldView,
    max: int,
    naming: Naming,
) -> bool
    decreases before,
{
    &&& after.name == before.name
    &&& after.nullable == before.nullable
    &&& metadata_assigned(before, after.metadata, max, naming)
    &&& type_assigned(
        before.data_type,
        after.data_type,
        max_with(before, max),
        naming_with(before, naming),
    )
}

/// Whether `after` is a type once its columns have been assigned. A struct whose fields do not
/// keep [`struct_rules`] stays as it is.
pub open spec fn type_assigned(
    before: TypeView,
    after: TypeView,
    max: int,
    naming: Naming,
) -> bool
    decreases before,
{
    match before {
        TypeView::Struct(fields) => if struct_rules(fields) {
            after is Struct && fields_assigned(fields, after->Struct_0, max, naming)
        } else {
            after == before
        },
        TypeView::Array { element, contains_null } => {
            &&& after is Array
            &&& after->contains_null == contains_null
            &&& type_assigned(*element, *after->element, max, naming)
        },
        TypeView::KeyValue { key, value, value_contains_null } => {
            &&& after is KeyValue
            &&& after->value_contains_null == value_contains_null
            &&& type_assigned(*key, *after->key, max, naming)
            &&& type_assigned(
                *value,
                *after->value,
                max_after(type_columns(*key), max),
                naming_after(type_columns(*key), naming),
            )
        },
        TypeView::Primitive(_) | TypeView::Variant(_) => after == before,
    }
}

/// Whether `after` is a list of fields once they and their columns have been assigned, one field
/// after the other.
pub open spec fn fields_assigned(
    before: Seq<FieldView>,
    after: Seq<FieldView>,
    max: int,
    naming: Naming,
) -> bool
    decreases before,
{
    &&& after.len() == before.len()
    &&& forall|i: int|
        0 <= i < before.len() ==> field_assigned(
            #[trigger] before[i],
            after[i],
            max_after(columns(before.take(i)), max),
            naming_after(columns(before.take(i)), naming),
        )
}

/// The three metadata keys differ.
pub proof fn lemma_keys_differ()
    ensures
        id_key() != physical_name_key(),
        key_text(ColumnMetadataKey::MetadataSpec) != id_key(),
        key_text(ColumnMetadataKey::MetadataSpec) != physical_name_key(),
{
    reveal_strlit("delta.columnMapping.id");
    reveal_strlit("delta.columnMapping.physicalName");
    reveal_strlit("delta.metadataSpec");
    assert(id_key().len() == 22);
    assert(physical_name_key().len() == 32);
    assert(key_text(ColumnMetadataKey::MetadataSpec).len() == 18);
}

/// Assigning a field does not change whether metadata columns are near it.
proof fn lemma_free_assigned(
    before: FieldView,
    after: FieldView,
    max: int,
    naming: Naming,
)
    requires
        field_assigned(before, after, max, naming),
    ensures
        free_of_metadata_columns(after) == free_of_metadata_columns(before),
        metadata_column(after) == metadata_column(before),
        after.data_type is Primitive == before.data_type is Primitive,
        after.data_type is Struct == before.data_type is Struct,
        after.data_type is Variant == before.data_type is Variant,
    decreases before,
{
    lemma_keys_differ();
    let key = key_text(ColumnMetadataKey::MetadataSpec);
    assert(after.metadata.dom().contains(key) == before.metadata.dom().contains(key));
    let inner = max_with(before, max);
    let rest = naming_with(before, naming);
    match before.data_type {
        TypeView::Struct(fields) => {
            if struct_rules(fields) {
                let assigned = after.data_type->Struct_0;
                assert(fields_assigned(fields, assigned, inner, rest));
                assert forall|i: int|
                    #![trigger fields[i]]
                    #![trigger assigned[i]]
                    0 <= i < fields.len() implies {
                    &&& free_of_metadata_columns(assigned[i]) == free_of_metadata_columns(fields[i])
                    &&& assigned[i].data_type is Struct == fields[i].data_type is Struct
                    &&& assigned[i].data_type is Variant == fields[i].data_type is Variant
                } by {
                    lemma_free_assigned(
                        fields[i],
                        assigned[i],
                        max_after(columns(fields.take(i)), inner),
                        naming_after(columns(fields.take(i)), rest),
                    );
                }
            }
        },
        TypeView::Array { element, .. } => {
            lemma_fields_free_assigned(*element, *after.data_type->element, inner, rest);
        },
        TypeView::KeyValue { key, value, .. } => {
            lemma_fields_free_assigned(*key, *after.data_type->key, inner, rest);
            lemma_fields_free_assigned(
                *value,
                *after.data_type->value,
                max_after(type_columns(*key), inner),
                naming_after(type_columns(*key), rest),
            );
        },
        _ => {},
    }
}

/// Assigning the columns of a type does not change whether metadata columns are in its fields.
proof fn lemma_fields_free_assigned(
    before: TypeView,
    after: TypeView,
    max: int,
    naming: Naming,
)
    requires
        type_assigned(before, after, max, naming),
    ensures
        fields_free_of_metadata_columns(after) == fields_free_of_metadata_columns(before),
    decreases before,
{
    if before is Struct && struct_rules(before->Struct_0) {
        let fields = before->Struct_0;
        let assigned = after->Struct_0;
        assert(fields_assigned(fields, assigned, max, naming));
        assert forall|i: int|
            #![trigger fields[i]]
            #![trigger assigned[i]]
            0 <= i < fields.len() implies free_of_metadata_columns(assigned[i])
            == free_of_metadata_columns(fields[i]) by {
            lemma_free_assigned(
                fields[i],
                assigned[i],
                max_after(columns(fields.take(i)), max),
                naming_after(columns(fields.take(i)), naming),
            );
        }
        assert(all_free_of_metadata_columns(assigned) == all_free_of_metadata_columns(fields));
    }
}

/// Assigning a list of fields does not change whether they can make a struct.
pub proof fn lemma_rules_assigned(
    before: Seq<FieldView>,
    after: Seq<FieldView>,
    max: int,
    naming: Naming,
)
    requires
        fields_assigned(before, after, max, naming),
    ensures
        struct_rules(after) == struct_rules(before),
{
    assert forall|i: int| #![trigger before[i]] #![trigger after[i]] 0 <= i < before.len() implies {
        &&& after[i].name == before[i].name
        &&& metadata_column(after[i]) == metadata_column(before[i])
        &&& after[i].data_type is Primitive == before[i].data_type is Primitive
        &&& free_of_metadata_columns(after[i]) == free_of_metadata_columns(before[i])
    } by {
        lemma_free_assigned(
            before[i],
            after[i],
            max_after(columns(before.take(i)), max),
            naming_after(columns(before.take(i)), naming),
        );
    }
}

/// Whether UUIDs are there, one for each column without a physical name, and all are random.
pub open spec fn drawn_for(columns: Seq<FieldView>, uuids: Seq<Seq<char>>) -> bool {
    &&& uuids.len() == missing_names(columns)
    &&& forall|i: int| 0 <= i < uuids.len() ==> is_random_uuid(#[trigger] uuids[i])
}

/// Assign column mapping metadata to fields that don't already have it.
/// Uses UUID-based generated physical names. Suitable for new columns added
/// to a table that already has column mapping enabled.
pub fn assign_column_mapping_metadata(fields: &mut [StructField], max_id: &mut i64)
    requires
        max_after(columns(fields_view(old(fields)@)), *old(max_id) as int) <= i64::MAX,
    ensures
        *final(max_id) == max_after(columns(fields_view(old(fields)@)), *old(max_id) as int),
        exists|uuids: Seq<String>|
            {
                &&& #[trigger] drawn_in_turn(uuids)
                &&& drawn_for(columns(fields_view(old(fields)@)), texts(uuids))
                &&& fields_assigned(
                    fields_view(old(fields)@),
                    fields_view(final(fields)@),
                    *old(max_id) as int,
                    Naming::Drawn { uuids: texts(uuids), used: 0 },
                )
            },
{
    let mut uuids: Vec<String> = Vec::new();
    draw_uuids(fields, &mut uuids);
    assert(drawn_in_turn(uuids@));
    assert(drawn_for(columns(fields_view(fields@)), texts(uuids@)));
    assign_column_mapping_metadata_with_uuids(fields, max_id, uuids.as_slice());
}

/// Assign column mapping metadata with generated physical names that hold the given UUIDs, in the
/// order of the walk: the first column without a physical name gets the first UUID, and so on.
pub fn assign_column_mapping_metadata_with_uuids(
    fields: &mut [StructField],
    max_id: &mut i64,
    uuids: &[String],
)
    requires
        max_after(columns(fields_view(old(fields)@)), *old(max_id) as int) <= i64::MAX,
        missing_names(columns(fields_view(old(fields)@))) <= uuids@.len(),
    ensures
        *final(max_id) == max_after(columns(fields_view(old(fields)@)), *old(max_id) as int),
        fields_assigned(
            fields_view(old(fields)@),
            fields_view(final(fields)@),
            *old(max_id) as int,
            Naming::Drawn { uuids: texts(uuids@), used: 0 },
        ),
{
    let mut used: usize = 0;
    assign_column_mapping_metadata_with_mode(
        fields,
        max_id,
        PhysicalNameMode::Generated,
        uuids,
        &mut used,
    );
}

/// Assign column mapping metadata using identity mapping (physical name = logical name).
/// Suitable for activating column mapping on an existing table where Parquet files
/// already use the logical column names.
pub fn assign_identity_column_mapping_metadata(fields: &mut [StructField], max_id: &mut i64)
    requires
        max_after(columns(fields_view(old(fields)@)), *old(max_id) as int) <= i64::MAX,
    ensures
        *final(max_id) == max_after(columns(fields_view(old(fields)@)), *old(max_id) as int),
        fields_assigned(
            fields_view(old(fields)@),
            fields_view(final(fields)@),
            *old(max_id) as int,
            Naming::Logical,
        ),
{
    let uuids: Vec<String> = Vec::new();
    let mut used: usize = 0;
    assign_column_mapping_metadata_with_mode(
        fields,
        max_id,
        PhysicalNameMode::Identity,
        uuids.as_slice(),
        &mut used,
    );
}

/// Draws a UUID for each column of a list of fields that lacks a physical name. The draw for a
/// UUID is the one for its place in the list of UUIDs.
fn draw_uuids(fields: &[StructField], uuids: &mut Vec<String>)
    ensures
        final(uuids)@.len() == old(uuids)@.len() + missing_names(columns(fields_view(fields@))),
        forall|i: int| 0 <= i < old(uuids)@.len() ==> #[trigger] final(uuids)@[i] == old(uuids)@[i],
        forall|i: int|
            old(uuids)@.len() <= i < final(uuids)@.len() ==> is_random_uuid(
                (#[trigger] final(uuids)@[i])@,
            ),
        forall|i: usize|
            old(uuids)@.len() <= i < final(uuids)@.len() ==> call_ensures(
                draw_uuid,
                (i,),
                #[trigger] final(uuids)@[i as int],
            ),
    decreases fields_view(fields@),
{
    let ghost views = fields_view(fields@);
    let ghost before = uuids@;
    let mut i: usize = 0;
    while i < fields.len()
        invariant
            i <= fields@.len(),
            views == fields_view(fields@),
            before == old(uuids)@,
            uuids@.len() == before.len() + missing_names(columns(views.take(i as int))),
            forall|j: int| 0 <= j < before.len() ==> #[trigger] uuids@[j] == before[j],
            forall|j: int|
                before.len() <= j < uuids@.len() ==> is_random_uuid((#[trigger] uuids@[j])@),
            forall|j: usize|
                before.len() <= j < uuids@.len() ==> call_ensures(
                    draw_uuid,
                    (j,),
                    #[trigger] uuids@[j as int],
                ),
        decreases fields@.len() - i,
    {
        let field = &fields[i];
        proof {
            assert(views[i as int] == field@);
            lemma_columns_take(views, i as int);
            lemma_missing_names_concat(columns(views.take(i as int)), field_columns(field@));
            lemma_missing_names_field(field@);
        }
        if !field.metadata.contains_key(key_str(ColumnMetadataKey::ColumnMappingPhysicalName)) {
            let uuid = result_at(draw_uuid, uuids.len());
            uuids.push(uuid);
        }
        draw_type_uuids(&field.data_type, uuids);
        i += 1;
    }
    assert(views.take(i as int) =~= views);
}

/// Draws a UUID for each column of a type that lacks a physical name. The draw for a UUID is the
/// one for its place in the list of UUIDs.
fn draw_type_uuids(data_type: &DataType, uuids: &mut Vec<String>)
    ensures
        final(uuids)@.len() == old(uuids)@.len() + missing_names(type_columns(data_type@)),
        forall|i: int| 0 <= i < old(uuids)@.len() ==> #[trigger] final(uuids)@[i] == old(uuids)@[i],
        forall|i: int|
            old(uuids)@.len() <= i < final(uuids)@.len() ==> is_random_uuid(
                (#[trigger] final(uuids)@[i])@,
            ),
        forall|i: usize|
            old(uuids)@.len() <= i < final(uuids)@.len() ==> call_ensures(
                draw_uuid,
                (i,),
                #[trigger] final(uuids)@[i as int],
            ),
    decreases data_type@,
{
    match data_type {
        DataType::Struct(inner) => {
            assert(data_type@->Struct_0 == fields_view(inner.fields@));
            draw_uuids(inner.fields.as_slice(), uuids);
        },
        DataType::Array(inner) => {
            assert(*data_type@->element == inner.element_type@);
            draw_type_uuids(&inner.element_type, uuids);
        },
        DataType::KeyValue(inner) => {
            proof {
                assert(*data_type@->key == inner.key_type@);
                assert(*data_type@->value == inner.value_type@);
                lemma_missing_names_concat(
                    type_columns(inner.key_type@),
                    type_columns(inner.value_type@),
                );
            }
            draw_type_uuids(&inner.key_type, uuids);
            draw_type_uuids(&inner.value_type, uuids);
        },
        DataType::Primitive(_) | DataType::Variant(_) => {},
    }
}

/// Where a walk over a list of fields stands once one more field has been visited.
proof fn lemma_next_field(fields: Seq<FieldView>, i: int, max: int, naming: Naming)
    requires
        0 <= i < fields.len(),
    ensures
        max_after(columns(fields.take(i + 1)), max) == max_after(
            field_columns(fields[i]),
            max_after(columns(fields.take(i)), max),
        ),
        max_after(columns(fields.take(i + 1)), max) <= max_after(columns(fields), max),
        naming_after(columns(fields.take(i + 1)), naming) == naming_after(
            field_columns(fields[i]),
            naming_after(columns(fields.take(i)), naming),
        ),
        enough_for(columns(fields), naming) ==> enough_for(
            field_columns(fields[i]),
            naming_after(columns(fields.take(i)), naming),
        ),
{
    let earlier = columns(fields.take(i));
    let visited = columns(fields.take(i + 1));
    let later = columns(fields.skip(i + 1));
    lemma_columns_take(fields, i);
    lemma_columns_split(fields, i + 1);
    lemma_max_after_concat(earlier, field_columns(fields[i]), max);
    lemma_max_after_concat(visited, later, max);
    lemma_max_after_grows(later, max_after(visited, max));
    lemma_naming_after_concat(visited, later, naming);
    lemma_naming_after_concat(earlier, field_columns(fields[i]), naming);
}

/// Whether the first fields of a list have been assigned, and stand as they should.
#[verifier::opaque]
spec fn assigned_up_to(
    before: Seq<FieldView>,
    after: Seq<FieldView>,
    i: int,
    max: int,
    naming: Naming,
) -> bool {
    forall|j: int|
        0 <= j < i ==> field_assigned(
            #[trigger] before[j],
            after[j],
            max_after(columns(before.take(j)), max),
            naming_after(columns(before.take(j)), naming),
        )
}

/// At the start of a walk no field has been assigned, and at its end all have been.
proof fn lemma_assigned_ends(
    before: Seq<FieldView>,
    after: Seq<FieldView>,
    max: int,
    naming: Naming,
)
    requires
        after.len() == before.len(),
    ensures
        assigned_up_to(before, after, 0, max, naming),
        assigned_up_to(before, after, before.len() as int, max, naming) == fields_assigned(
            before,
            after,
            max,
            naming,
        ),
{
    reveal(assigned_up_to);
}

/// One more field has been assigned where the field stands as it should.
proof fn lemma_assigned_next(
    before: Seq<FieldView>,
    after: Seq<FieldView>,
    i: int,
    field: FieldView,
    max: int,
    naming: Naming,
)
    requires
        0 <= i < before.len(),
        after.len() == before.len(),
    ensures
        assigned_up_to(before, after.update(i, field), i + 1, max, naming) <==> {
            &&& assigned_up_to(before, after, i, max, naming)
            &&& field_assigned(
                before[i],
                field,
                max_after(columns(before.take(i)), max),
                naming_after(columns(before.take(i)), naming),
            )
        },
{
    reveal(assigned_up_to);
    let updated = after.update(i, field);
    if assigned_up_to(before, updated, i + 1, max, naming) {
        assert forall|j: int| 0 <= j < i implies field_assigned(
            #[trigger] before[j],
            after[j],
            max_after(columns(before.take(j)), max),
            naming_after(columns(before.take(j)), naming),
        ) by {
            assert(updated[j] == after[j]);
        }
        assert(updated[i] == field);
    }
}

/// Assigns each of a list of fields in turn, and tells whether that changed any of them. Generated
/// names take the UUIDs from the first that is not used up yet.
pub fn assign_column_mapping_metadata_with_mode(
    fields: &mut [StructField],
    max_id: &mut i64,
    mode: PhysicalNameMode,
    uuids: &[String],
    used: &mut usize,
) -> (changed: bool)
    requires
        max_after(columns(fields_view(old(fields)@)), *old(max_id) as int) <= i64::MAX,
        enough_for(
            columns(fields_view(old(fields)@)),
            naming_in(mode, uuids@, *old(used) as int),
        ),
    ensures
        *final(max_id) == max_after(columns(fields_view(old(fields)@)), *old(max_id) as int),
        naming_in(mode, uuids@, *final(used) as int) == naming_after(
            columns(fields_view(old(fields)@)),
            naming_in(mode, uuids@, *old(used) as int),
        ),
        mode is Identity ==> *final(used) == *old(used),
        fields_assigned(
            fields_view(old(fields)@),
            fields_view(final(fields)@),
            *old(max_id) as int,
            naming_in(mode, uuids@, *old(used) as int),
        ),
        changed <==> !fields_assigned(
            fields_view(old(fields)@),
            fields_view(old(fields)@),
            *old(max_id) as int,
            naming_in(mode, uuids@, *old(used) as int),
        ),
    decreases fields_view(old(fields)@),
{
    let ghost before = fields_view(fields@);
    let ghost start = *max_id as int;
    let ghost naming = naming_in(mode, uuids@, *used as int);
    let mut changed = false;
    let mut i: usize = 0;
    proof {
        lemma_assigned_ends(before, before, start, naming);
        assert(before.take(0) =~= Seq::<FieldView>::empty());
    }
    while i < fields.len()
        invariant
            i <= fields@.len(),
            fields@.len() == before.len(),
            before == fields_view(old(fields)@),
            max_after(columns(before), start) <= i64::MAX,
            enough_for(columns(before), naming),
            *max_id == max_after(columns(before.take(i as int)), start),
            naming_in(mode, uuids@, *used as int) == naming_after(
                columns(before.take(i as int)),
                naming,
            ),
            mode is Identity ==> *used == *old(used),
            assigned_up_to(before, fields_view(fields@), i as int, start, naming),
            changed <==> !assigned_up_to(before, before, i as int, start, naming),
            forall|j: int| i <= j < before.len() ==> fields_view(fields@)[j] == #[trigger] before[j],
        decreases fields@.len() - i,
    {
        let ghost at = i as int;
        let ghost after = fields_view(fields@);
        let ghost given = fields@;
        proof {
            assert(after[at] == before[at]);
            lemma_next_field(before, at, start, naming);
        }
        let field_changed = assign_field_mapping_metadata(
            &mut fields[i],
            max_id,
            mode,
            uuids,
            used,
        );
        changed = changed || field_changed;
        proof {
            assert(fields@ =~= given.update(at, fields@[at]));
            assert(fields_view(fields@) =~= after.update(at, field_view(fields@[at])));
            lemma_assigned_next(before, after, at, field_view(fields@[at]), start, naming);
            assert(before.update(at, before[at]) =~= before);
            lemma_assigned_next(before, before, at, before[at], start, naming);
        }
        i += 1;
    }
    proof {
        lemma_assigned_ends(before, fields_view(fields@), start, naming);
        lemma_assigned_ends(before, before, start, naming);
        assert(before.take(i as int) =~= before);
    }
    changed
}

/// The generated physical name that holds the given UUID.
pub fn generated_physical_name(uuid: &str) -> (r: String)
    ensures
        r@ == generated_name(uuid@),
{
    let mut name = "col-".to_owned();
    name.append(uuid);
    name
}

/// Records a physical name in the metadata of a field.
pub fn set_physical_name(field: &mut StructField, physical_name: String)
    ensures
        final(field)@ == (FieldView {
            metadata: old(field)@.metadata.insert(
                physical_name_key(),
                ValueView::Text(physical_name@),
            ),
            ..old(field)@
        }),
{
    field.metadata.insert(
        key_str(ColumnMetadataKey::ColumnMappingPhysicalName),
        MetadataValue::String(physical_name),
    );
}

/// Assigns a field, and the columns of its type, and tells whether that changed anything.
pub fn assign_field_mapping_metadata(
    field: &mut StructField,
    max_id: &mut i64,
    mode: PhysicalNameMode,
    uuids: &[String],
    used: &mut usize,
) -> (changed: bool)
    requires
        max_after(field_columns(old(field)@), *old(max_id) as int) <= i64::MAX,
        enough_for(field_columns(old(field)@), naming_in(mode, uuids@, *old(used) as int)),
    ensures
        *final(max_id) == max_after(field_columns(old(field)@), *old(max_id) as int),
        naming_in(mode, uuids@, *final(used) as int) == naming_after(
            field_columns(old(field)@),
            naming_in(mode, uuids@, *old(used) as int),
        ),
        mode is Identity ==> *final(used) == *old(used),
        field_assigned(
            old(field)@,
            final(field)@,
            *old(max_id) as int,
            naming_in(mode, uuids@, *old(used) as int),
        ),
        changed <==> !field_assigned(
            old(field)@,
            old(field)@,
            *old(max_id) as int,
            naming_in(mode, uuids@, *old(used) as int),
        ),
    decreases old(field)@,
{
    let ghost before = field@;
    let ghost max = *max_id as int;
    let ghost naming = naming_in(mode, uuids@, *used as int);
    proof {
        lemma_keys_differ();
        lemma_max_after_field(before, max);
        lemma_max_after_grows(type_columns(before.data_type), max_with(before, max));
        lemma_naming_after_field(before, naming);
        lemma_missing_names_field(before);
        lemma_stays_where_mapped(before, max, naming);
    }
    let id_key_text = key_str(ColumnMetadataKey::ColumnMappingId);
    let mut changed = false;

    if !field.metadata.contains_key(key_str(ColumnMetadataKey::ColumnMappingPhysicalName)) {
        let physical_name = match mode {
            PhysicalNameMode::Generated => {
                let name = generated_physical_name(uuids[*used].as_str());
                *used = *used + 1;
                name
            },
            PhysicalNameMode::Identity => field.name.clone(),
        };
        set_physical_name(field, physical_name);
        changed = true;
    }
    if !field.metadata.contains_key(id_key_text) {
        *max_id = *max_id + 1;
        field.metadata.insert(id_key_text, MetadataValue::Number(*max_id));
        changed = true;
    } else if let Some(MetadataValue::Number(existing_id)) = field.metadata.get(id_key_text) {
        if *existing_id > *max_id {
            *max_id = *existing_id;
        }
    }
    assert(*max_id == max_with(before, max));
    assert(naming_in(mode, uuids@, *used as int) == naming_with(before, naming));
    assert(field.metadata@.dom() =~= before.metadata.dom().insert(physical_name_key()).insert(
        id_key(),
    ));
    assert(metadata_assigned(before, field.metadata@, max, naming));

    // Recurse into the data type to annotate any nested struct fields at any depth.
    if let Some(new_type) = annotate_data_type(&field.data_type, max_id, mode, uuids, used) {
        field.data_type = new_type;
        changed = true;
    }
    changed
}

/// The metadata of a column stays as it is if and only if it has a physical name and an id.
pub proof fn lemma_stays_where_mapped(column: FieldView, max: int, naming: Naming)
    ensures
        metadata_assigned(column, column.metadata, max, naming) <==> column.metadata.contains_key(
            physical_name_key(),
        ) && column.metadata.contains_key(id_key()),
{
    let assigned = column.metadata.dom().insert(physical_name_key()).insert(id_key());
    assert(assigned.contains(physical_name_key()));
    assert(assigned.contains(id_key()));
    if column.metadata.contains_key(physical_name_key()) && column.metadata.contains_key(id_key()) {
        assert(assigned =~= column.metadata.dom());
    }
}

/// Recursively walks a data type and annotates any reachable struct fields with column mapping
/// metadata. Returns `Some(new_type)` if any changes were made, `None` otherwise.
pub fn annotate_data_type(
    data_type: &DataType,
    max_id: &mut i64,
    mode: PhysicalNameMode,
    uuids: &[String],
    used: &mut usize,
) -> (r: Option<DataType>)
    requires
        max_after(type_columns(data_type@), *old(max_id) as int) <= i64::MAX,
        enough_for(type_columns(data_type@), naming_in(mode, uuids@, *old(used) as int)),
    ensures
        *final(max_id) == max_after(type_columns(data_type@), *old(max_id) as int),
        naming_in(mode, uuids@, *final(used) as int) == naming_after(
            type_columns(data_type@),
            naming_in(mode, uuids@, *old(used) as int),
        ),
        mode is Identity ==> *final(used) == *old(used),
        r is None <==> type_assigned(
            data_type@,
            data_type@,
            *old(max_id) as int,
            naming_in(mode, uuids@, *old(used) as int),
        ),
        r is Some ==> type_assigned(
            data_type@,
            r->0@,
            *old(max_id) as int,
            naming_in(mode, uuids@, *old(used) as int),
        ),
    decreases data_type@,
{
    let ghost max = *max_id as int;
    let ghost naming = naming_in(mode, uuids@, *used as int);
    match data_type {
        DataType::Struct(inner) => {
            let mut nested_fields = clone_fields(&inner.fields);
            let ghost nested = fields_view(nested_fields@);
            let changed = assign_column_mapping_metadata_with_mode(
                nested_fields.as_mut_slice(),
                max_id,
                mode,
                uuids,
                used,
            );
            proof {
                lemma_rules_assigned(nested, fields_view(nested_fields@), max, naming);
            }
            if !changed {
                return None;
            }
            match StructType::try_new(nested_fields) {
                Some(new_inner) => Some(DataType::Struct(Box::new(new_inner))),
                None => None,
            }
        },
        DataType::Array(inner) => {
            match annotate_data_type(&inner.element_type, max_id, mode, uuids, used) {
                Some(new_element) => Some(
                    DataType::Array(
                        Box::new(
                            ArrayType {
                                element_type: new_element,
                                contains_null: inner.contains_null,
                            },
                        ),
                    ),
                ),
                None => None,
            }
        },
        DataType::KeyValue(inner) => {
            proof {
                let key_columns = type_columns(inner.key_type@);
                let value_columns = type_columns(inner.value_type@);
                lemma_max_after_concat(key_columns, value_columns, max);
                lemma_max_after_grows(value_columns, max_after(key_columns, max));
                lemma_naming_after_concat(key_columns, value_columns, naming);
            }
            let new_key = annotate_data_type(&inner.key_type, max_id, mode, uuids, used);
            let new_value = annotate_data_type(&inner.value_type, max_id, mode, uuids, used);
            if new_key.is_some() || new_value.is_some() {
                let key_type = match new_key {
                    Some(annotated) => annotated,
                    None => inner.key_type.clone(),
                };
                let value_type = match new_value {
                    Some(annotated) => annotated,
                    None => inner.value_type.clone(),
                };
                Some(
                    DataType::KeyValue(
                        Box::new(
                            MapType {
                                key_type,
                                value_type,
                                value_contains_null: inner.value_contains_null,
                            },
                        ),
                    ),
                )
            } else {
                None
            }
        },
        _ => None,
    }
}

} // verus!
