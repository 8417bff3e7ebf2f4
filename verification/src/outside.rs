//! The calls into other crates and into parts of the standard library, each with the contract
//! that the rest of the crate relies on and that is not proved here.
use crate::text::{decimal, i64_in, is_random_uuid};
use std::collections::HashMap;
use vstd::prelude::*;

verus! {

/// The metadata keys that matter for column mapping.
#[derive(Clone, Copy)]
pub enum ColumnMetadataKey {
    ColumnMappingId,
    ColumnMappingPhysicalName,
    MetadataSpec,
}

/// The text of a metadata key.
pub open spec fn key_text(key: ColumnMetadataKey) -> Seq<char> {
    match key {
        ColumnMetadataKey::ColumnMappingId => "delta.columnMapping.id"@,
        ColumnMetadataKey::ColumnMappingPhysicalName => "delta.columnMapping.physicalName"@,
        ColumnMetadataKey::MetadataSpec => "delta.metadataSpec"@,
    }
}

/// Calls `delta_kernel::schema::ColumnMetadataKey::as_ref`. The contract claims that the key of
/// the same name has the text given by [`key_text`].
#[verifier::external_body]
pub(crate) fn key_str(key: ColumnMetadataKey) -> (r: &'static str)
    ensures
        r@ == key_text(key),
{
    match key {
        ColumnMetadataKey::ColumnMappingId =>
            delta_kernel::schema::ColumnMetadataKey::ColumnMappingId.as_ref(),
        ColumnMetadataKey::ColumnMappingPhysicalName =>
            delta_kernel::schema::ColumnMetadataKey::ColumnMappingPhysicalName.as_ref(),
        ColumnMetadataKey::MetadataSpec =>
            delta_kernel::schema::ColumnMetadataKey::MetadataSpec.as_ref(),
    }
}

/// Whether a text names a kind of metadata column.
pub open spec fn is_metadata_column_name(text: Seq<char>) -> bool {
    ||| text == "row_index"@
    ||| text == "row_id"@
    ||| text == "row_commit_version"@
    ||| text == "_file"@
}

/// Whether no two of a list of columns have the same name, and no two are marked as the same
/// kind of metadata column. Each column is given by its name and its mark, if it has one.
pub open spec fn flat_struct_rules(columns: Seq<(String, Option<String>)>) -> bool {
    &&& forall|i: int, j: int|
        0 <= i < j < columns.len() ==> (#[trigger] columns[i]).0@ != (#[trigger] columns[j]).0@
    &&& forall|i: int, j: int|
        0 <= i < j < columns.len() && (#[trigger] columns[i]).1 is Some && (
        #[trigger] columns[j]).1 is Some && is_metadata_column_name(columns[i].1->0@)
            ==> columns[i].1->0@ != columns[j].1->0@
}

/// Calls `delta_kernel::schema::StructType::try_new` on fields of a primitive type that have the
/// given names and, under the key for it, the given marks of metadata columns. The contract claims
/// that they are accepted exactly where they keep [`flat_struct_rules`].
#[verifier::external_body]
pub(crate) fn flat_struct_accepted(columns: &Vec<(String, Option<String>)>) -> (r: bool)
    ensures
        r == flat_struct_rules(columns@),
{
    delta_kernel::schema::StructType::try_new(columns.iter().map(|column| {
        let mark = column.1.clone().map(|text| {
            (delta_kernel::schema::ColumnMetadataKey::MetadataSpec.as_ref(), text)
        });
        delta_kernel::schema::StructField::nullable(
            column.0.clone(),
            delta_kernel::schema::DataType::STRING,
        ).with_metadata(mark)
    })).is_ok()
}

/// The name of the table feature that stands for column mapping.
pub open spec fn column_mapping_feature_text() -> Seq<char> {
    "columnMapping"@
}

/// Calls `delta_kernel::table_features::TableFeature::as_ref` on the column mapping feature. The
/// contract claims that the feature's name is that of [`column_mapping_feature_text`].
#[verifier::external_body]
pub(crate) fn column_mapping_feature() -> (r: String)
    ensures
        r@ == column_mapping_feature_text(),
{
    delta_kernel::table_features::TableFeature::ColumnMapping.as_ref().to_string()
}

/// Calls `uuid::Uuid::new_v4` and writes the result in its display form. The contract claims the
/// form of the text: 36 characters, hexadecimal digits in groups parted by hyphens, with the
/// digits that mark a random UUID. The other digits are drawn by chance, and nothing is claimed
/// of them. The call panics where the operating system has no random numbers to give.
#[verifier::external_body]
pub(crate) fn random_uuid() -> (r: String)
    ensures
        is_random_uuid(r@),
{
    uuid::Uuid::new_v4().to_string()
}

/// The debug form of a text: in quotes, with escapes.
pub uninterp spec fn text_debug(text: Seq<char>) -> Seq<char>;

/// Calls the `std::fmt::Debug` implementation of `str`. The contract claims no more than that the
/// outcome is a function of the text.
#[verifier::external_body]
pub(crate) fn text_debug_text(text: &str) -> (r: String)
    ensures
        r@ == text_debug(text@),
{
    format!("{:?}", text)
}

/// Calls `ToString::to_string` on an `i64`. The contract claims that the result is the number in
/// decimal, with a minus sign before it where it is negative.
#[verifier::external_body]
pub(crate) fn i64_text(n: i64) -> (r: String)
    ensures
        r@ == decimal(n as int),
{
    n.to_string()
}

/// Calls `str::parse` for an `i64`. The contract claims that it accepts an optional sign followed
/// by digits only, one at least, where the number fits, and gives that number.
#[verifier::external_body]
pub(crate) fn parse_i64(text: &str) -> (r: Option<i64>)
    ensures
        match r {
            Some(n) => i64_in(text@) == Some(n as int),
            None => i64_in(text@) == None::<int>,
        },
{
    text.parse::<i64>().ok()
}

/// Calls `HashMap::get` on a map with `String` keys. The contract claims that it gives the value
/// of the key with the same text, and none where there is no such key.
#[verifier::external_body]
pub(crate) fn config_get<'a>(config: &'a HashMap<String, String>, key: &str) -> (r: Option<
    &'a String,
>)
    ensures
        match r {
            Some(value) => config.deep_view().contains_key(key@) && value@
                == config.deep_view()[key@],
            None => !config.deep_view().contains_key(key@),
        },
{
    config.get(key)
}

} // verus!
