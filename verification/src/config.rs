//! The table settings that go with column mapping.
use crate::error::{disabling, invalid_mode, message, DeltaTableError, Fault};
use crate::metadata::MetadataValue;
use crate::outside::{config_get, key_str, parse_i64, ColumnMetadataKey};
use crate::schema::{field_view, FieldView, StructType};
use crate::text::i64_in;
use crate::validate::id_of;
use std::collections::HashMap;
use vstd::prelude::*;

verus! {

/// How the columns of a table are found in its data files.
#[derive(Debug, Clone, Copy, PartialEq, Eq, Structural)]
pub enum ColumnMappingMode {
    /// No column mapping: by their logical names.
    NoMapping,
    /// By their ids.
    Id,
    /// By their physical names.
    Name,
}

/// The setting that holds the column mapping mode.
pub open spec fn mode_setting() -> Seq<char> {
    "delta.columnMapping.mode"@
}

/// The setting that holds the greatest column id.
pub open spec fn max_column_id_setting() -> Seq<char> {
    "delta.columnMapping.maxColumnId"@
}

/// The mode that a value of the mode setting stands for.
pub open spec fn mode_of(value: Seq<char>) -> ColumnMappingMode {
    if value == "name"@ {
        ColumnMappingMode::Name
    } else if value == "id"@ {
        ColumnMappingMode::Id
    } else {
        ColumnMappingMode::NoMapping
    }
}

/// The mode that a table's settings stand for.
pub open spec fn mode_in(config: Map<Seq<char>, Seq<char>>) -> ColumnMappingMode {
    if config.contains_key(mode_setting()) {
        mode_of(config[mode_setting()])
    } else {
        ColumnMappingMode::NoMapping
    }
}

/// The greatest column id that a table's settings hold, and zero where they hold none.
pub open spec fn max_column_id_in(config: Map<Seq<char>, Seq<char>>) -> int {
    if config.contains_key(max_column_id_setting()) {
        match i64_in(config[max_column_id_setting()]) {
            Some(id) => id,
            None => 0,
        }
    } else {
        0
    }
}

/// What is wrong with giving the mode setting a value, on a table in the current mode.
pub open spec fn mode_fault(value: Seq<char>, current: ColumnMappingMode) -> Option<Fault> {
    if value == "name"@ || value == "id"@ {
        None
    } else if value == "none"@ {
        if current == ColumnMappingMode::NoMapping {
            None
        } else {
            Some(Fault::Disabling)
        }
    } else {
        Some(Fault::InvalidMode { setting: value })
    }
}

/// Whether `max` is the greatest of the ids of a list of fields, or zero where none of them is
/// greater.
pub open spec fn is_max_column_id(fields: Seq<FieldView>, max: int) -> bool {
    &&& max >= 0
    &&& forall|i: int|
        0 <= i < fields.len() && id_of(#[trigger] fields[i]) is Some ==> id_of(fields[i])->0 <= max
    &&& max == 0 || exists|i: int|
        0 <= i < fields.len() && id_of(#[trigger] fields[i]) == Some(max)
}

/// Whether two texts are the same.
fn same_text(left: &str, right: &str) -> (r: bool)
    ensures
        r == (left@ == right@),
{
    left.to_owned() == right.to_owned()
}

/// Read the column mapping mode from a configuration map.
pub fn column_mapping_mode_from_config(config: &HashMap<String, String>) -> (r: ColumnMappingMode)
    ensures
        r == mode_in(config.deep_view()),
{
    match config_get(config, "delta.columnMapping.mode") {
        Some(value) => if same_text(value.as_str(), "name") {
            ColumnMappingMode::Name
        } else if same_text(value.as_str(), "id") {
            ColumnMappingMode::Id
        } else {
            ColumnMappingMode::NoMapping
        },
        None => ColumnMappingMode::NoMapping,
    }
}

/// Validate the column mapping mode property value.
/// Rejects invalid mode values and blocks disabling column mapping on existing column-mapped
/// tables.
pub fn validate_column_mapping_mode_property(
    mode_value: &str,
    current_mode: ColumnMappingMode,
) -> (r: Result<(), DeltaTableError>)
    ensures
        match r {
            Ok(()) => mode_fault(mode_value@, current_mode) is None,
            Err(error) => {
                &&& mode_fault(mode_value@, current_mode) is Some
                &&& error@ == message(mode_fault(mode_value@, current_mode)->0)
            },
        },
{
    if same_text(mode_value, "name") || same_text(mode_value, "id") {
        Ok(())
    } else if same_text(mode_value, "none") {
        if current_mode != ColumnMappingMode::NoMapping {
            Err(disabling())
        } else {
            Ok(())
        }
    } else {
        Err(invalid_mode(mode_value))
    }
}

/// Get the current maxColumnId from metadata configuration.
pub fn get_max_column_id_from_config(config: &HashMap<String, String>) -> (r: i64)
    ensures
        r == max_column_id_in(config.deep_view()),
{
    match config_get(config, "delta.columnMapping.maxColumnId") {
        Some(value) => match parse_i64(value.as_str()) {
            Some(id) => id,
            None => 0,
        },
        None => 0,
    }
}

/// Get the current maxColumnId from a schema by inspecting field metadata.
/// Only the fields of the schema itself are inspected, not those nested in their types.
pub fn get_max_column_id(schema: &StructType) -> (r: i64)
    ensures
        is_max_column_id(schema@, r as int),
{
    let mut max_id: i64 = 0;
    let mut i: usize = 0;
    while i < schema.fields.len()
        invariant
            i <= schema.fields@.len(),
            is_max_column_id(schema@.take(i as int), max_id as int),
        decreases schema.fields@.len() - i,
    {
        let ghost seen = schema@.take(i as int);
        let ghost more = schema@.take(i + 1);
        let ghost max_before = max_id as int;
        assert(schema@[i as int] == field_view(schema.fields@[i as int]));
        assert(more =~= seen.push(schema@[i as int]));
        if let Some(MetadataValue::Number(id)) = schema.fields[i].metadata.get(
            key_str(ColumnMetadataKey::ColumnMappingId),
        ) {
            if *id > max_id {
                max_id = *id;
            }
        }
        proof {
            if max_id != max_before {
                assert(id_of(more[i as int]) == Some(max_id as int));
            } else if max_id != 0 {
                let at = choose|j: int|
                    0 <= j < seen.len() && id_of(#[trigger] seen[j]) == Some(max_before);
                assert(more[at] == seen[at]);
            }
            assert forall|j: int| 0 <= j < more.len() && id_of(#[trigger] more[j]) is Some implies
                id_of(more[j])->0 <= max_id by {
                if j < i {
                    assert(more[j] == seen[j]);
                }
            }
        }
        i += 1;
    }
    assert(schema@.take(i as int) =~= schema@);
    max_id
}

} // verus!
