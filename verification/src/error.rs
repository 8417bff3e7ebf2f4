//! Errors and their messages.
use crate::metadata::{MetadataValue, ValueView};
use crate::outside::{i64_text, text_debug, text_debug_text};
use crate::text::decimal;
use vstd::prelude::*;
use vstd::string::StringExecFns;

verus! {

/// What a table operation fails with.
#[derive(Debug, PartialEq, Eq)]
pub enum DeltaTableError {
    /// A failure with a message.
    Generic(String),
}

impl View for DeltaTableError {
    type V = Seq<char>;

    /// The message.
    open spec fn view(&self) -> Seq<char> {
        match self {
            DeltaTableError::Generic(message) => message@,
        }
    }
}

impl DeltaTableError {
    /// The message.
    pub fn to_string(&self) -> (r: String)
        ensures
            r@ == self@,
    {
        match self {
            DeltaTableError::Generic(message) => message.clone(),
        }
    }
}

/// What can be wrong with column mapping metadata and settings.
pub enum Fault {
    MaxColumnIdNotPositive { max: int },
    DuplicatePhysicalName { name: Seq<char> },
    PhysicalNameNotString { field: Seq<char>, value: ValueView },
    IdNotPositive { field: Seq<char>, id: int },
    DuplicateId { id: int },
    IdExceedsMax { field: Seq<char>, id: int, max: int },
    IdNotNumber { field: Seq<char>, value: ValueView },
    Disabling,
    InvalidMode { setting: Seq<char> },
}

/// How a metadata value is shown in a message.
pub open spec fn shown(value: ValueView) -> Seq<char> {
    match value {
        ValueView::Number(n) => "Number("@ + decimal(n) + ")"@,
        ValueView::Text(text) => "String("@ + text_debug(text) + ")"@,
        ValueView::Boolean(true) => "Boolean(true)"@,
        ValueView::Boolean(false) => "Boolean(false)"@,
        ValueView::Other(text) => "Other("@ + text + ")"@,
    }
}

/// The message of a fault.
pub open spec fn message(fault: Fault) -> Seq<char> {
    match fault {
        Fault::MaxColumnIdNotPositive { max } =>
            "delta.columnMapping.maxColumnId must be positive, got: "@ + decimal(max),
        Fault::DuplicatePhysicalName { name } => "Duplicate column mapping physicalName '"@ + name
            + "' found in schema."@,
        Fault::PhysicalNameNotString { field, value } =>
            "Column mapping physicalName for field '"@ + field + "' must be a string, got: "@
            + shown(value),
        Fault::IdNotPositive { field, id } => "Column mapping id for field '"@ + field
            + "' must be positive, got: "@ + decimal(id),
        Fault::DuplicateId { id } => "Duplicate column mapping id "@ + decimal(id)
            + " found in schema."@,
        Fault::IdExceedsMax { field, id, max } => "Column mapping id "@ + decimal(id)
            + " for field '"@ + field + "' exceeds maxColumnId ("@ + decimal(max) + ")."@,
        Fault::IdNotNumber { field, value } => "Column mapping id for field '"@ + field
            + "' must be a number, got: "@ + shown(value),
        Fault::Disabling =>
            "Disabling column mapping on a column-mapped table is not supported. Column mapping cannot be deactivated once enabled."@,
        Fault::InvalidMode { setting } => "Invalid column mapping mode '"@ + setting
            + "'. Supported values are 'name' and 'id'."@,
    }
}

/// Shows a metadata value.
fn show(value: &MetadataValue) -> (r: String)
    ensures
        r@ == shown(value@),
{
    match value {
        MetadataValue::Number(n) => "Number(".to_owned().concat(i64_text(*n).as_str()).concat(")"),
        MetadataValue::String(text) => "String(".to_owned().concat(
            text_debug_text(text.as_str()).as_str(),
        ).concat(")"),
        MetadataValue::Boolean(b) => if *b {
            "Boolean(true)".to_owned()
        } else {
            "Boolean(false)".to_owned()
        },
        MetadataValue::Other(text) => "Other(".to_owned().concat(text.as_str()).concat(")"),
    }
}

/// The error for a greatest id that is not positive.
pub(crate) fn max_column_id_not_positive(max: i64) -> (r: DeltaTableError)
    ensures
        r@ == message(Fault::MaxColumnIdNotPositive { max: max as int }),
{
    DeltaTableError::Generic(
        "delta.columnMapping.maxColumnId must be positive, got: ".to_owned().concat(
            i64_text(max).as_str(),
        ),
    )
}

/// The error for a physical name that two columns have.
pub(crate) fn duplicate_physical_name(name: &String) -> (r: DeltaTableError)
    ensures
        r@ == message(Fault::DuplicatePhysicalName { name: name@ }),
{
    DeltaTableError::Generic(
        "Duplicate column mapping physicalName '".to_owned().concat(name.as_str()).concat(
            "' found in schema.",
        ),
    )
}

/// The error for a physical name that is not a string.
pub(crate) fn physical_name_not_string(field: &String, value: &MetadataValue) -> (r:
    DeltaTableError)
    ensures
        r@ == message(Fault::PhysicalNameNotString { field: field@, value: value@ }),
{
    DeltaTableError::Generic(
        "Column mapping physicalName for field '".to_owned().concat(field.as_str()).concat(
            "' must be a string, got: ",
        ).concat(show(value).as_str()),
    )
}

/// The error for an id that is not positive.
pub(crate) fn id_not_positive(field: &String, id: i64) -> (r: DeltaTableError)
    ensures
        r@ == message(Fault::IdNotPositive { field: field@, id: id as int }),
{
    DeltaTableError::Generic(
        "Column mapping id for field '".to_owned().concat(field.as_str()).concat(
            "' must be positive, got: ",
        ).concat(i64_text(id).as_str()),
    )
}

/// The error for an id that two columns have.
pub(crate) fn duplicate_id(id: i64) -> (r: DeltaTableError)
    ensures
        r@ == message(Fault::DuplicateId { id: id as int }),
{
    DeltaTableError::Generic(
        "Duplicate column mapping id ".to_owned().concat(i64_text(id).as_str()).concat(
            " found in schema.",
        ),
    )
}

/// The error for an id that is greater than the greatest id.
pub(crate) fn id_exceeds_max(field: &String, id: i64, max: i64) -> (r: DeltaTableError)
    ensures
        r@ == message(Fault::IdExceedsMax { field: field@, id: id as int, max: max as int }),
{
    DeltaTableError::Generic(
        "Column mapping id ".to_owned().concat(i64_text(id).as_str()).concat(
            " for field '",
        ).concat(field.as_str()).concat("' exceeds maxColumnId (").concat(
            i64_text(max).as_str(),
        ).concat(")."),
    )
}

/// The error for an id that is not a number.
pub(crate) fn id_not_number(field: &String, value: &MetadataValue) -> (r: DeltaTableError)
    ensures
        r@ == message(Fault::IdNotNumber { field: field@, value: value@ }),
{
    DeltaTableError::Generic(
        "Column mapping id for field '".to_owned().concat(field.as_str()).concat(
            "' must be a number, got: ",
        ).concat(show(value).as_str()),
    )
}

/// The error for switching column mapping off.
pub(crate) fn disabling() -> (r: DeltaTableError)
    ensures
        r@ == message(Fault::Disabling),
{
    DeltaTableError::Generic(
        "Disabling column mapping on a column-mapped table is not supported. Column mapping cannot be deactivated once enabled.".to_owned(),
    )
}

/// The error for a mode that there is not.
pub(crate) fn invalid_mode(value: &str) -> (r: DeltaTableError)
    ensures
        r@ == message(Fault::InvalidMode { setting: value@ }),
{
    DeltaTableError::Generic(
        "Invalid column mapping mode '".to_owned().concat(value).concat(
            "'. Supported values are 'name' and 'id'.",
        ),
    )
}

} // verus!
