//! Column mapping metadata for table schemas.
//!
//! A column-mapped table refers to its columns in the data files by a physical name and a numeric
//! id, both kept in the metadata of the schema's fields. This crate assigns that metadata when
//! columns are added or column mapping is switched on, validates it, and reads and checks the
//! table settings that go with it.

pub mod assign;
pub mod config;
pub mod draws;
pub mod error;
pub mod laws;
pub mod metadata;
pub mod outside;
pub mod protocol;
pub mod rules;
pub mod schema;
pub mod text;
pub mod validate;
pub mod walk;

pub use assign::{
    assign_column_mapping_metadata, assign_column_mapping_metadata_with_uuids,
    assign_identity_column_mapping_metadata, generated_physical_name, set_physical_name,
    PhysicalNameMode,
};
pub use config::{
    column_mapping_mode_from_config, get_max_column_id, get_max_column_id_from_config,
    validate_column_mapping_mode_property, ColumnMappingMode,
};
pub use error::DeltaTableError;
pub use metadata::{Metadata, MetadataValue};
pub use protocol::{ensure_column_mapping_protocol, Protocol};
pub use schema::{ArrayType, DataType, MapType, PrimitiveType, StructField, StructType};
pub use validate::validate_column_mapping_metadata;
pub use walk::max_id_after;
