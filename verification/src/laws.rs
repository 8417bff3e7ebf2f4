//! What holds of the library as a whole.

pub mod assigning;
pub mod keeping;
pub mod reporting;
pub mod schemas;
pub mod validating;
pub mod settings;
