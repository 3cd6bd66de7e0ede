//! Extraction of structured training-activity records from fixed-layout
//! spreadsheet rows: vocabulary translation, field normalization, and
//! row-to-record mapping.

pub mod extract;
pub mod models;
pub mod parser;
pub mod text;
pub mod translate;
