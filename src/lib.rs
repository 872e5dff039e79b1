//! Row access, sampling, merging and metadata reporting for a columnar
//! table inspector. Everything that touches the disk or decodes the columnar
//! format is done by the caller, which hands plain values to these functions.

pub mod commands;
pub mod errors;
pub mod export;
pub mod files;
pub mod merge_data;
pub mod sampling;
pub mod text;
pub mod utils;
