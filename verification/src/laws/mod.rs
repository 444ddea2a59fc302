//! What holds of the library as a whole, over several calls or all inputs.

pub mod activate;
pub mod aggregator;
pub mod chat;
pub mod code;
pub mod entries;
pub mod error;
pub mod files;
pub mod imports;
pub mod levels;
pub mod list;
pub mod normalize;
pub mod packages;
pub mod paths;
pub mod provenance;
pub mod register;
pub mod root;
pub mod text;
