//! Project scaffolding: naming conventions, component categories, source
//! skeletons, and the construction container that generated projects embed.

pub mod category;
pub mod cli;
pub mod config;
pub mod go;
pub mod layout;
pub mod provider;
pub mod rust;
pub mod strfmt;
pub mod text;
