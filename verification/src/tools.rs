//! The externally callable operations.

pub mod crate_info;
pub mod crate_items;
pub mod get_struct_docs;

pub use crate_info::CrateInfoTool;
pub use crate_items::CrateItemsTool;
pub use get_struct_docs::StructDocsTool;
