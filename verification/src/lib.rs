//! Harvests structured metadata about Rust types from docs.rs pages.
//!
//! The library resolves the documentation page for a requested type,
//! extracts a structured record from its markup, and enumerates the
//! categorized public items a package exposes.  All decision logic is
//! verified; the HTML parsing itself is delegated to the `scraper`
//! crate behind a small trusted boundary.

pub mod errors;
pub mod fetch;
pub mod html;
pub mod laws;
pub mod text;
pub mod tools;
pub mod urls;

pub use tools::CrateInfoTool;
pub use tools::CrateItemsTool;
pub use tools::StructDocsTool;

use vstd::prelude::*;

verus! {

} // verus!
