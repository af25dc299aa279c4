//! The caller-facing error taxonomy.
//!
//! A failed fetch, a type that no layout strategy could match, a
//! request that fails shape validation, and a CSS selector that does
//! not parse each get their own variant.  Missing sub-elements of a
//! page are never errors: extraction defaults them to empty values.

use vstd::prelude::*;
use vstd::string::StringExecFns;

verus! {

/// A failure of one of the harvesting operations.
#[derive(Debug)]
pub enum HarvestError {
    /// The page could not be fetched; carries the URL attempted and a
    /// human-readable cause.
    Fetch { url: String, cause: String },
    /// The requested type matched no anchor under any known page
    /// layout; carries the request that failed.
    NotFound { crate_name: String, struct_name: String, version: String },
    /// The caller-supplied request fails basic shape validation.
    MalformedInput { message: String },
    /// A CSS selector definition did not parse (a programming error,
    /// not a data error).
    Selector { selector: String },
}

/// The human-readable message for an error value.
pub open spec fn spec_error_message(e: HarvestError) -> Seq<char> {
    match e {
        HarvestError::Fetch { url, cause } => "Failed to fetch docs.rs page: "@ + cause@ + " - "@
            + url@,
        HarvestError::NotFound { crate_name, struct_name, version } => "Could not find struct "@
            + struct_name@ + " in crate "@ + crate_name@ + " (version: "@ + version@ + ")"@,
        HarvestError::MalformedInput { message } => "Invalid request: "@ + message@,
        HarvestError::Selector { selector } => "Failed to parse selector: "@ + selector@,
    }
}

impl HarvestError {
    /// Renders the error as a human-readable message.
    pub fn message(&self) -> (r: String)
        ensures
            r@ == spec_error_message(*self),
    {
        match self {
            HarvestError::Fetch { url, cause } => {
                let mut m = String::new();
                m.append("Failed to fetch docs.rs page: ");
                m.append(cause.as_str());
                m.append(" - ");
                m.append(url.as_str());
                m
            },
            HarvestError::NotFound { crate_name, struct_name, version } => {
                let mut m = String::new();
                m.append("Could not find struct ");
                m.append(struct_name.as_str());
                m.append(" in crate ");
                m.append(crate_name.as_str());
                m.append(" (version: ");
                m.append(version.as_str());
                m.append(")");
                m
            },
            HarvestError::MalformedInput { message } => {
                let mut m = String::new();
                m.append("Invalid request: ");
                m.append(message.as_str());
                m
            },
            HarvestError::Selector { selector } => {
                let mut m = String::new();
                m.append("Failed to parse selector: ");
                m.append(selector.as_str());
                m
            },
        }
    }
}

} // verus!
