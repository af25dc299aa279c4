use docs_rs_mcp::errors::HarvestError;
use docs_rs_mcp::tools::crate_info::CrateInfoTool;

#[test]
fn test_parse_cargo_info_full_output() {
    let tool = CrateInfoTool::new();
    let output = "serde v1.0.219 (registry+https://github.com/rust-lang/crates.io-index)\n\
A generic serialization/deserialization framework\n\
version: 1.0.219\n\
license: MIT OR Apache-2.0\n\
rust-version: 1.31.0\n\
documentation: https://docs.rs/serde\n\
homepage: https://serde.rs\n\
repository: https://github.com/serde-rs/serde\n\
crates.io: https://crates.io/crates/serde/1.0.219\n\
features:\n\
  +derive = [serde_derive]\n\
  +std = []\n\
  alloc = []\n\
  unstable = []\n\
note: to see how you depend on serde, run `cargo tree`\n";
    let info = tool.parse_cargo_info_output(output).unwrap();

    assert_eq!(info.name, "serde");
    assert_eq!(
        info.description,
        "A generic serialization/deserialization framework"
    );
    assert_eq!(info.version, "1.0.219");
    assert_eq!(info.license.as_deref(), Some("MIT OR Apache-2.0"));
    assert_eq!(info.rust_version.as_deref(), Some("1.31.0"));
    assert_eq!(info.documentation.as_deref(), Some("https://docs.rs/serde"));
    assert_eq!(info.homepage.as_deref(), Some("https://serde.rs"));
    assert_eq!(
        info.repository.as_deref(),
        Some("https://github.com/serde-rs/serde")
    );
    assert_eq!(
        info.crates_io.as_deref(),
        Some("https://crates.io/crates/serde/1.0.219")
    );

    assert_eq!(info.features.len(), 4);
    assert_eq!(info.features[0].name, "derive");
    assert!(info.features[0].is_default);
    assert_eq!(info.features[0].dependencies, vec!["serde_derive".to_string()]);
    assert_eq!(info.features[1].name, "std");
    assert!(info.features[1].is_default);
    assert_eq!(info.features[1].dependencies, vec![String::new()]);
    assert_eq!(info.features[2].name, "alloc");
    assert!(!info.features[2].is_default);
}

#[test]
fn test_parse_cargo_info_feature_dependencies() {
    let tool = CrateInfoTool::new();
    let output = "demo\n\
A demo crate\n\
features:\n\
  full = [a,  b , c]\n";
    let info = tool.parse_cargo_info_output(output).unwrap();
    assert_eq!(info.features.len(), 1);
    assert_eq!(info.features[0].name, "full");
    assert!(!info.features[0].is_default);
    assert_eq!(
        info.features[0].dependencies,
        vec!["a".to_string(), "b".to_string(), "c".to_string()]
    );
}

#[test]
fn test_parse_cargo_info_note_ends_features() {
    let tool = CrateInfoTool::new();
    let output = "demo\n\
A demo crate\n\
features:\n\
  one = []\n\
note: done\n\
  two = []\n";
    let info = tool.parse_cargo_info_output(output).unwrap();
    assert_eq!(info.features.len(), 1);
    assert_eq!(info.features[0].name, "one");
}

#[test]
fn test_parse_cargo_info_minimal() {
    let tool = CrateInfoTool::new();
    let info = tool.parse_cargo_info_output("lonely").unwrap();
    assert_eq!(info.name, "lonely");
    assert_eq!(info.description, "");
    assert_eq!(info.version, "");
    assert!(info.license.is_none());
    assert!(info.features.is_empty());
}

#[test]
fn test_parse_cargo_info_unknown_keys_ignored() {
    let tool = CrateInfoTool::new();
    let output = "demo v1\n\
A demo crate\n\
color: green\n\
version: 1.2.3\n";
    let info = tool.parse_cargo_info_output(output).unwrap();
    assert_eq!(info.name, "demo");
    assert_eq!(info.version, "1.2.3");
}

#[test]
fn test_parse_cargo_info_crlf_line_endings() {
    let tool = CrateInfoTool::new();
    let output = "demo v1\r\nA demo crate\r\nversion: 1.2.3\r\nfeatures:\r\n  +std = []\r\n";
    let info = tool.parse_cargo_info_output(output).unwrap();
    assert_eq!(info.name, "demo");
    assert_eq!(info.description, "A demo crate");
    assert_eq!(info.version, "1.2.3");
    assert_eq!(info.features.len(), 1);
    assert_eq!(info.features[0].name, "std");
    assert!(info.features[0].is_default);
}

#[test]
fn test_parse_cargo_info_empty_output() {
    let tool = CrateInfoTool::new();
    match tool.parse_cargo_info_output("") {
        Err(HarvestError::MalformedInput { .. }) => {}
        _ => panic!("Expected a malformed-input error for empty output"),
    }
}
