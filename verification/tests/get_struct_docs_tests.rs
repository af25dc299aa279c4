use docs_rs_mcp::errors::HarvestError;
use docs_rs_mcp::fetch::TestHtmlFetcher;
use docs_rs_mcp::tools::get_struct_docs::StructDocsTool;

fn otel_all_items_html() -> String {
    let mut h = String::new();
    h.push_str("<html><body>");
    h.push_str("<h3 id=\"structs\">Structs</h3><ul class=\"all-items\">");
    h.push_str(
        "<li><a href=\"/trace/struct.SdkTracerProvider.html\">trace::SdkTracerProvider</a></li>",
    );
    h.push_str(
        "<li><a href=\"/trace/struct.TracerProviderBuilder.html\">trace::TracerProviderBuilder</a></li>",
    );
    h.push_str(
        "<li><a href=\"/trace/struct.TracerProviderBuilder.html\">TracerProviderBuilder</a></li>",
    );
    h.push_str("</ul>");
    h.push_str("</body></html>");
    h
}

fn otel_builder_page_html() -> String {
    let mut h = String::new();
    h.push_str("<html><body>");
    h.push_str(
        "<div class=\"toggle top-doc\"><div class=\"docblock\">  Builder for TracerProvider.  </div></div>",
    );
    h.push_str("<div class=\"impl-items\">");
    h.push_str(
        "<section class=\"toggle method-toggle\"><h4 class=\"code-header\">pub fn <span class=\"fn\">build</span>(self) -&gt; SdkTracerProvider</h4><div class=\"docblock\"> Create a new provider. </div></section>",
    );
    h.push_str("</div>");
    h.push_str("<div id=\"trait-implementations\">");
    h.push_str(
        "<section class=\"impl\"><h3>impl <span class=\"trait\">Debug</span> for TracerProviderBuilder</h3></section>",
    );
    h.push_str(
        "<section class=\"impl\"><h3>impl <span class=\"trait\">Clone</span> for TracerProviderBuilder</h3></section>",
    );
    h.push_str("</div>");
    h.push_str("<div id=\"synthetic-implementations\">");
    h.push_str("<section class=\"impl\"><h3><span class=\"trait\">Send</span></h3></section>");
    h.push_str("</div>");
    h.push_str("<div id=\"blanket-implementations\">");
    h.push_str("<section class=\"impl\"><h3><span class=\"trait\">Any</span></h3></section>");
    h.push_str("</div>");
    h.push_str(
        "<span class=\"structfield\"><span class=\"structfield-name\">config</span><span class=\"type\">Config</span><div class=\"docblock\"> The provider configuration. </div></span>",
    );
    h.push_str("</body></html>");
    h
}

fn otel_tool() -> StructDocsTool<TestHtmlFetcher> {
    let mut tool = StructDocsTool::new_with_test_fetcher();
    tool.fetcher.add_page(
        "https://docs.rs/opentelemetry_sdk/0.28.0/opentelemetry_sdk/all.html".to_string(),
        otel_all_items_html(),
    );
    tool.fetcher.add_page(
        "https://docs.rs/opentelemetry_sdk/0.28.0/opentelemetry_sdk/trace/struct.TracerProviderBuilder.html"
            .to_string(),
        otel_builder_page_html(),
    );
    tool
}

#[test]
fn test_find_struct_url() {
    let tool = otel_tool();

    let url = tool
        .find_struct_url("opentelemetry_sdk", "TracerProviderBuilder", Some("0.28.0"))
        .unwrap();
    assert!(
        url.contains("opentelemetry_sdk/trace/struct.TracerProviderBuilder.html"),
        "URL should contain correct path"
    );

    let url = tool
        .find_struct_url(
            "opentelemetry_sdk",
            "trace::TracerProviderBuilder",
            Some("0.28.0"),
        )
        .unwrap();
    assert!(
        url.contains("opentelemetry_sdk/trace/struct.TracerProviderBuilder.html"),
        "URL should contain correct path"
    );
}

#[test]
fn test_fetch_docs() {
    let tool = otel_tool();

    let docs = tool
        .fetch_docs("opentelemetry_sdk", "TracerProviderBuilder", Some("0.28.0"))
        .unwrap();
    assert_eq!(docs.name, "TracerProviderBuilder", "Wrong struct name");
    assert_eq!(docs.crate_name, "opentelemetry_sdk", "Wrong crate name");
    assert!(!docs.description.is_empty(), "Should have a description");
    assert!(!docs.traits.is_empty(), "Should have traits");

    let docs = tool
        .fetch_docs(
            "opentelemetry_sdk",
            "trace::TracerProviderBuilder",
            Some("0.28.0"),
        )
        .unwrap();
    assert_eq!(
        docs.name, "trace::TracerProviderBuilder",
        "Wrong struct name"
    );
    assert_eq!(docs.crate_name, "opentelemetry_sdk", "Wrong crate name");
    assert!(!docs.description.is_empty(), "Should have a description");
    assert!(!docs.traits.is_empty(), "Should have traits");
}

#[test]
fn test_qualified_and_unqualified_resolve_same_url() {
    let tool = otel_tool();
    let unqualified = tool
        .find_struct_url("opentelemetry_sdk", "TracerProviderBuilder", Some("0.28.0"))
        .unwrap();
    let qualified = tool
        .find_struct_url(
            "opentelemetry_sdk",
            "trace::TracerProviderBuilder",
            Some("0.28.0"),
        )
        .unwrap();
    assert_eq!(unqualified, qualified);
    assert_eq!(
        unqualified,
        "https://docs.rs/opentelemetry_sdk/0.28.0/opentelemetry_sdk/trace/struct.TracerProviderBuilder.html"
    );
}

#[test]
fn test_extraction_exact_values() {
    let tool = otel_tool();
    let docs = tool
        .fetch_docs("opentelemetry_sdk", "TracerProviderBuilder", Some("0.28.0"))
        .unwrap();

    assert_eq!(docs.description, "Builder for TracerProvider.");

    assert_eq!(docs.methods.len(), 1);
    assert_eq!(docs.methods[0].name, "build");
    assert_eq!(
        docs.methods[0].signature,
        "pub fn build(self) -> SdkTracerProvider"
    );
    assert_eq!(docs.methods[0].description, "Create a new provider.");

    assert_eq!(docs.traits, vec!["Debug".to_string(), "Clone".to_string()]);

    assert_eq!(docs.fields.len(), 1);
    assert_eq!(docs.fields[0].name, "config");
    assert_eq!(docs.fields[0].type_text, "Config");
    assert_eq!(docs.fields[0].description, " The provider configuration. ");
}

#[test]
fn test_trait_tier_fallback() {
    let mut tool = StructDocsTool::new_with_test_fetcher();
    let all_items = "<html><body><h3 id=\"structs\">Structs</h3><ul class=\"all-items\">\
        <li><a href=\"struct.Thing.html\">Thing</a></li></ul></body></html>";
    let synthetic_only = "<html><body>\
        <div id=\"synthetic-implementations\">\
        <section class=\"impl\"><h3><span class=\"trait\">Send</span></h3></section>\
        <section class=\"impl\"><h3><span class=\"trait\">Sync</span></h3></section>\
        </div>\
        <div id=\"blanket-implementations\">\
        <section class=\"impl\"><h3><span class=\"trait\">Any</span></h3></section>\
        </div>\
        </body></html>";
    tool.fetcher.add_page(
        "https://docs.rs/demo/latest/demo/all.html".to_string(),
        all_items.to_string(),
    );
    tool.fetcher.add_page(
        "https://docs.rs/demo/latest/demo/struct.Thing.html".to_string(),
        synthetic_only.to_string(),
    );
    let docs = tool.fetch_docs("demo", "Thing", None).unwrap();
    assert_eq!(docs.traits, vec!["Send".to_string(), "Sync".to_string()]);
}

#[test]
fn test_trait_tier_blanket_only() {
    let mut tool = StructDocsTool::new_with_test_fetcher();
    let all_items = "<html><body><h3 id=\"structs\">Structs</h3><ul class=\"all-items\">\
        <li><a href=\"struct.Thing.html\">Thing</a></li></ul></body></html>";
    let blanket_only = "<html><body>\
        <div id=\"blanket-implementations\">\
        <section class=\"impl\"><h3><span class=\"trait\">Any</span></h3></section>\
        </div>\
        </body></html>";
    tool.fetcher.add_page(
        "https://docs.rs/demo/latest/demo/all.html".to_string(),
        all_items.to_string(),
    );
    tool.fetcher.add_page(
        "https://docs.rs/demo/latest/demo/struct.Thing.html".to_string(),
        blanket_only.to_string(),
    );
    let docs = tool.fetch_docs("demo", "Thing", None).unwrap();
    assert_eq!(docs.traits, vec!["Any".to_string()]);
}

#[test]
fn test_get_struct_docs_not_found() {
    let tool = otel_tool();
    let result = tool.fetch_docs("opentelemetry_sdk", "NoSuchType", Some("0.28.0"));
    match result {
        Err(HarvestError::NotFound {
            crate_name,
            struct_name,
            version,
        }) => {
            assert_eq!(crate_name, "opentelemetry_sdk");
            assert_eq!(struct_name, "NoSuchType");
            assert_eq!(version, "0.28.0");
        }
        other => panic!("Expected a not-found error, got {:?}", other),
    }
    let message = tool
        .fetch_docs("opentelemetry_sdk", "NoSuchType", Some("0.28.0"))
        .unwrap_err()
        .message();
    assert!(message.contains("Could not find struct NoSuchType in crate opentelemetry_sdk"));
    assert!(message.contains("(version: 0.28.0)"));
}

#[test]
fn test_get_type_doc_idempotent() {
    let tool = otel_tool();
    let first = tool
        .fetch_docs("opentelemetry_sdk", "TracerProviderBuilder", Some("0.28.0"))
        .unwrap();
    let second = tool
        .fetch_docs("opentelemetry_sdk", "TracerProviderBuilder", Some("0.28.0"))
        .unwrap();
    assert_eq!(first, second);
}

fn surrealdb_tool() -> StructDocsTool<TestHtmlFetcher> {
    let all_items = "<html><body><h3 id=\"structs\">Structs</h3><ul class=\"all-items\">\
        <li><a href=\"/struct.Surreal.html\">Surreal</a></li></ul></body></html>";
    let page = "<html><body>\
        <div class=\"toggle top-doc\"><div class=\"docblock\">A database client instance for embedded or remote databases.</div></div>\
        <div class=\"impl-items\">\
        <section class=\"toggle method-toggle\"><h4 class=\"code-header\">pub fn <span class=\"fn\">connect</span>(address)</h4><div class=\"docblock\">Connects to a database endpoint.</div></section>\
        <section class=\"toggle method-toggle\"><h4 class=\"code-header\">pub fn <span class=\"fn\">use_ns</span>(self, ns)</h4><div class=\"docblock\">Switches to a specific namespace.</div></section>\
        <section class=\"toggle method-toggle\"><h4 class=\"code-header\">pub fn <span class=\"fn\">use_db</span>(self, db)</h4><div class=\"docblock\">Switches to a specific database.</div></section>\
        </div>\
        <div id=\"trait-implementations\">\
        <section class=\"impl\"><h3>impl <span class=\"trait\">Clone</span> for Surreal</h3></section>\
        <section class=\"impl\"><h3>impl <span class=\"trait\">Debug</span> for Surreal</h3></section>\
        </div>\
        </body></html>";
    let mut tool = StructDocsTool::new_with_test_fetcher();
    for version in ["latest", "2.2.0"] {
        tool.fetcher.add_page(
            format!("https://docs.rs/surrealdb/{version}/surrealdb/all.html"),
            all_items.to_string(),
        );
        tool.fetcher.add_page(
            format!("https://docs.rs/surrealdb/{version}/surrealdb/struct.Surreal.html"),
            page.to_string(),
        );
    }
    tool
}

#[test]
fn test_get_struct_docs_integration() {
    let tool = surrealdb_tool();

    for version in [None, Some("2.2.0")] {
        let docs = tool.fetch_docs("surrealdb", "Surreal", version).unwrap();
        assert_eq!(docs.name, "Surreal");
        assert_eq!(docs.crate_name, "surrealdb");
        assert!(
            docs.description
                .contains("A database client instance for embedded or remote databases"),
            "Expected description to contain the client summary, but got '{}'",
            docs.description
        );
        assert!(
            !docs.methods.is_empty() || !docs.traits.is_empty() || !docs.fields.is_empty(),
            "Expected struct to have methods, traits, or fields"
        );
        let method_names: Vec<&str> = docs.methods.iter().map(|m| m.name.as_str()).collect();
        assert!(
            method_names.contains(&"connect"),
            "Expected to find 'connect' method"
        );
        assert!(
            method_names.contains(&"use_ns"),
            "Expected to find 'use_ns' method"
        );
        assert!(
            method_names.contains(&"use_db"),
            "Expected to find 'use_db' method"
        );
        assert!(!docs.traits.is_empty(), "Expected struct to implement traits");
        assert!(
            docs.traits.iter().any(|t| t == "Clone"),
            "Expected struct to implement Clone"
        );
        assert!(
            docs.traits.iter().any(|t| t == "Debug"),
            "Expected struct to implement Debug"
        );
    }

    let missing_crate = tool.fetch_docs("this_crate_does_not_exist_12345", "SomeStruct", None);
    assert!(missing_crate.is_err(), "Expected failure for a missing crate");

    let missing_struct = tool.fetch_docs("surrealdb", "ThisStructDoesNotExist", None);
    assert!(missing_struct.is_err(), "Expected failure for a missing struct");

    let missing_version = tool.fetch_docs("surrealdb", "Surreal", Some("0.0.0"));
    assert!(missing_version.is_err(), "Expected failure for a missing version");
}

#[test]
fn test_get_struct_docs_special_cases() {
    let tool = surrealdb_tool();

    let unusual_name = tool.fetch_docs("surrealdb", "\u{30c7}\u{30fc}\u{30bf}\u{30d9}\u{30fc}\u{30b9}", None);
    assert!(unusual_name.is_err(), "Expected failure for a name absent from the catalog");

    let invalid_crate = tool.fetch_docs("my-invalid-crate-name", "MyStruct", None);
    assert!(invalid_crate.is_err(), "Expected failure for an unknown crate");

    let empty_struct = tool.fetch_docs("surrealdb", "", None);
    match empty_struct {
        Err(HarvestError::MalformedInput { .. }) => {}
        _ => panic!("Expected a malformed-input error for an empty struct name"),
    }
}
