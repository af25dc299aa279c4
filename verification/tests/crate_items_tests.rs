use docs_rs_mcp::fetch::TestHtmlFetcher;
use docs_rs_mcp::tools::crate_items::CrateItemsTool;
use docs_rs_mcp::errors::HarvestError;
use scraper::{Html, Selector};

fn li(name: &str, path: &str) -> String {
    format!("<li><a href=\"{path}\">{name}</a></li>")
}

fn scraper_structs() -> Vec<(String, String)> {
    let mut items: Vec<(String, String)> = vec![
        ("element_ref::ElementRef".to_string(), "element_ref/struct.ElementRef.html".to_string()),
        ("html::Html".to_string(), "html/struct.Html.html".to_string()),
        ("selector::Selector".to_string(), "selector/struct.Selector.html".to_string()),
        ("selector::CssLocalName".to_string(), "selector/struct.CssLocalName.html".to_string()),
    ];
    let fillers = [
        "node::Comment",
        "node::Doctype",
        "node::Element",
        "node::ProcessingInstruction",
        "node::Text",
        "html::Select",
        "element_ref::Select",
        "element_ref::Text",
        "selector::Parser",
        "selector::Simple",
        "node::Attributes",
        "node::Classes",
        "html::Errors",
        "selector::ToCssString",
    ];
    for f in fillers {
        let parts: Vec<&str> = f.split("::").collect();
        items.push((f.to_string(), format!("{}/struct.{}.html", parts[0], parts[1])));
    }
    items
}

fn scraper_all_items_html() -> String {
    let mut h = String::new();
    h.push_str("<html><body><h1>List of all items</h1>");
    h.push_str("<h3 id=\"structs\">Structs</h3><ul class=\"all-items\">");
    for (name, path) in scraper_structs() {
        h.push_str(&li(&name, &path));
    }
    h.push_str("</ul>");
    h.push_str("<h3 id=\"enums\">Enums</h3><ul class=\"all-items\">");
    h.push_str(&li("CaseSensitivity", "enum.CaseSensitivity.html"));
    h.push_str(&li("node::Node", "node/enum.Node.html"));
    h.push_str(&li("error::SelectorErrorKind", "error/enum.SelectorErrorKind.html"));
    h.push_str(&li("node::Edge", "node/enum.Edge.html"));
    h.push_str(&li("html::QuirksMode", "html/enum.QuirksMode.html"));
    h.push_str("</ul>");
    h.push_str("<h3 id=\"traits\">Traits</h3><ul class=\"all-items\">");
    h.push_str(&li("Element", "trait.Element.html"));
    h.push_str(&li("selectable::Selectable", "selectable/trait.Selectable.html"));
    h.push_str(&li("node::NodeExt", "node/trait.NodeExt.html"));
    h.push_str("</ul>");
    h.push_str("<h3 id=\"types\">Type Aliases</h3><ul class=\"all-items\">");
    h.push_str(&li("StrTendril", "type.StrTendril.html"));
    h.push_str(&li("html::Tree", "html/type.Tree.html"));
    h.push_str(&li("node::Children", "node/type.Children.html"));
    h.push_str("</ul>");
    h.push_str("</body></html>");
    h
}

fn tokio_all_items_html() -> String {
    let mut h = String::new();
    h.push_str("<html><body><h1>List of all items</h1>");
    h.push_str("<h3 id=\"macros\">Macros</h3><ul class=\"all-items\">");
    h.push_str(&li("select", "macro.select.html"));
    h.push_str(&li("join", "macro.join.html"));
    h.push_str(&li("try_join", "macro.try_join.html"));
    h.push_str(&li("pin", "macro.pin.html"));
    h.push_str(&li("task_local", "macro.task_local.html"));
    h.push_str("</ul>");
    h.push_str("<h3 id=\"structs\">Structs</h3><ul class=\"all-items\">");
    h.push_str(&li("fs::File", "fs/struct.File.html"));
    h.push_str(&li("io::BufReader", "io/struct.BufReader.html"));
    h.push_str(&li("net::TcpListener", "net/struct.TcpListener.html"));
    h.push_str(&li("sync::Mutex", "sync/struct.Mutex.html"));
    h.push_str(&li("time::Interval", "time/struct.Interval.html"));
    for i in 0..150 {
        h.push_str(&li(&format!("filler::S{i}"), &format!("filler/struct.S{i}.html")));
    }
    h.push_str("</ul>");
    h.push_str("<h3 id=\"enums\">Enums</h3><ul class=\"all-items\">");
    h.push_str(&li("runtime::RuntimeFlavor", "runtime/enum.RuntimeFlavor.html"));
    h.push_str(&li("sync::TryAcquireError", "sync/enum.TryAcquireError.html"));
    for i in 0..14 {
        h.push_str(&li(&format!("filler::E{i}"), &format!("filler/enum.E{i}.html")));
    }
    h.push_str("</ul>");
    h.push_str("<h3 id=\"traits\">Traits</h3><ul class=\"all-items\">");
    h.push_str(&li("io::AsyncRead", "io/trait.AsyncRead.html"));
    h.push_str(&li("io::AsyncWrite", "io/trait.AsyncWrite.html"));
    for i in 0..15 {
        h.push_str(&li(&format!("filler::T{i}"), &format!("filler/trait.T{i}.html")));
    }
    h.push_str("</ul>");
    h.push_str("<h3 id=\"functions\">Functions</h3><ul class=\"all-items\">");
    h.push_str(&li("fs::read", "fs/fn.read.html"));
    h.push_str(&li("time::sleep", "time/fn.sleep.html"));
    for i in 0..65 {
        h.push_str(&li(&format!("filler::f{i}"), &format!("filler/fn.f{i}.html")));
    }
    h.push_str("</ul>");
    h.push_str("<h3 id=\"types\">Type Aliases</h3><ul class=\"all-items\">");
    h.push_str(&li("net::unix::uid_t", "net/unix/type.uid_t.html"));
    for i in 0..7 {
        h.push_str(&li(&format!("filler::A{i}"), &format!("filler/type.A{i}.html")));
    }
    h.push_str("</ul>");
    h.push_str("<h3 id=\"attributes\">Attributes</h3><ul class=\"all-items\">");
    h.push_str(&li("main", "attr.main.html"));
    h.push_str("</ul>");
    h.push_str("</body></html>");
    h
}

#[test]
fn test_parse_html() {
    let html = scraper_all_items_html();
    let document = Html::parse_document(&html);

    let sections = ["structs", "enums", "traits", "types"];
    for section in &sections {
        let selector = format!("h3#{}", section);
        let section_header = document.select(&Selector::parse(&selector).unwrap()).next();
        assert!(
            section_header.is_some(),
            "Should find section header for {}",
            section
        );
    }

    for section in &sections {
        let selector = format!("#{} + ul.all-items", section);
        let items = document.select(&Selector::parse(&selector).unwrap()).next();
        assert!(
            items.is_some(),
            "Should find items list for {} section",
            section
        );
    }

    let struct_links: Vec<_> = document
        .select(&Selector::parse("#structs + ul.all-items > li > a").unwrap())
        .collect();

    let struct_names: Vec<_> = struct_links
        .iter()
        .map(|link| link.text().collect::<String>())
        .collect();

    assert!(struct_names.contains(&"element_ref::ElementRef".to_string()));
    assert!(struct_names.contains(&"html::Html".to_string()));
    assert!(struct_names.contains(&"selector::Selector".to_string()));
    assert!(struct_names.contains(&"selector::CssLocalName".to_string()));

    assert_eq!(struct_links.len(), 18, "Should find 18 structs");
}

#[test]
fn test_link_formatting() {
    let html = scraper_all_items_html();
    let document = Html::parse_document(&html);

    for section in ["structs", "enums", "traits", "types"] {
        let selector = format!("#{} + ul.all-items > li > a", section);
        let link_selector = Selector::parse(&selector).unwrap();

        for link in document.select(&link_selector) {
            let href = link.value().attr("href").unwrap();
            let name = link.text().collect::<String>();

            assert!(
                href.ends_with(".html"),
                "Link should end with .html: {}",
                href
            );

            match section {
                "structs" => assert!(
                    href.contains("struct."),
                    "Struct link wrong format: {}",
                    href
                ),
                "enums" => assert!(href.contains("enum."), "Enum link wrong format: {}", href),
                "traits" => {
                    assert!(href.contains("trait."), "Trait link wrong format: {}", href)
                }
                "types" => assert!(href.contains("type."), "Type link wrong format: {}", href),
                _ => unreachable!(),
            }

            assert!(!name.is_empty(), "Link text should not be empty");
        }
    }
}

#[test]
fn test_item_counts() {
    let html = scraper_all_items_html();
    let document = Html::parse_document(&html);

    let counts = [("structs", 18), ("enums", 5), ("traits", 3), ("types", 3)];

    for (section, expected_count) in counts {
        let selector = format!("#{} + ul.all-items > li", section);
        let items = document
            .select(&Selector::parse(&selector).unwrap())
            .count();
        assert_eq!(
            items, expected_count,
            "Wrong number of items in {} section",
            section
        );
    }
}

#[test]
fn test_item_paths() {
    let html = scraper_all_items_html();
    let document = Html::parse_document(&html);

    let expected_items = [
        (
            "element_ref::ElementRef",
            "element_ref/struct.ElementRef.html",
        ),
        ("html::Html", "html/struct.Html.html"),
        ("CaseSensitivity", "enum.CaseSensitivity.html"),
        ("Element", "trait.Element.html"),
        ("StrTendril", "type.StrTendril.html"),
    ];

    for (name, expected_path) in expected_items {
        let found = document
            .select(&Selector::parse("ul.all-items > li > a").unwrap())
            .any(|link| {
                link.text().collect::<String>() == name
                    && link.value().attr("href").unwrap().ends_with(expected_path)
            });

        assert!(
            found,
            "Could not find item {} with path ending in {}",
            name, expected_path
        );
    }
}

#[test]
fn test_tokio_items() {
    let html = tokio_all_items_html();
    let document = Html::parse_document(&html);

    let sections = [
        "macros",
        "structs",
        "enums",
        "traits",
        "functions",
        "types",
        "attributes",
    ];
    for section in &sections {
        let selector = format!("h3#{}", section);
        let section_header = document.select(&Selector::parse(&selector).unwrap()).next();
        assert!(
            section_header.is_some(),
            "Should find section header for {}",
            section
        );
    }

    let expected_items = [
        ("fs::File", "fs/struct.File.html"),
        ("io::BufReader", "io/struct.BufReader.html"),
        ("net::TcpListener", "net/struct.TcpListener.html"),
        ("sync::Mutex", "sync/struct.Mutex.html"),
        ("time::Interval", "time/struct.Interval.html"),
        ("runtime::RuntimeFlavor", "runtime/enum.RuntimeFlavor.html"),
        ("sync::TryAcquireError", "sync/enum.TryAcquireError.html"),
        ("io::AsyncRead", "io/trait.AsyncRead.html"),
        ("io::AsyncWrite", "io/trait.AsyncWrite.html"),
        ("fs::read", "fs/fn.read.html"),
        ("time::sleep", "time/fn.sleep.html"),
        ("select", "macro.select.html"),
        ("join", "macro.join.html"),
        ("net::unix::uid_t", "net/unix/type.uid_t.html"),
    ];

    for (name, expected_path) in expected_items {
        let found = document
            .select(&Selector::parse("ul.all-items > li > a").unwrap())
            .any(|link| {
                let link_text = link.text().collect::<String>();
                let href = link.value().attr("href").unwrap();
                link_text == name && href.ends_with(expected_path)
            });

        assert!(
            found,
            "Could not find item {} with path ending in {}",
            name, expected_path
        );
    }

    let category_counts = [
        ("Structs", 155),
        ("Enums", 16),
        ("Traits", 17),
        ("Functions", 67),
        ("Macros", 5),
        ("Type Aliases", 8),
    ];

    for (category, expected_count) in category_counts {
        let selector = match category {
            "Type Aliases" => "h3#types + ul.all-items > li".to_string(),
            _ => format!(
                "h3#{} + ul.all-items > li",
                category.to_lowercase().replace(' ', "")
            ),
        };
        let category_items = document.select(&Selector::parse(&selector).unwrap()).count();

        assert_eq!(
            category_items, expected_count,
            "Wrong number of items in {} category",
            category
        );
    }

    let link_selector = Selector::parse("ul.all-items > li > a").unwrap();
    let all_links = document.select(&link_selector);
    for link in all_links {
        let href = link.value().attr("href").unwrap();
        assert!(
            href.ends_with(".html"),
            "Link should end with .html: {}",
            href
        );
        assert!(
            !href.contains("//"),
            "Link should not contain double slashes: {}",
            href
        );
    }
}

#[test]
fn test_crate_items_scraper() {
    let mut fetcher = TestHtmlFetcher::new();
    fetcher.add_page(
        "https://docs.rs/scraper/0.22.0/scraper/all.html".to_string(),
        scraper_all_items_html(),
    );
    let tool = CrateItemsTool::new(fetcher);
    let result = tool.scrape_items("scraper", Some("0.22.0")).unwrap();

    assert_eq!(result.crate_name, "scraper");
    assert_eq!(result.version, "0.22.0");

    let structs = result.get_category("Structs").expect("Missing Structs category");
    let enums = result.get_category("Enums").expect("Missing Enums category");
    let traits = result.get_category("Traits").expect("Missing Traits category");
    let types = result.get_category("Type Aliases").expect("Missing Type Aliases category");
    assert_eq!(structs.len(), 18);
    assert_eq!(enums.len(), 5);
    assert_eq!(traits.len(), 3);
    assert_eq!(types.len(), 3);
    assert!(result.get_category("Macros").is_none());
    assert!(result.get_category("Functions").is_none());
    assert!(result.get_category("Attributes").is_none());

    let names: Vec<&str> = structs.iter().map(|it| it.name.as_str()).collect();
    assert!(names.contains(&"element_ref::ElementRef"), "Missing ElementRef struct");
    assert!(names.contains(&"html::Html"), "Missing Html struct");
    assert!(names.contains(&"selector::Selector"), "Missing Selector struct");
    assert!(names.contains(&"selector::CssLocalName"), "Missing CssLocalName struct");

    let html_item = structs.iter().find(|it| it.name == "html::Html").unwrap();
    assert_eq!(
        html_item.doc_link,
        "https://docs.rs/scraper/0.22.0/scraper/html/struct.Html.html"
    );
    assert!(html_item.doc_link.ends_with("html/struct.Html.html"));

    let base = "https://docs.rs/scraper/0.22.0/scraper";
    for (_, items) in &result.items {
        assert!(!items.is_empty(), "No category may be empty");
        for item in items {
            assert!(item.doc_link.starts_with(base));
            assert!(item.doc_link.ends_with(".html"));
            let after_base = &item.doc_link[base.len()..];
            assert!(
                !after_base.contains("//"),
                "Doubled separator in {}",
                item.doc_link
            );
        }
    }
}

#[test]
fn test_crate_items_serde() {
    let mut h = String::new();
    h.push_str("<html><body>");
    h.push_str("<h3 id=\"structs\">Structs</h3><ul class=\"all-items\">");
    h.push_str(&li("de::IgnoredAny", "de/struct.IgnoredAny.html"));
    h.push_str("</ul>");
    h.push_str("<h3 id=\"traits\">Traits</h3><ul class=\"all-items\">");
    h.push_str(&li("Serialize", "trait.Serialize.html"));
    h.push_str(&li("Deserialize", "trait.Deserialize.html"));
    h.push_str("</ul>");
    h.push_str("</body></html>");

    let mut fetcher = TestHtmlFetcher::new();
    fetcher.add_page("https://docs.rs/serde/latest/serde/all.html".to_string(), h);
    let tool = CrateItemsTool::new(fetcher);
    let result = tool.scrape_items("serde", None).unwrap();

    assert_eq!(result.crate_name, "serde");
    assert_eq!(result.version, "latest");
    let structs = result.get_category("Structs").expect("Missing Structs category");
    let traits = result.get_category("Traits").expect("Missing Traits category");
    assert!(!structs.is_empty());
    let trait_names: Vec<&str> = traits.iter().map(|it| it.name.as_str()).collect();
    assert!(trait_names.contains(&"Serialize"));
    assert!(trait_names.contains(&"Deserialize"));
    for t in traits {
        assert!(t.doc_link.starts_with("https://docs.rs"));
    }
}

#[test]
fn test_crate_items_nonexistent() {
    let fetcher = TestHtmlFetcher::new();
    let tool = CrateItemsTool::new(fetcher);
    let result = tool.scrape_items("this-crate-definitely-does-not-exist-12345", None);
    assert!(result.is_err());
}

#[test]
fn test_crate_items_invalid_version() {
    let mut fetcher = TestHtmlFetcher::new();
    fetcher.add_page(
        "https://docs.rs/scraper/0.22.0/scraper/all.html".to_string(),
        scraper_all_items_html(),
    );
    let tool = CrateItemsTool::new(fetcher);
    let result = tool.scrape_items("scraper", Some("999.999.999"));
    match result {
        Err(e) => {
            match &e {
                HarvestError::Fetch { url, .. } => {
                    assert_eq!(url.as_str(), "https://docs.rs/scraper/999.999.999/scraper/all.html");
                }
                other => panic!("Expected a fetch failure, got {:?}", other.message()),
            }
            assert!(e.message().contains("Failed to fetch docs.rs page"));
        }
        Ok(_) => panic!("Expected an error for an unknown version"),
    }
}

#[test]
fn test_crate_items_empty_name() {
    let fetcher = TestHtmlFetcher::new();
    let tool = CrateItemsTool::new(fetcher);
    let result = tool.scrape_items("", None);
    match result {
        Err(HarvestError::MalformedInput { .. }) => {}
        _ => panic!("Expected a malformed-input error for an empty crate name"),
    }
}
