use opensearch_nix::html::{locate, HtmlElement, LocateError};

fn el(name: &str, attrs: &[(&str, &str)], children: Vec<HtmlElement>) -> HtmlElement {
    HtmlElement {
        name: name.to_string(),
        attrs: attrs
            .iter()
            .map(|(k, v)| (k.to_string(), v.to_string()))
            .collect(),
        children,
    }
}

fn search_link(href: Option<&str>) -> HtmlElement {
    let mut attrs = vec![
        ("rel", "search"),
        ("type", "application/opensearchdescription+xml"),
    ];
    if let Some(h) = href {
        attrs.push(("href", h));
    }
    el("link", &attrs, Vec::new())
}

#[test]
fn second_link_matches_and_href_is_resolved() {
    let root = el(
        "html",
        &[],
        vec![
            el(
                "head",
                &[],
                vec![
                    el(
                        "link",
                        &[("rel", "search"), ("type", "text/html"), ("href", "/bad")],
                        Vec::new(),
                    ),
                    search_link(Some("/opensearch.xml")),
                ],
            ),
            el("body", &[], Vec::new()),
        ],
    );
    let url = locate(&root, "https://example.com/a/b").unwrap();
    assert_eq!(url, "https://example.com/opensearch.xml");
}

#[test]
fn relative_href_resolves_against_base_path() {
    let root = el(
        "html",
        &[],
        vec![el("head", &[], vec![search_link(Some("osd.xml"))])],
    );
    let url = locate(&root, "https://example.com/dir/page.html").unwrap();
    assert_eq!(url, "https://example.com/dir/osd.xml");
}

#[test]
fn absolute_href_is_kept() {
    let root = el(
        "html",
        &[],
        vec![el(
            "head",
            &[],
            vec![search_link(Some("https://other.example/o.xml"))],
        )],
    );
    let url = locate(&root, "https://example.com/").unwrap();
    assert_eq!(url, "https://other.example/o.xml");
}

#[test]
fn no_head_is_not_found() {
    let root = el("html", &[], vec![el("body", &[], Vec::new())]);
    assert!(matches!(
        locate(&root, "https://example.com/"),
        Err(LocateError::NotFound)
    ));
}

#[test]
fn head_without_qualifying_link_is_not_found() {
    let root = el(
        "html",
        &[],
        vec![el(
            "head",
            &[],
            vec![
                el("link", &[("rel", "search")], Vec::new()),
                el(
                    "link",
                    &[("type", "application/opensearchdescription+xml")],
                    Vec::new(),
                ),
            ],
        )],
    );
    assert!(matches!(
        locate(&root, "https://example.com/"),
        Err(LocateError::NotFound)
    ));
}

#[test]
fn only_the_first_head_is_visited() {
    let root = el(
        "html",
        &[],
        vec![
            el("head", &[], Vec::new()),
            el("head", &[], vec![search_link(Some("/osd.xml"))]),
        ],
    );
    assert!(matches!(
        locate(&root, "https://example.com/"),
        Err(LocateError::NotFound)
    ));
}

#[test]
fn missing_href_is_reported() {
    let root = el("html", &[], vec![el("head", &[], vec![search_link(None)])]);
    assert!(matches!(
        locate(&root, "https://example.com/"),
        Err(LocateError::MissingAttribute)
    ));
}

#[test]
fn unresolvable_href_is_reported() {
    let root = el(
        "html",
        &[],
        vec![el("head", &[], vec![search_link(Some("http://["))])],
    );
    assert!(matches!(
        locate(&root, "https://example.com/"),
        Err(LocateError::InvalidUrl)
    ));
}

#[test]
fn first_attribute_of_a_name_wins() {
    let link = el(
        "link",
        &[
            ("rel", "search"),
            ("type", "application/opensearchdescription+xml"),
            ("href", "/first.xml"),
            ("href", "/second.xml"),
        ],
        Vec::new(),
    );
    let root = el("html", &[], vec![el("head", &[], vec![link])]);
    let url = locate(&root, "https://example.com/").unwrap();
    assert_eq!(url, "https://example.com/first.xml");
}
