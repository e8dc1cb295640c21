use opensearch_nix::model::{Image, UrlTemplate, ValueError};
use opensearch_nix::normalize::{normalize, NormalizeError, XmlValue};

fn sample_url(mime: &str, template: &str) -> UrlTemplate {
    UrlTemplate::new(mime, template).unwrap()
}

fn sample_image(w: u16, h: u16, url: &str) -> Image {
    Image::new("image/x-icon", Some(w), Some(h), url).unwrap()
}

#[test]
fn duplicate_short_name_fails() {
    let values = vec![
        XmlValue::ShortName("A".to_string()),
        XmlValue::Url(sample_url(
            "text/html",
            "https://example.com/search?q={searchTerms}",
        )),
        XmlValue::ShortName("B".to_string()),
    ];
    assert!(matches!(
        normalize(values),
        Err(NormalizeError::DuplicateField)
    ));
}

#[test]
fn duplicate_description_fails() {
    let values = vec![
        XmlValue::Description("one".to_string()),
        XmlValue::Url(sample_url("text/html", "https://example.com/search")),
        XmlValue::Description("two".to_string()),
    ];
    assert!(matches!(
        normalize(values),
        Err(NormalizeError::DuplicateField)
    ));
}

#[test]
fn no_urls_fails() {
    let values = vec![
        XmlValue::ShortName("A".to_string()),
        XmlValue::Image(sample_image(16, 16, "https://example.com/i.ico")),
        XmlValue::Other,
    ];
    assert!(matches!(
        normalize(values),
        Err(NormalizeError::NoUrlsDefined)
    ));
}

#[test]
fn duplicate_field_takes_precedence_over_missing_urls() {
    let values = vec![
        XmlValue::ShortName("A".to_string()),
        XmlValue::ShortName("B".to_string()),
    ];
    assert!(matches!(
        normalize(values),
        Err(NormalizeError::DuplicateField)
    ));
}

#[test]
fn singleton_fields_default_to_empty() {
    let values = vec![XmlValue::Url(sample_url(
        "text/html",
        "https://example.com/search",
    ))];
    let d = normalize(values).unwrap();
    assert_eq!(d.short_name, "");
    assert_eq!(d.description, "");
    assert_eq!(d.urls.len(), 1);
    assert_eq!(d.images.len(), 0);
}

#[test]
fn collects_urls_and_images_in_order() {
    let values = vec![
        XmlValue::Image(sample_image(16, 16, "https://example.com/small.ico")),
        XmlValue::Url(sample_url("text/html", "https://example.com/a")),
        XmlValue::Other,
        XmlValue::Image(sample_image(32, 32, "https://example.com/big.ico")),
        XmlValue::Url(sample_url(
            "application/x-suggestions+json",
            "https://example.com/b",
        )),
        XmlValue::ShortName("Site".to_string()),
        XmlValue::Description("About".to_string()),
    ];
    let d = normalize(values).unwrap();
    assert_eq!(d.short_name, "Site");
    assert_eq!(d.description, "About");
    assert_eq!(d.urls.len(), 2);
    assert_eq!(d.urls[0].mime_type, "text/html");
    assert_eq!(d.urls[1].mime_type, "application/x-suggestions+json");
    assert_eq!(d.images.len(), 2);
    assert_eq!(d.images[0].url, "https://example.com/small.ico");
    assert_eq!(d.images[1].url, "https://example.com/big.ico");
}

#[test]
fn deserialize_xml() {
    let values = vec![
        XmlValue::ShortName("Test".to_string()),
        XmlValue::Image(sample_image(16, 16, "https://example.com/image.ico")),
        XmlValue::Image(sample_image(32, 32, "https://example.com/image.ico")),
        XmlValue::Url(sample_url(
            "text/html",
            "https://example.com/search?q={searchTerms}",
        )),
        XmlValue::Description("Hi there".to_string()),
        XmlValue::Url(sample_url(
            "application/x-suggestions+json",
            "https://example.com/json?q={searchTerms}",
        )),
        XmlValue::Url(sample_url(
            "application/x-suggestions+xml",
            "https://example.com/xml?q={searchTerms}",
        )),
    ];
    let d = normalize(values).unwrap();
    assert_eq!(d.short_name, "Test");
    assert_eq!(d.description, "Hi there");
    assert_eq!(d.images.len(), 2);
    assert_eq!(d.urls.len(), 3);
    assert_eq!(d.urls[0].mime_type, "text/html");
    assert_eq!(d.urls[1].mime_type, "application/x-suggestions+json");
    assert_eq!(d.urls[2].mime_type, "application/x-suggestions+xml");
}

#[test]
fn invalid_mime_type_rejected() {
    assert!(matches!(
        UrlTemplate::new("nonsense", "https://example.com/search"),
        Err(ValueError::InvalidMimeType)
    ));
    assert!(matches!(
        Image::new("nonsense", None, None, "https://example.com/i.ico"),
        Err(ValueError::InvalidMimeType)
    ));
}

#[test]
fn invalid_url_rejected() {
    assert!(matches!(
        UrlTemplate::new("text/html", "not a url"),
        Err(ValueError::InvalidUrl)
    ));
    assert!(matches!(
        Image::new("image/png", Some(1), Some(1), "not a url"),
        Err(ValueError::InvalidUrl)
    ));
}

#[test]
fn mime_type_is_canonicalized() {
    let t = UrlTemplate::new("TEXT/HTML", "https://example.com/search").unwrap();
    assert_eq!(t.mime_type, "text/html");
}

#[test]
fn url_is_canonicalized() {
    let img = Image::new("image/png", None, None, "HTTPS://EXAMPLE.COM/Icon.png").unwrap();
    assert_eq!(img.url, "https://example.com/Icon.png");
    assert_eq!(img.width, None);
    assert_eq!(img.height, None);
}
