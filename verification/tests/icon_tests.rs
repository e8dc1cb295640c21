use opensearch_nix::icon::select;
use opensearch_nix::model::Image;

fn img(mime: &str, w: Option<u16>, h: Option<u16>, url: &str) -> Image {
    Image::new(mime, w, h, url).unwrap()
}

#[test]
fn image_equality_compares_all_four_fields() {
    let a = img(
        "image/x-icon",
        Some(16),
        Some(16),
        "https://example.com/i.ico",
    );
    let b = img(
        "image/x-icon",
        Some(16),
        Some(16),
        "https://example.com/i.ico",
    );
    let c = img(
        "image/x-icon",
        Some(16),
        Some(32),
        "https://example.com/i.ico",
    );
    assert!(a == b);
    assert!(a != c);
}

#[test]
fn select_over_empty_is_none() {
    let images: Vec<Image> = Vec::new();
    assert!(select(&images).is_none());
}

#[test]
fn select_single_is_that_element() {
    let images = vec![img(
        "image/png",
        Some(1),
        Some(1),
        "https://example.com/only.png",
    )];
    let picked = select(&images).unwrap();
    assert_eq!(picked.url, "https://example.com/only.png");
}

#[test]
fn select_prefers_larger_area_of_same_type() {
    let images = vec![
        img(
            "image/x-icon",
            Some(16),
            Some(16),
            "https://example.com/small.ico",
        ),
        img(
            "image/x-icon",
            Some(32),
            Some(32),
            "https://example.com/big.ico",
        ),
    ];
    let picked = select(&images).unwrap();
    assert_eq!(picked.url, "https://example.com/big.ico");
    assert_eq!(picked.width, Some(32));
}

#[test]
fn select_order_does_not_matter_within_one_type() {
    let images = vec![
        img(
            "image/x-icon",
            Some(32),
            Some(32),
            "https://example.com/big.ico",
        ),
        img(
            "image/x-icon",
            Some(16),
            Some(16),
            "https://example.com/small.ico",
        ),
    ];
    let picked = select(&images).unwrap();
    assert_eq!(picked.url, "https://example.com/big.ico");
}

#[test]
fn missing_dimensions_count_as_zero() {
    let images = vec![
        img("image/png", None, Some(64), "https://example.com/no-width.png"),
        img("image/png", Some(1), Some(1), "https://example.com/tiny.png"),
    ];
    let picked = select(&images).unwrap();
    assert_eq!(picked.url, "https://example.com/tiny.png");
}

#[test]
fn largest_declared_size_is_handled() {
    let images = vec![
        img(
            "image/png",
            Some(1),
            Some(1),
            "https://example.com/tiny.png",
        ),
        img(
            "image/png",
            Some(u16::MAX),
            Some(u16::MAX),
            "https://example.com/huge.png",
        ),
    ];
    let picked = select(&images).unwrap();
    assert_eq!(picked.url, "https://example.com/huge.png");
}

#[test]
fn differing_types_keep_encounter_order() {
    // Images of differing MIME types compare as equal, so a stable sort keeps
    // their relative order: the first-encountered type stays in front even
    // though a bigger image of another type exists.
    let images = vec![
        img(
            "image/png",
            Some(16),
            Some(16),
            "https://example.com/first.png",
        ),
        img(
            "image/x-icon",
            Some(32),
            Some(32),
            "https://example.com/mid.ico",
        ),
        img(
            "image/x-icon",
            Some(64),
            Some(64),
            "https://example.com/large.ico",
        ),
    ];
    let picked = select(&images).unwrap();
    assert_eq!(picked.url, "https://example.com/first.png");
}
