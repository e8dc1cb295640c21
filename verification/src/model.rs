//! The validated descriptor model: images, URL templates, and the descriptor
//! itself, together with the MIME-type validation their constructors perform.

use vstd::prelude::*;

use crate::urls::{parse_url_parts, url_parse_of, UrlParts};

verus! {

/// Why a raw image or URL-template record was rejected.
#[derive(Debug, Clone, Copy, PartialEq, Eq, Structural)]
pub enum ValueError {
    /// The `type` field does not parse as a MIME type.
    InvalidMimeType,
    /// The URL does not parse as an absolute URL.
    InvalidUrl,
}

/// What parsing a MIME-type string yields: `None` when the string does not
/// parse, and otherwise its canonical (lowercased) display form.
pub uninterp spec fn mime_canon_of(s: Seq<char>) -> Option<Seq<char>>;

/// Relies on the `FromStr` and `Display` impls of `mime::Mime`: the parsed,
/// lowercased form of a MIME-type string depends on that string alone.
#[verifier::external_body]
pub(crate) fn canon_mime(s: &str) -> (r: Option<String>)
    ensures
        match r {
            Some(c) => mime_canon_of(s@) == Some(c@),
            None => mime_canon_of(s@) is None,
        },
{
    match s.parse::<mime::Mime>() {
        Ok(m) => Some(m.to_string()),
        Err(_) => None,
    }
}

/// One icon candidate of the descriptor. `mime_type` holds the canonical form
/// of its MIME type, `url` the canonical serialization of its absolute URL;
/// a missing dimension means the size is unknown.
pub struct Image {
    pub mime_type: String,
    pub width: Option<u16>,
    pub height: Option<u16>,
    pub url: String,
}

impl Image {
    /// Validates a raw image record. The MIME type must parse and the URL must
    /// be absolute; both are stored in canonical form.
    pub fn new(mime_type: &str, width: Option<u16>, height: Option<u16>, url: &str) -> (r: Result<
        Image,
        ValueError,
    >)
        ensures
            match r {
                Ok(img) => {
                    &&& mime_canon_of(mime_type@) matches Some(c) && img.mime_type@ == c
                    &&& url_parse_of(url@) matches Some(p) && img.url@ == p.0
                    &&& img.width == width
                    &&& img.height == height
                },
                Err(ValueError::InvalidMimeType) => mime_canon_of(mime_type@) is None,
                Err(ValueError::InvalidUrl) => mime_canon_of(mime_type@) is Some && url_parse_of(
                    url@,
                ) is None,
            },
    {
        match canon_mime(mime_type) {
            None => Err(ValueError::InvalidMimeType),
            Some(canon) => match parse_url_parts(url) {
                None => Err(ValueError::InvalidUrl),
                Some(parts) => Ok(Image { mime_type: canon, width, height, url: parts.full }),
            },
        }
    }
}

impl PartialEq for Image {
    /// Two images are equal exactly when all four fields are equal.
    fn eq(&self, other: &Image) -> (r: bool) {
        self.mime_type == other.mime_type && self.width == other.width && self.height
            == other.height && self.url == other.url
    }
}

impl vstd::std_specs::cmp::PartialEqSpecImpl for Image {
    open spec fn obeys_eq_spec() -> bool {
        true
    }

    open spec fn eq_spec(&self, other: &Image) -> bool {
        self.mime_type@ == other.mime_type@ && self.width == other.width && self.height
            == other.height && self.url@ == other.url@
    }
}

impl Clone for Image {
    fn clone(&self) -> (r: Self)
        ensures
            r == *self,
    {
        Image {
            mime_type: self.mime_type.clone(),
            width: self.width,
            height: self.height,
            url: self.url.clone(),
        }
    }
}

/// One search URL template of the descriptor. `mime_type` holds the canonical
/// form of the result MIME type, `template` the parsed pieces of the template
/// URL.
pub struct UrlTemplate {
    pub mime_type: String,
    pub template: UrlParts,
}

impl UrlTemplate {
    /// Validates a raw URL-template record. The MIME type must parse and the
    /// template must be an absolute URL.
    pub fn new(mime_type: &str, template: &str) -> (r: Result<UrlTemplate, ValueError>)
        ensures
            match r {
                Ok(t) => {
                    &&& mime_canon_of(mime_type@) matches Some(c) && t.mime_type@ == c
                    &&& url_parse_of(template@) == Some(t.template.model())
                },
                Err(ValueError::InvalidMimeType) => mime_canon_of(mime_type@) is None,
                Err(ValueError::InvalidUrl) => mime_canon_of(mime_type@) is Some && url_parse_of(
                    template@,
                ) is None,
            },
    {
        match canon_mime(mime_type) {
            None => Err(ValueError::InvalidMimeType),
            Some(canon) => match parse_url_parts(template) {
                None => Err(ValueError::InvalidUrl),
                Some(parts) => Ok(UrlTemplate { mime_type: canon, template: parts }),
            },
        }
    }
}

/// The validated descriptor: display name, description, icon candidates in
/// the order encountered, and the search URL templates in the order
/// encountered.
pub struct Descriptor {
    pub short_name: String,
    pub description: String,
    pub images: Vec<Image>,
    pub urls: Vec<UrlTemplate>,
}

} // verus!
