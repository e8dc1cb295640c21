//! Locating the descriptor reference inside an already-parsed HTML document.
//!
//! The traversal is deliberately minimal: only the direct children of the
//! document's root element are examined for the first element named `head`,
//! and only that element's direct children are examined for the first link
//! that carries both qualifying attributes. This matches the minimal HTML
//! shape the meta convention relies on, not a general selector search.

use vstd::prelude::*;

use crate::urls::{resolve_url, url_resolve_of};

verus! {

/// Why no descriptor URL came out of the document.
#[derive(Debug, Clone, Copy, PartialEq, Eq, Structural)]
pub enum LocateError {
    /// No qualifying link element exists under the first `head` element.
    NotFound,
    /// The qualifying element carries no `href` attribute.
    MissingAttribute,
    /// The `href` value cannot be resolved against the base URL.
    InvalidUrl,
}

/// One element of the parsed document: its tag name, its attributes in
/// document order, and its direct child elements in document order.
pub struct HtmlElement {
    pub name: String,
    pub attrs: Vec<(String, String)>,
    pub children: Vec<HtmlElement>,
}

/// The value of the first attribute with the given name, if any.
pub open spec fn attr_in(attrs: Seq<(String, String)>, name: Seq<char>) -> Option<Seq<char>>
    decreases attrs.len(),
{
    if attrs.len() == 0 {
        None
    } else if attrs[0].0@ == name {
        Some(attrs[0].1@)
    } else {
        attr_in(attrs.drop_first(), name)
    }
}

/// Whether an element is the link this pipeline looks for: its `rel`
/// attribute is the literal `search` and its `type` attribute is the
/// descriptor MIME type.
pub open spec fn is_search_link(e: HtmlElement) -> bool {
    attr_in(e.attrs@, "rel"@) == Some("search"@) && attr_in(e.attrs@, "type"@) == Some(
        "application/opensearchdescription+xml"@,
    )
}

/// The first element of the sequence named `head`, if any.
pub open spec fn first_head(children: Seq<HtmlElement>) -> Option<HtmlElement>
    decreases children.len(),
{
    if children.len() == 0 {
        None
    } else if children[0].name@ == "head"@ {
        Some(children[0])
    } else {
        first_head(children.drop_first())
    }
}

/// The first qualifying link element of the sequence, if any.
pub open spec fn first_search_link(children: Seq<HtmlElement>) -> Option<HtmlElement>
    decreases children.len(),
{
    if children.len() == 0 {
        None
    } else if is_search_link(children[0]) {
        Some(children[0])
    } else {
        first_search_link(children.drop_first())
    }
}

/// What locating the descriptor URL yields: the first `head` child of the
/// root is searched for the first qualifying link; its `href` is resolved
/// against the base URL. Each way that can fail is its own error.
pub open spec fn locate_model(root: HtmlElement, base: Seq<char>) -> Result<
    Seq<char>,
    LocateError,
> {
    match first_head(root.children@) {
        None => Err(LocateError::NotFound),
        Some(head) => match first_search_link(head.children@) {
            None => Err(LocateError::NotFound),
            Some(link) => match attr_in(link.attrs@, "href"@) {
                None => Err(LocateError::MissingAttribute),
                Some(href) => match url_resolve_of(base, href) {
                    None => Err(LocateError::InvalidUrl),
                    Some(u) => Ok(u),
                },
            },
        },
    }
}

/// String equality by content.
fn str_eq(a: &str, b: &str) -> (r: bool)
    ensures
        r == (a@ == b@),
{
    let owned_a: String = a.to_owned();
    let owned_b: String = b.to_owned();
    owned_a == owned_b
}

impl HtmlElement {
    /// Looks the named attribute up: the value of the first attribute with
    /// that name, if any.
    pub fn attr(&self, name: &str) -> (r: Option<&String>)
        ensures
            match r {
                Some(v) => attr_in(self.attrs@, name@) == Some(v@),
                None => attr_in(self.attrs@, name@) is None,
            },
    {
        let mut i: usize = 0;
        proof {
            assert(self.attrs@.skip(0) =~= self.attrs@);
        }
        while i < self.attrs.len()
            invariant
                i <= self.attrs@.len(),
                attr_in(self.attrs@, name@) == attr_in(self.attrs@.skip(i as int), name@),
            decreases self.attrs@.len() - i,
        {
            let ghost before = self.attrs@.skip(i as int);
            if str_eq(self.attrs[i].0.as_str(), name) {
                return Some(&self.attrs[i].1);
            }
            proof {
                assert(before.drop_first() =~= self.attrs@.skip(i + 1 as int));
            }
            i += 1;
        }
        proof {
            assert(self.attrs@.skip(i as int) =~= Seq::<(String, String)>::empty());
        }
        None
    }
}

/// Whether this element qualifies as the descriptor link.
fn check_search_link(e: &HtmlElement) -> (r: bool)
    ensures
        r == is_search_link(*e),
{
    let rel_ok = match e.attr("rel") {
        Some(v) => str_eq(v.as_str(), "search"),
        None => false,
    };
    if !rel_ok {
        return false;
    }
    match e.attr("type") {
        Some(v) => str_eq(v.as_str(), "application/opensearchdescription+xml"),
        None => false,
    }
}

/// Finds the URL of the descriptor document: the first `head` child of the
/// root element is searched for the first link element whose `rel` is
/// `search` and whose `type` is the descriptor MIME type; that element's
/// `href` is resolved against `base_url`.
#[verifier::loop_isolation(false)]
pub fn locate(root: &HtmlElement, base_url: &str) -> (r: Result<String, LocateError>)
    ensures
        match r {
            Ok(u) => locate_model(*root, base_url@) == Ok::<Seq<char>, LocateError>(u@),
            Err(e) => locate_model(*root, base_url@) == Err::<Seq<char>, LocateError>(e),
        },
{
    let children = &root.children;
    let mut i: usize = 0;
    proof {
        assert(children@.skip(0) =~= children@);
    }
    while i < children.len()
        invariant
            i <= children@.len(),
            first_head(root.children@) == first_head(children@.skip(i as int)),
        decreases children@.len() - i,
    {
        let ghost before = children@.skip(i as int);
        if str_eq(children[i].name.as_str(), "head") {
            let head = &children[i];
            let head_children = &head.children;
            let mut j: usize = 0;
            proof {
                assert(head_children@.skip(0) =~= head_children@);
            }
            while j < head_children.len()
                invariant
                    j <= head_children@.len(),
                    first_head(root.children@) == Some(*head),
                    first_search_link(head.children@) == first_search_link(
                        head_children@.skip(j as int),
                    ),
                decreases head_children@.len() - j,
            {
                let ghost link_before = head_children@.skip(j as int);
                if check_search_link(&head_children[j]) {
                    let link = &head_children[j];
                    match link.attr("href") {
                        None => {
                            return Err(LocateError::MissingAttribute);
                        },
                        Some(href) => match resolve_url(base_url, href.as_str()) {
                            None => {
                                return Err(LocateError::InvalidUrl);
                            },
                            Some(u) => {
                                return Ok(u);
                            },
                        },
                    }
                }
                proof {
                    assert(link_before.drop_first() =~= head_children@.skip(j + 1 as int));
                }
                j += 1;
            }
            proof {
                assert(head_children@.skip(j as int) =~= Seq::<HtmlElement>::empty());
            }
            return Err(LocateError::NotFound);
        }
        proof {
            assert(before.drop_first() =~= children@.skip(i + 1 as int));
        }
        i += 1;
    }
    proof {
        assert(children@.skip(i as int) =~= Seq::<HtmlElement>::empty());
    }
    Err(LocateError::NotFound)
}

} // verus!
