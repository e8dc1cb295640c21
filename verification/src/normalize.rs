//! Normalization of the flat tagged-value sequence read from the descriptor
//! document into the strict descriptor model, enforcing the cardinality
//! rules: at most one short name, at most one description, at least one URL
//! template.

use vstd::prelude::*;

use crate::model::{Descriptor, Image, UrlTemplate};

verus! {

/// Failures of the normalization pass that builds a descriptor out of the
/// flat tagged-value sequence read from the descriptor document.
#[derive(Debug, Clone, Copy, PartialEq, Eq, Structural)]
pub enum NormalizeError {
    /// More than one short-name or more than one description element appeared.
    DuplicateField,
    /// The descriptor defines no search URL template at all.
    NoUrlsDefined,
}

/// One tagged value of the loosely-structured descriptor document, one per
/// child element of its root, in document order. Elements this pipeline does
/// not use arrive as `Other` and are dropped silently.
pub enum XmlValue {
    ShortName(String),
    Description(String),
    Image(Image),
    Url(UrlTemplate),
    Other,
}

/// The short-name payloads of the sequence, in order.
pub open spec fn short_names(s: Seq<XmlValue>) -> Seq<String>
    decreases s.len(),
{
    if s.len() == 0 {
        Seq::empty()
    } else {
        short_names(s.drop_last()) + (match s.last() {
            XmlValue::ShortName(v) => seq![v],
            _ => Seq::empty(),
        })
    }
}

/// The description payloads of the sequence, in order.
pub open spec fn descriptions(s: Seq<XmlValue>) -> Seq<String>
    decreases s.len(),
{
    if s.len() == 0 {
        Seq::empty()
    } else {
        descriptions(s.drop_last()) + (match s.last() {
            XmlValue::Description(v) => seq![v],
            _ => Seq::empty(),
        })
    }
}

/// The image payloads of the sequence, in order.
pub open spec fn image_values(s: Seq<XmlValue>) -> Seq<Image>
    decreases s.len(),
{
    if s.len() == 0 {
        Seq::empty()
    } else {
        image_values(s.drop_last()) + (match s.last() {
            XmlValue::Image(v) => seq![v],
            _ => Seq::empty(),
        })
    }
}

/// The URL-template payloads of the sequence, in order.
pub open spec fn url_values(s: Seq<XmlValue>) -> Seq<UrlTemplate>
    decreases s.len(),
{
    if s.len() == 0 {
        Seq::empty()
    } else {
        url_values(s.drop_last()) + (match s.last() {
            XmlValue::Url(v) => seq![v],
            _ => Seq::empty(),
        })
    }
}

/// Whether the sequence normalizes without error: no duplicated singleton
/// field, and at least one URL template.
pub open spec fn normalize_ok(s: Seq<XmlValue>) -> bool {
    short_names(s).len() <= 1 && descriptions(s).len() <= 1 && url_values(s).len() >= 1
}

/// The payload projections distribute over concatenation.
pub proof fn lemma_projections_concat(a: Seq<XmlValue>, b: Seq<XmlValue>)
    ensures
        short_names(a + b) == short_names(a) + short_names(b),
        descriptions(a + b) == descriptions(a) + descriptions(b),
        image_values(a + b) == image_values(a) + image_values(b),
        url_values(a + b) == url_values(a) + url_values(b),
    decreases b.len(),
{
    if b.len() == 0 {
        assert(a + b =~= a);
        assert(short_names(a + b) =~= short_names(a) + short_names(b));
        assert(descriptions(a + b) =~= descriptions(a) + descriptions(b));
        assert(image_values(a + b) =~= image_values(a) + image_values(b));
        assert(url_values(a + b) =~= url_values(a) + url_values(b));
    } else {
        lemma_projections_concat(a, b.drop_last());
        assert((a + b).drop_last() =~= a + b.drop_last());
        assert((a + b).last() == b.last());
        assert(short_names(a + b) =~= short_names(a) + short_names(b));
        assert(descriptions(a + b) =~= descriptions(a) + descriptions(b));
        assert(image_values(a + b) =~= image_values(a) + image_values(b));
        assert(url_values(a + b) =~= url_values(a) + url_values(b));
    }
}

/// Builds the validated descriptor out of the tagged values, by one pass in
/// document order: URL templates and images are collected in order, the two
/// singleton fields may be set once each and default to the empty string.
///
/// Law: a sequence with two or more short names, or two or more descriptions,
/// always fails with the duplicate-field error, regardless of other content.
/// Law: a sequence without duplicated singleton fields and with no URL
/// template at all always fails with the no-URLs error.
#[verifier::loop_isolation(false)]
pub fn normalize(values: Vec<XmlValue>) -> (r: Result<Descriptor, NormalizeError>)
    ensures
        r is Ok <==> normalize_ok(values@),
        (r matches Err(NormalizeError::DuplicateField)) <==> (short_names(values@).len() >= 2
            || descriptions(values@).len() >= 2),
        (r matches Err(NormalizeError::NoUrlsDefined)) <==> (short_names(values@).len() <= 1
            && descriptions(values@).len() <= 1 && url_values(values@).len() == 0),
        r matches Ok(d) ==> {
            &&& d.urls@ == url_values(values@)
            &&& d.images@ == image_values(values@)
            &&& if short_names(values@).len() == 1 {
                d.short_name == short_names(values@)[0]
            } else {
                d.short_name@ == Seq::<char>::empty()
            }
            &&& if descriptions(values@).len() == 1 {
                d.description == descriptions(values@)[0]
            } else {
                d.description@ == Seq::<char>::empty()
            }
        },
{
    let ghost all = values@;
    let mut rest = values;
    let ghost mut done: Seq<XmlValue> = Seq::empty();
    let mut short_name: Option<String> = None;
    let mut description: Option<String> = None;
    let mut images: Vec<Image> = Vec::new();
    let mut urls: Vec<UrlTemplate> = Vec::new();
    proof {
        assert(done + rest@ =~= all);
        assert(short_names(done) =~= Seq::<String>::empty());
        assert(descriptions(done) =~= Seq::<String>::empty());
        assert(image_values(done) =~= Seq::<Image>::empty());
        assert(url_values(done) =~= Seq::<UrlTemplate>::empty());
    }
    while rest.len() > 0
        invariant
            all == done + rest@,
            images@ == image_values(done),
            urls@ == url_values(done),
            match short_name {
                Some(s) => short_names(done) == seq![s],
                None => short_names(done).len() == 0,
            },
            match description {
                Some(s) => descriptions(done) == seq![s],
                None => descriptions(done).len() == 0,
            },
        decreases rest@.len(),
    {
        let ghost rest_before = rest@;
        let v = rest.remove(0);
        let ghost vg = v;
        proof {
            assert(rest_before =~= seq![vg] + rest@);
            assert(done.push(vg).drop_last() =~= done);
            assert(done.push(vg).last() == vg);
        }
        match v {
            XmlValue::Url(u) => urls.push(u),
            XmlValue::Image(img) => images.push(img),
            XmlValue::ShortName(s) => {
                if short_name.is_some() {
                    proof {
                        lemma_projections_concat(done.push(vg), rest@);
                        assert(done.push(vg) + rest@ =~= all);
                        assert(short_names(done.push(vg)).len() == 2);
                    }
                    return Err(NormalizeError::DuplicateField);
                }
                short_name = Some(s);
            },
            XmlValue::Description(s) => {
                if description.is_some() {
                    proof {
                        lemma_projections_concat(done.push(vg), rest@);
                        assert(done.push(vg) + rest@ =~= all);
                        assert(descriptions(done.push(vg)).len() == 2);
                    }
                    return Err(NormalizeError::DuplicateField);
                }
                description = Some(s);
            },
            XmlValue::Other => {},
        }
        proof {
            assert(short_names(done.push(vg)) =~= short_names(done) + (match vg {
                XmlValue::ShortName(x) => seq![x],
                _ => Seq::<String>::empty(),
            }));
            done = done.push(vg);
            assert(done + rest@ =~= all);
            if short_names(done).len() == 1 {
                assert(short_names(done) =~= seq![short_names(done)[0]]);
            }
            if descriptions(done).len() == 1 {
                assert(descriptions(done) =~= seq![descriptions(done)[0]]);
            }
        }
    }
    proof {
        assert(done =~= all);
    }
    if urls.len() == 0 {
        return Err(NormalizeError::NoUrlsDefined);
    }
    let final_short_name = match short_name {
        Some(s) => s,
        None => String::new(),
    };
    let final_description = match description {
        Some(s) => s,
        None => String::new(),
    };
    Ok(
        Descriptor {
            short_name: final_short_name,
            description: final_description,
            images,
            urls,
        },
    )
}

} // verus!
