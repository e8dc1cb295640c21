//! Serialization of a descriptor into the target configuration-language
//! literal: an attribute set keyed by the short name, holding the list of URL
//! templates (each with its query re-expressed structurally as `params`), the
//! selected icon, and the description.
//!
//! Quote and backslash characters inside the emitted strings are not escaped:
//! the input strings are taken as pre-safe for the target syntax.

use vstd::prelude::*;
use vstd::string::StringExecFns;

use crate::icon::{select, spec_select};
use crate::model::{Descriptor, Image, UrlTemplate};
use crate::urls::{parse_query_pairs, query_pairs_of};

verus! {

/// The text of one `params` entry.
pub open spec fn emit_pair_text(name: Seq<char>, value: Seq<char>) -> Seq<char> {
    "                {\n"@ + "                    name = \""@ + name + "\";\n"@
        + "                    value = \""@ + value + "\";\n"@ + "                }\n"@
}

/// The text of a `params` list body: one entry per pair, in order.
pub open spec fn emit_pairs_text(pairs: Seq<(Seq<char>, Seq<char>)>) -> Seq<char>
    decreases pairs.len(),
{
    if pairs.len() == 0 {
        Seq::empty()
    } else {
        emit_pairs_text(pairs.drop_last()) + emit_pair_text(pairs.last().0, pairs.last().1)
    }
}

/// The text of the `params` key of one URL entry: built from the decoded
/// pairs of the query string when the template carried one, and omitted
/// entirely (not an empty list) when it did not.
pub open spec fn emit_params_text(query: Option<String>) -> Seq<char> {
    match query {
        Some(q) => "            params = [\n"@ + emit_pairs_text(query_pairs_of(q@))
            + "            ];\n"@,
        None => Seq::empty(),
    }
}

/// The text of one `urls` entry: the template with its query component
/// stripped, the MIME type, and the `params` key when a query was present.
pub open spec fn emit_url_text(u: UrlTemplate) -> Seq<char> {
    "        {\n"@ + "            template = \""@ + u.template.without_query@ + "\";\n"@
        + "            type = \""@ + u.mime_type@ + "\";\n"@ + emit_params_text(u.template.query)
        + "        }\n"@
}

/// The text of the `urls` list body: one entry per template, in their
/// original order.
pub open spec fn emit_urls_text(urls: Seq<UrlTemplate>) -> Seq<char>
    decreases urls.len(),
{
    if urls.len() == 0 {
        Seq::empty()
    } else {
        emit_urls_text(urls.drop_last()) + emit_url_text(urls.last())
    }
}

/// The opening of the emitted attribute set, up to and including the opening
/// of the `urls` list.
pub open spec fn emit_header(d: Descriptor) -> Seq<char> {
    "\""@ + d.short_name@ + "\" = {\n    urls = [\n"@
}

/// The text of the icon key: present exactly when an icon was selected.
pub open spec fn emit_icon_text(icon: Option<Image>) -> Seq<char> {
    match icon {
        Some(img) => "    iconUpdateURL = \""@ + img.url@ + "\";\n"@,
        None => Seq::empty(),
    }
}

/// The closing of the emitted attribute set: the end of the `urls` list, the
/// icon key if any, and the description.
pub open spec fn emit_closing(d: Descriptor, icon: Option<Image>) -> Seq<char> {
    "    ];\n"@ + emit_icon_text(icon) + "    description = \""@ + d.description@ + "\";\n};"@
}

/// The whole emitted text for a descriptor and a selected icon.
pub open spec fn emit_text(d: Descriptor, icon: Option<Image>) -> Seq<char> {
    emit_header(d) + emit_urls_text(d.urls@) + emit_closing(d, icon)
}

/// Law: the emitted text is the header, then the `urls` block, then the
/// closing part, and the `urls` block grows by exactly one entry, at its end,
/// per URL template: its entries correspond one to one, in order, to the
/// descriptor's templates.
pub proof fn lemma_emit_urls_in_order(d: Descriptor, icon: Option<Image>, u: UrlTemplate)
    ensures
        emit_text(d, icon) == emit_header(d) + emit_urls_text(d.urls@) + emit_closing(d, icon),
        emit_urls_text(d.urls@.push(u)) == emit_urls_text(d.urls@) + emit_url_text(u),
{
    assert(d.urls@.push(u).drop_last() =~= d.urls@);
    assert(d.urls@.push(u).last() == u);
}

/// The views of the decoded pairs of a query string.
pub open spec fn pair_views(pairs: Seq<(String, String)>) -> Seq<(Seq<char>, Seq<char>)> {
    Seq::new(pairs.len(), |i: int| (pairs[i].0@, pairs[i].1@))
}

/// Appends the `params` entries for the given decoded pairs.
#[verifier::loop_isolation(false)]
fn emit_pairs(pairs: &Vec<(String, String)>, buf: &mut String)
    ensures
        final(buf)@ == old(buf)@ + emit_pairs_text(pair_views(pairs@)),
{
    let ghost buf0 = buf@;
    let mut i: usize = 0;
    proof {
        assert(pair_views(pairs@.take(0)) =~= Seq::<(Seq<char>, Seq<char>)>::empty());
        assert(buf@ =~= buf0 + emit_pairs_text(pair_views(pairs@.take(0))));
    }
    while i < pairs.len()
        invariant
            i <= pairs@.len(),
            buf@ == buf0 + emit_pairs_text(pair_views(pairs@.take(i as int))),
        decreases pairs@.len() - i,
    {
        buf.append("                {\n");
        buf.append("                    name = \"");
        buf.append(pairs[i].0.as_str());
        buf.append("\";\n");
        buf.append("                    value = \"");
        buf.append(pairs[i].1.as_str());
        buf.append("\";\n");
        buf.append("                }\n");
        proof {
            let pv = pair_views(pairs@.take(i as int));
            let pv1 = pair_views(pairs@.take(i + 1 as int));
            assert(pv1.drop_last() =~= pv);
            assert(pv1.last() == (pairs@[i as int].0@, pairs@[i as int].1@));
            assert(buf@ =~= buf0 + emit_pairs_text(pv1));
        }
        i += 1;
    }
    proof {
        assert(pairs@.take(pairs@.len() as int) =~= pairs@);
    }
}

/// Appends the text of one `urls` entry.
fn emit_url(u: &UrlTemplate, buf: &mut String)
    ensures
        final(buf)@ == old(buf)@ + emit_url_text(*u),
{
    let ghost buf0 = buf@;
    buf.append("        {\n");
    buf.append("            template = \"");
    buf.append(u.template.without_query.as_str());
    buf.append("\";\n");
    buf.append("            type = \"");
    buf.append(u.mime_type.as_str());
    buf.append("\";\n");
    match &u.template.query {
        Some(q) => {
            buf.append("            params = [\n");
            let pairs = parse_query_pairs(q.as_str());
            proof {
                assert(pair_views(pairs@) =~= query_pairs_of(q@));
            }
            emit_pairs(&pairs, buf);
            buf.append("            ];\n");
        },
        None => {},
    }
    buf.append("        }\n");
    proof {
        assert(buf@ =~= buf0 + emit_url_text(*u));
    }
}

/// The selected icon as a value, as the emission specification speaks of it.
pub open spec fn icon_value(icon: Option<&Image>) -> Option<Image> {
    match icon {
        Some(i) => Some(*i),
        None => None,
    }
}

/// Serializes the descriptor with the given selected icon, appending to
/// `buf`. Deterministic, and emits the URL templates in their stored order.
#[verifier::loop_isolation(false)]
pub fn emit_into(d: &Descriptor, icon: Option<&Image>, buf: &mut String)
    ensures
        final(buf)@ == old(buf)@ + emit_text(*d, icon_value(icon)),
{
    let ghost buf0 = buf@;
    buf.append("\"");
    buf.append(d.short_name.as_str());
    buf.append("\" = {\n    urls = [\n");
    proof {
        assert(buf@ =~= buf0 + emit_header(*d));
        assert(emit_urls_text(d.urls@.take(0)) =~= Seq::<char>::empty());
        assert(buf@ =~= buf0 + emit_header(*d) + emit_urls_text(d.urls@.take(0)));
    }
    let mut i: usize = 0;
    while i < d.urls.len()
        invariant
            i <= d.urls@.len(),
            buf@ == buf0 + emit_header(*d) + emit_urls_text(d.urls@.take(i as int)),
        decreases d.urls@.len() - i,
    {
        emit_url(&d.urls[i], buf);
        proof {
            let taken = d.urls@.take(i + 1 as int);
            assert(taken.drop_last() =~= d.urls@.take(i as int));
            assert(taken.last() == d.urls@[i as int]);
            assert(buf@ =~= buf0 + emit_header(*d) + emit_urls_text(taken));
        }
        i += 1;
    }
    proof {
        assert(d.urls@.take(d.urls@.len() as int) =~= d.urls@);
    }
    buf.append("    ];\n");
    match icon {
        Some(img) => {
            buf.append("    iconUpdateURL = \"");
            buf.append(img.url.as_str());
            buf.append("\";\n");
        },
        None => {},
    }
    buf.append("    description = \"");
    buf.append(d.description.as_str());
    buf.append("\";\n};");
    proof {
        assert(buf@ =~= buf0 + emit_text(*d, icon_value(icon)));
    }
}

/// Serializes the descriptor with the given selected icon into a fresh
/// string.
pub fn emit(d: &Descriptor, icon: Option<&Image>) -> (r: String)
    ensures
        r@ == emit_text(*d, icon_value(icon)),
{
    let mut buf = String::new();
    emit_into(d, icon, &mut buf);
    buf
}

impl Descriptor {
    /// Serializes this descriptor, selecting its icon first. A descriptor
    /// destined for emission always defines at least one URL template.
    pub fn into_nix(&self, buf: &mut String)
        requires
            self.urls@.len() >= 1,
        ensures
            final(buf)@ == old(buf)@ + emit_text(*self, spec_select(self.images@)),
    {
        let icon = select(&self.images);
        match &icon {
            Some(img) => emit_into(self, Some(img), buf),
            None => emit_into(self, None, buf),
        }
    }
}

} // verus!
