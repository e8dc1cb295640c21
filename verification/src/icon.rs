//! Selection of the representative icon among the descriptor's image
//! candidates.
//!
//! The comparison rule is deliberately weak: it orders two images only when
//! they share a MIME type (larger declared area first) and reports any two
//! images of differing MIME types as equal. A stable sort under this rule
//! keeps the encounter order across type boundaries, so with several MIME
//! types present the first-encountered image of whatever type ends up first
//! wins. Callers may depend on that behaviour, so it is reproduced here
//! rather than replaced by a total order.

use vstd::prelude::*;

use crate::model::Image;

verus! {

/// The declared area of an image, with 0 substituted for a missing dimension.
pub open spec fn area(img: Image) -> int {
    (match img.width {
        Some(w) => w as int,
        None => 0,
    }) * (match img.height {
        Some(h) => h as int,
        None => 0,
    })
}

/// Whether two images share a MIME type; only then does the comparison rule
/// order them.
pub open spec fn same_mime(a: Image, b: Image) -> bool {
    a.mime_type@ == b.mime_type@
}

/// Whether the comparison rule puts `a` strictly after `b`: same MIME type
/// and strictly smaller declared area.
pub open spec fn sorts_after(a: Image, b: Image) -> bool {
    same_mime(a, b) && area(a) < area(b)
}

/// Stable insertion of `x` into an already-sorted sequence: `x` moves past
/// exactly the trailing run of elements that sort after it.
pub open spec fn insert_image(s: Seq<Image>, x: Image) -> Seq<Image>
    decreases s.len(),
{
    if s.len() == 0 {
        seq![x]
    } else if sorts_after(s.last(), x) {
        insert_image(s.drop_last(), x).push(s.last())
    } else {
        s.push(x)
    }
}

/// Stable insertion sort of the image sequence under the weak comparison
/// rule.
pub open spec fn sort_images(s: Seq<Image>) -> Seq<Image>
    decreases s.len(),
{
    if s.len() == 0 {
        Seq::empty()
    } else {
        insert_image(sort_images(s.drop_last()), s.last())
    }
}

/// The selection: the head of the sorted sequence, absent when there are no
/// candidates at all.
pub open spec fn spec_select(s: Seq<Image>) -> Option<Image> {
    if s.len() == 0 {
        None
    } else {
        Some(sort_images(s)[0])
    }
}

/// Inserting never loses or gains elements.
pub proof fn lemma_insert_image_len(s: Seq<Image>, x: Image)
    ensures
        insert_image(s, x).len() == s.len() + 1,
    decreases s.len(),
{
    if s.len() > 0 && sorts_after(s.last(), x) {
        lemma_insert_image_len(s.drop_last(), x);
    }
}

/// Sorting keeps the number of elements.
pub proof fn lemma_sort_images_len(s: Seq<Image>)
    ensures
        sort_images(s).len() == s.len(),
    decreases s.len(),
{
    if s.len() > 0 {
        lemma_sort_images_len(s.drop_last());
        lemma_insert_image_len(sort_images(s.drop_last()), s.last());
    }
}

/// Sorting a single-element sequence leaves it unchanged.
pub proof fn lemma_sort_single(img: Image)
    ensures
        sort_images(seq![img]) == seq![img],
{
    let s = seq![img];
    assert(s.drop_last() =~= Seq::<Image>::empty());
    assert(sort_images(Seq::<Image>::empty()) =~= Seq::<Image>::empty());
    assert(insert_image(Seq::<Image>::empty(), img) =~= seq![img]);
    assert(sort_images(s) =~= seq![img]);
}

/// Law: over a single-element collection the selection is that element,
/// unconditionally.
pub proof fn lemma_select_single(img: Image)
    ensures
        spec_select(seq![img]) == Some(img),
{
    lemma_sort_single(img);
}

/// Law: of two images that share a MIME type, the one with the larger
/// declared area is selected, whatever order they arrive in.
pub proof fn lemma_select_pair_larger_area(a: Image, b: Image)
    requires
        same_mime(a, b),
        area(a) < area(b),
    ensures
        spec_select(seq![a, b]) == Some(b),
        spec_select(seq![b, a]) == Some(b),
{
    lemma_sort_single(a);
    lemma_sort_single(b);
    let s = seq![a, b];
    assert(s.drop_last() =~= seq![a]);
    assert(seq![a].last() == a && seq![a].drop_last() =~= Seq::<Image>::empty());
    assert(insert_image(Seq::<Image>::empty(), b) =~= seq![b]);
    assert(insert_image(seq![a], b) =~= seq![b, a]);
    assert(sort_images(s) =~= seq![b, a]);
    let t = seq![b, a];
    assert(t.drop_last() =~= seq![b]);
    assert(insert_image(seq![b], a) =~= seq![b, a]);
    assert(sort_images(t) =~= seq![b, a]);
}

/// Whether every image of the sequence declares the MIME type `m`.
pub open spec fn all_mime(s: Seq<Image>, m: Seq<char>) -> bool {
    forall|i: int| 0 <= i < s.len() ==> (#[trigger] s[i]).mime_type@ == m
}

/// Whether the sequence is ordered by non-increasing declared area.
pub open spec fn sorted_desc(s: Seq<Image>) -> bool {
    forall|i: int, j: int| 0 <= i <= j < s.len() ==> area(s[i]) >= area(s[j])
}

/// Inserting keeps the collection's contents: the result holds exactly the
/// old elements and the new one.
pub proof fn lemma_insert_image_multiset(s: Seq<Image>, x: Image)
    ensures
        insert_image(s, x).to_multiset() == s.to_multiset().insert(x),
    decreases s.len(),
{
    broadcast use vstd::seq_lib::group_to_multiset_ensures;

    if s.len() == 0 {
        assert(insert_image(s, x) =~= Seq::<Image>::empty().push(x));
        assert(s =~= Seq::<Image>::empty());
    } else if sorts_after(s.last(), x) {
        lemma_insert_image_multiset(s.drop_last(), x);
        assert(insert_image(s, x) == insert_image(s.drop_last(), x).push(s.last()));
        assert(insert_image(s, x).to_multiset() =~= s.drop_last().to_multiset().insert(x).insert(
            s.last(),
        ));
        assert(s.drop_last().push(s.last()) =~= s);
        assert(s.to_multiset() =~= s.drop_last().to_multiset().insert(s.last()));
        assert(s.drop_last().to_multiset().insert(x).insert(s.last())
            =~= s.drop_last().to_multiset().insert(s.last()).insert(x));
    } else {
        assert(insert_image(s, x) == s.push(x));
    }
}

/// Among images of one MIME type, stable insertion keeps the sequence ordered
/// by non-increasing area.
pub proof fn lemma_insert_image_sorted(s: Seq<Image>, x: Image, m: Seq<char>)
    requires
        all_mime(s, m),
        x.mime_type@ == m,
        sorted_desc(s),
    ensures
        sorted_desc(insert_image(s, x)),
        all_mime(insert_image(s, x), m),
    decreases s.len(),
{
    broadcast use vstd::seq_lib::group_to_multiset_ensures;

    let r = insert_image(s, x);
    lemma_insert_image_len(s, x);
    if s.len() == 0 {
        assert(r =~= seq![x]);
    } else if sorts_after(s.last(), x) {
        assert(forall|i: int| 0 <= i < s.len() - 1 ==> s.drop_last()[i] == s[i]);
        lemma_insert_image_sorted(s.drop_last(), x, m);
        lemma_insert_image_multiset(s.drop_last(), x);
        let inner = insert_image(s.drop_last(), x);
        assert(r == inner.push(s.last()));
        assert forall|i: int| 0 <= i < inner.len() implies area(inner[i]) >= area(s.last()) by {
            assert(inner.contains(inner[i]));
            assert(inner.to_multiset().count(inner[i]) > 0);
            if inner[i] == x {
                assert(area(x) > area(s.last()));
            } else {
                assert(s.drop_last().to_multiset().count(inner[i]) > 0);
                assert(s.drop_last().contains(inner[i]));
                let j = choose|j: int|
                    0 <= j < s.drop_last().len() && s.drop_last()[j] == inner[i];
                assert(s[j] == inner[i]);
                assert(area(s[j]) >= area(s.last()));
            }
        }
        assert(forall|i: int| 0 <= i < inner.len() ==> r[i] == inner[i]);
        assert(r.last() == s.last());
    } else {
        assert(r == s.push(x));
        assert(area(s.last()) >= area(x));
        assert(forall|i: int| 0 <= i < s.len() ==> r[i] == s[i]);
        assert(forall|i: int| 0 <= i < s.len() ==> area(s[i]) >= area(s.last()));
    }
}

/// Among images of one MIME type, sorting orders by non-increasing area and
/// keeps exactly the input elements.
pub proof fn lemma_sort_images_sorted(s: Seq<Image>, m: Seq<char>)
    requires
        all_mime(s, m),
    ensures
        sorted_desc(sort_images(s)),
        all_mime(sort_images(s), m),
        sort_images(s).to_multiset() == s.to_multiset(),
    decreases s.len(),
{
    broadcast use vstd::seq_lib::group_to_multiset_ensures;

    if s.len() == 0 {
        assert(sort_images(s) =~= Seq::<Image>::empty());
        assert(sort_images(s).to_multiset() =~= s.to_multiset());
    } else {
        assert(forall|i: int| 0 <= i < s.len() - 1 ==> s.drop_last()[i] == s[i]);
        lemma_sort_images_sorted(s.drop_last(), m);
        lemma_insert_image_sorted(sort_images(s.drop_last()), s.last(), m);
        lemma_insert_image_multiset(sort_images(s.drop_last()), s.last());
        assert(s.drop_last().push(s.last()) =~= s);
        assert(sort_images(s).to_multiset() =~= s.to_multiset());
    }
}

/// Law: when every candidate declares one and the same MIME type, an icon is
/// selected, it declares that type, and its declared area is at least that of
/// every candidate.
pub proof fn lemma_select_max_area_same_mime(s: Seq<Image>, m: Seq<char>, i: int)
    requires
        all_mime(s, m),
        0 <= i < s.len(),
    ensures
        spec_select(s) matches Some(img) && area(img) >= area(s[i]) && img.mime_type@ == m,
{
    broadcast use vstd::seq_lib::group_to_multiset_ensures;

    lemma_sort_images_len(s);
    lemma_sort_images_sorted(s, m);
    let sorted = sort_images(s);
    assert(s.contains(s[i]));
    assert(s.to_multiset().count(s[i]) > 0);
    assert(sorted.contains(s[i]));
    let j = choose|j: int| 0 <= j < sorted.len() && sorted[j] == s[i];
    assert(area(sorted[0]) >= area(sorted[j]));
}

/// The declared area, computed without overflow.
fn area_value(img: &Image) -> (r: u32)
    ensures
        r as int == area(*img),
{
    let w: u32 = match img.width {
        Some(w) => w as u32,
        None => 0,
    };
    let h: u32 = match img.height {
        Some(h) => h as u32,
        None => 0,
    };
    proof {
        assert(w * h <= 0xffff * 0xffff) by (nonlinear_arith)
            requires
                w <= 0xffff,
                h <= 0xffff,
        ;
    }
    w * h
}

/// Whether the comparison rule puts `a` strictly after `b`.
fn sorts_after_value(a: &Image, b: &Image) -> (r: bool)
    ensures
        r == sorts_after(*a, *b),
{
    if a.mime_type == b.mime_type {
        area_value(a) < area_value(b)
    } else {
        false
    }
}

/// Stable insertion of `x` into the sorted vector, mirroring `insert_image`.
fn insert_sorted(v: &mut Vec<Image>, x: Image)
    ensures
        final(v)@ == insert_image(old(v)@, x),
    decreases old(v)@.len(),
{
    if v.len() == 0 {
        v.push(x);
        assert(v@ =~= seq![x]);
    } else {
        let after = sorts_after_value(&v[v.len() - 1], &x);
        assert(v@.last() == v@[v@.len() - 1]);
        if after {
            let last = v.pop().unwrap();
            insert_sorted(v, x);
            v.push(last);
        } else {
            v.push(x);
        }
    }
}

/// Picks the representative icon: the head of the stable sort of the
/// candidates under the weak comparison rule, or nothing when there are no
/// candidates.
pub fn select(images: &Vec<Image>) -> (r: Option<Image>)
    ensures
        r == spec_select(images@),
        r is Some <==> images@.len() > 0,
{
    let mut sorted: Vec<Image> = Vec::new();
    let mut i: usize = 0;
    assert(images@.take(0) =~= Seq::<Image>::empty());
    while i < images.len()
        invariant
            i <= images@.len(),
            sorted@ == sort_images(images@.take(i as int)),
        decreases images@.len() - i,
    {
        let ghost prefix = images@.take(i as int);
        insert_sorted(&mut sorted, images[i].clone());
        proof {
            let next = images@.take(i + 1 as int);
            assert(next.drop_last() =~= prefix);
            assert(next.last() == images@[i as int]);
        }
        i += 1;
    }
    proof {
        assert(images@.take(images@.len() as int) =~= images@);
        lemma_sort_images_len(images@);
    }
    if sorted.len() == 0 {
        None
    } else {
        Some(sorted.remove(0))
    }
}

} // verus!
