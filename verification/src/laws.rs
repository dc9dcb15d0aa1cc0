//! Crate-level laws: facts that relate the encoders, the serializer and the
//! driver to one another, proved once and for all inputs.

use vstd::prelude::*;

use crate::attrs::{spec_attr_parts, spec_attr_value_html, spec_attrs_html, AttrValue, Attrs};
use crate::base::{elem_concrete, elem_wf, spec_attrs_with_classes, spec_elem_html, spec_open_tag,
    BaseElement};
use crate::render::{spec_driver_output, Component};
use crate::text::spec_join;

verus! {

/// A void element's serialization ignores its children entirely: two void
/// elements that agree on everything but their children (and context)
/// serialize to the same text.
pub proof fn lemma_void_ignores_children<C>(e1: BaseElement<C>, e2: BaseElement<C>)
    requires
        e1.void_element,
        e2.html_name == e1.html_name,
        e2.html_header == e1.html_header,
        e2.void_element == e1.void_element,
        e2.attrs == e1.attrs,
    ensures
        spec_elem_html(e2) == spec_elem_html(e1),
{
}

proof fn lemma_all_empty_attr_parts(ps: Seq<(String, AttrValue)>)
    requires
        forall|i: int|
            0 <= i < ps.len() ==> spec_attr_value_html(#[trigger] ps[i].1).len() == 0,
    ensures
        spec_attr_parts(ps) == Seq::<Seq<char>>::empty(),
    decreases ps.len(),
{
    if ps.len() > 0 {
        assert(spec_attr_value_html(ps[ps.len() - 1].1).len() == 0);
        assert(forall|i: int|
            0 <= i < ps.drop_last().len() ==> spec_attr_value_html(
                #[trigger] ps.drop_last()[i].1,
            ).len() == 0);
        lemma_all_empty_attr_parts(ps.drop_last());
    }
}

/// When every attribute value encodes to the empty string — for example a
/// map of all-false booleans — the whole attribute encoding is empty, and
/// the opening tag is `<name>` with no trailing space.
pub proof fn lemma_all_empty_attrs_vanish<C>(e: BaseElement<C>)
    requires
        forall|i: int|
            0 <= i < e.attrs.values@.len() ==> spec_attr_value_html(
                #[trigger] e.attrs.values@[i].1,
            ).len() == 0,
    ensures
        spec_attrs_html(e.attrs) == Seq::<char>::empty(),
        spec_open_tag(e) == seq!['<'] + e.html_name@ + seq!['>'],
{
    lemma_all_empty_attr_parts(e.attrs.values@);
    assert(spec_attrs_html(e.attrs) == Seq::<char>::empty());
    assert(spec_open_tag(e) =~= seq!['<'] + e.html_name@ + seq!['>']);
}

/// Rendering an already-concrete element tree through the fixed-point
/// driver yields exactly the direct serializer's text.  The one exception
/// is the sentinel tag `__hidden__`, which the driver leaves unwrapped: the
/// premise rules it out.
pub proof fn lemma_driver_matches_direct<C: Component>(e: BaseElement<C>)
    requires
        elem_concrete(e),
        elem_wf(e),
        e.html_name@ != "__hidden__"@,
    ensures
        spec_driver_output::<BaseElement<C>>(e) == spec_elem_html(e),
{
    assert(e.attrs_view(e.class_view()) == spec_attrs_with_classes(e.attrs, Seq::empty()));
    assert(spec_attrs_with_classes(e.attrs, Seq::empty()) == spec_attrs_html(e.attrs));
    if e.void_element {
        assert(e.children_view() == Seq::<char>::empty());
        assert(spec_driver_output::<BaseElement<C>>(e) =~= spec_elem_html(e));
    } else {
        assert(spec_driver_output::<BaseElement<C>>(e) =~= spec_elem_html(e));
    }
}

} // verus!
