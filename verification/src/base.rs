//! The node model: children, elements, their well-formedness, the context
//! push, and the recursive serializer.

use vstd::prelude::*;
use vstd::string::StringExecFns;

use crate::attrs::{spec_attrs_html, Attrs};
use crate::context::Context;
use crate::render::{Component, RenderError, Rendered};
use crate::text::{bool_to_string, i64_to_string, join_strings, spec_bool_str, spec_i64_str,
    spec_join};

verus! {

/// Anything that may appear inside an element.

pub enum Child<C> {
    /// Text inserted verbatim; the call site chose not to escape it.
    Unsafe(String),
    /// Text inserted verbatim as already-escaped text.  The distinction from
    /// `Unsafe` is call-site policy only; the serializer treats both alike.
    Safe(String),
    /// An integer, rendered as its decimal text.
    Integer(i64),
    /// The decimal text of a floating-point number; the core never computes
    /// with the number, so it carries the text the caller rendered.
    Float(String),
    /// A boolean, rendered as `true` or `false`.
    Boolean(bool),
    /// An owned nested subtree.
    Element(BaseElement<C>),
    /// An opaque, externally owned component.
    Component(C),
}

/// A concrete markup node: fixed tag name, optional leading header line,
/// void flag, ordered children, attributes, and a context mapping owned by
/// this element and pushed into descendants at serialization time.

pub struct BaseElement<C> {
    pub html_name: String,
    pub html_header: Option<String>,
    pub void_element: bool,
    pub children: Vec<Child<C>>,
    pub attrs: Attrs,
    pub context: Context,
}

/// Nesting height of a child, the termination measure of the recursive
/// walks; components and literals have height zero.
pub open spec fn child_height<C>(c: Child<C>) -> nat
    decreases c,
{
    match c {
        Child::Element(e) => 1 + children_height(e.children@),
        _ => 0,
    }
}

/// Nesting height of a child sequence: the greatest height among them.
pub open spec fn children_height<C>(s: Seq<Child<C>>) -> nat
    decreases s,
{
    if s.len() == 0 {
        0
    } else {
        let hd = child_height(s.last());
        let rest = children_height(s.drop_last());
        if hd > rest {
            hd
        } else {
            rest
        }
    }
}

proof fn lemma_child_height_le<C>(s: Seq<Child<C>>, i: int)
    requires
        0 <= i < s.len(),
    ensures
        child_height(s[i]) <= children_height(s),
    decreases s.len(),
{
    if i == s.len() - 1 {
    } else {
        lemma_child_height_le(s.drop_last(), i);
        assert(s.drop_last()[i] == s[i]);
    }
}

proof fn lemma_heights_pointwise<C>(s0: Seq<Child<C>>, s1: Seq<Child<C>>)
    requires
        s1.len() == s0.len(),
        forall|i: int| 0 <= i < s0.len() ==> child_height(#[trigger] s1[i]) == child_height(
            s0[i],
        ),
    ensures
        children_height(s1) == children_height(s0),
    decreases s0.len(),
{
    if s0.len() > 0 {
        assert(forall|i: int|
            0 <= i < s0.drop_last().len() ==> child_height(#[trigger] s1.drop_last()[i])
                == child_height(s0.drop_last()[i]));
        lemma_heights_pointwise(s0.drop_last(), s1.drop_last());
        assert(child_height(s1.last()) == child_height(s0.last()));
    }
}

/// Structural well-formedness: attribute and context maps have unique keys
/// everywhere in the subtree.
pub open spec fn child_wf<C>(c: Child<C>) -> bool
    decreases c,
{
    match c {
        Child::Element(e) => elem_wf(e),
        _ => true,
    }
}

/// Structural well-formedness of an element (see [`child_wf`]).
pub open spec fn elem_wf<C>(e: BaseElement<C>) -> bool
    decreases e,
{
    &&& e.attrs.wf()
    &&& e.context.wf()
    &&& forall|i: int| 0 <= i < e.children@.len() ==> child_wf(#[trigger] e.children@[i])
}

/// Every component in the subtree satisfies its own invariant.
pub open spec fn child_inv<C: Component>(c: Child<C>) -> bool
    decreases c,
{
    match c {
        Child::Element(e) => elem_inv(e),
        Child::Component(h) => h.inv(),
        _ => true,
    }
}

/// Every component under the element satisfies its own invariant.
pub open spec fn elem_inv<C: Component>(e: BaseElement<C>) -> bool
    decreases e,
{
    forall|i: int| 0 <= i < e.children@.len() ==> child_inv(#[trigger] e.children@[i])
}

/// True when the subtree holds no component anywhere.
pub open spec fn child_concrete<C>(c: Child<C>) -> bool
    decreases c,
{
    match c {
        Child::Element(e) => elem_concrete(e),
        Child::Component(_) => false,
        _ => true,
    }
}

/// True when no descendant of the element is a component.
pub open spec fn elem_concrete<C>(e: BaseElement<C>) -> bool
    decreases e,
{
    forall|i: int| 0 <= i < e.children@.len() ==> child_concrete(#[trigger] e.children@[i])
}

/// A component-free subtree trivially satisfies every component invariant.
pub proof fn lemma_concrete_inv<C: Component>(c: Child<C>)
    requires
        child_concrete(c),
    ensures
        child_inv(c),
    decreases child_height(c), 0int,
{
    match c {
        Child::Element(e) => {
            lemma_concrete_inv_elem(e);
        },
        _ => {},
    }
}

/// A component-free element trivially satisfies every component invariant.
pub proof fn lemma_concrete_inv_elem<C: Component>(e: BaseElement<C>)
    requires
        elem_concrete(e),
    ensures
        elem_inv(e),
    decreases children_height(e.children@), 1int,
{
    assert forall|i: int| 0 <= i < e.children@.len() implies child_inv(
        #[trigger] e.children@[i],
    ) by {
        lemma_child_height_le(e.children@, i);
        lemma_concrete_inv(e.children@[i]);
    }
}

/// Structural equality of two children up to container identity: every
/// observable field is equal, recursively.
pub open spec fn same_tree<C>(a: Child<C>, b: Child<C>) -> bool
    decreases a,
{
    match (a, b) {
        (Child::Element(e0), Child::Element(e1)) => same_elem(e0, e1),
        (x, y) => y == x,
    }
}

/// Structural equality of two elements up to container identity.
pub open spec fn same_elem<C>(e0: BaseElement<C>, e1: BaseElement<C>) -> bool
    decreases e0,
{
    &&& e1.html_name == e0.html_name
    &&& e1.html_header == e0.html_header
    &&& e1.void_element == e0.void_element
    &&& e1.attrs == e0.attrs
    &&& e1.context == e0.context
    &&& e1.children@.len() == e0.children@.len()
    &&& forall|i: int|
        0 <= i < e0.children@.len() ==> same_tree(#[trigger] e0.children@[i], e1.children@[i])
}

/// Structural equality is reflexive.
pub proof fn lemma_same_tree_refl<C>(c: Child<C>)
    ensures
        same_tree(c, c),
    decreases child_height(c), 0int, 0int,
{
    match c {
        Child::Element(e) => {
            lemma_same_elem_refl(e);
        },
        _ => {},
    }
}

/// Structural equality is reflexive.
pub proof fn lemma_same_elem_refl<C>(e: BaseElement<C>)
    ensures
        same_elem(e, e),
    decreases children_height(e.children@), 1int, 0int,
{
    assert forall|i: int| 0 <= i < e.children@.len() implies same_tree(
        #[trigger] e.children@[i],
        e.children@[i],
    ) by {
        lemma_child_height_le(e.children@, i);
        lemma_same_tree_refl(e.children@[i]);
    }
}

/// What one context push leaves behind: literals unchanged, elements
/// unchanged except that the push descends into every grandchild, and a
/// component merged with exactly the pushed mapping — still a component,
/// never expanded further.
pub open spec fn ctx_pushed<C: Component>(
    a: Child<C>,
    b: Child<C>,
    m: Map<Seq<char>, Seq<char>>,
) -> bool
    decreases a,
{
    match (a, b) {
        (Child::Element(e0), Child::Element(e1)) => {
            &&& e1.html_name == e0.html_name
            &&& e1.html_header == e0.html_header
            &&& e1.void_element == e0.void_element
            &&& e1.attrs == e0.attrs
            &&& e1.context == e0.context
            &&& e1.children@.len() == e0.children@.len()
            &&& forall|i: int|
                0 <= i < e0.children@.len() ==> ctx_pushed(
                    #[trigger] e0.children@[i],
                    e1.children@[i],
                    m,
                )
        },
        (Child::Component(h0), Child::Component(h1)) => {
            &&& h1.ctx_map() == h0.ctx_map().union_prefer_right(m)
            &&& h1.inv()
        },
        (x, y) => y == x,
    }
}

proof fn lemma_ctx_pushed_refl<C: Component>(c: Child<C>)
    requires
        child_inv(c),
    ensures
        ctx_pushed(c, c, Map::<Seq<char>, Seq<char>>::empty()),
    decreases child_height(c), 0int,
{
    match c {
        Child::Element(e) => {
            assert forall|i: int| 0 <= i < e.children@.len() implies ctx_pushed(
                #[trigger] e.children@[i],
                e.children@[i],
                Map::<Seq<char>, Seq<char>>::empty(),
            ) by {
                lemma_child_height_le(e.children@, i);
                lemma_ctx_pushed_refl(e.children@[i]);
            }
        },
        Child::Component(h) => {
            assert(h.ctx_map().union_prefer_right(Map::<Seq<char>, Seq<char>>::empty())
                =~= h.ctx_map());
        },
        _ => {},
    }
}

/// The header line: the header text followed by a line break, when present.
pub open spec fn spec_header_part(h: Option<Seq<char>>) -> Seq<char> {
    match h {
        Some(s) => s + seq!['\n'],
        None => Seq::empty(),
    }
}

/// The view of an optional string.
pub open spec fn spec_opt_view(h: Option<String>) -> Option<Seq<char>> {
    match h {
        Some(s) => Some(s@),
        None => None,
    }
}

/// A leading space before nonempty attribute text, nothing otherwise.
pub open spec fn spec_attr_section(a: Seq<char>) -> Seq<char> {
    if a.len() > 0 {
        seq![' '] + a
    } else {
        Seq::empty()
    }
}

/// The opening tag, `<name>` or `<name attrs>`; no trailing space when no
/// attribute survives.
pub open spec fn spec_open_tag<C>(e: BaseElement<C>) -> Seq<char> {
    seq!['<'] + e.html_name@ + spec_attr_section(spec_attrs_html(e.attrs)) + seq!['>']
}

/// The closing tag, `</name>`.
pub open spec fn spec_close_tag<C>(e: BaseElement<C>) -> Seq<char> {
    seq!['<', '/'] + e.html_name@ + seq!['>']
}

/// The serialized text of one child (meaningful for component-free trees;
/// a component's text comes from its render capability instead).
pub open spec fn spec_child_html<C>(c: Child<C>) -> Seq<char>
    decreases c,
{
    match c {
        Child::Unsafe(s) => s@,
        Child::Safe(s) => s@,
        Child::Integer(n) => spec_i64_str(n as int),
        Child::Float(s) => s@,
        Child::Boolean(b) => spec_bool_str(b),
        Child::Element(e) => spec_elem_html(e),
        Child::Component(_) => Seq::empty(),
    }
}

/// The serialized children, concatenated in order.
pub open spec fn spec_children_html<C>(s: Seq<Child<C>>) -> Seq<char>
    decreases s,
{
    if s.len() == 0 {
        Seq::empty()
    } else {
        spec_children_html(s.drop_last()) + spec_child_html(s.last())
    }
}

/// The full serialization of an element: optional header line, opening tag,
/// and — only for non-void elements — the children followed by the closing
/// tag.  A void element's children are ignored entirely.
pub open spec fn spec_elem_html<C>(e: BaseElement<C>) -> Seq<char>
    decreases e,
{
    spec_header_part(spec_opt_view(e.html_header)) + spec_open_tag(e) + if e.void_element {
        Seq::empty()
    } else {
        spec_children_html(e.children@) + spec_close_tag(e)
    }
}

/// Pointwise-equal child texts concatenate to equal children text.
proof fn lemma_children_html_pointwise<C>(s0: Seq<Child<C>>, s1: Seq<Child<C>>)
    requires
        s1.len() == s0.len(),
        forall|i: int| 0 <= i < s0.len() ==> spec_child_html(#[trigger] s1[i]) == spec_child_html(
            s0[i],
        ),
    ensures
        spec_children_html(s1) == spec_children_html(s0),
    decreases s0.len(),
{
    if s0.len() > 0 {
        assert(forall|i: int|
            0 <= i < s0.drop_last().len() ==> spec_child_html(#[trigger] s1.drop_last()[i])
                == spec_child_html(s0.drop_last()[i]));
        lemma_children_html_pointwise(s0.drop_last(), s1.drop_last());
        assert(spec_child_html(s1.last()) == spec_child_html(s0.last()));
    }
}

/// `same_tree` keeps concreteness and the serialized text.
pub proof fn lemma_same_tree_props<C>(a: Child<C>, b: Child<C>)
    requires
        same_tree(a, b),
    ensures
        child_concrete(b) == child_concrete(a),
        spec_child_html(b) == spec_child_html(a),
    decreases child_height(a),
{
    match a {
        Child::Element(e0) => {
            let e1 = b->Element_0;
            assert forall|i: int| 0 <= i < e0.children@.len() implies (child_concrete(
                #[trigger] e1.children@[i],
            ) == child_concrete(e0.children@[i]) && spec_child_html(e1.children@[i])
                == spec_child_html(e0.children@[i])) by {
                lemma_child_height_le(e0.children@, i);
                lemma_same_tree_props(e0.children@[i], e1.children@[i]);
            }
            lemma_children_html_pointwise(e0.children@, e1.children@);
            assert(elem_concrete(e1) == elem_concrete(e0));
        },
        _ => {},
    }
}

/// `same_tree` is transitive.
pub proof fn lemma_same_tree_trans<C>(a: Child<C>, b: Child<C>, c: Child<C>)
    requires
        same_tree(a, b),
        same_tree(b, c),
    ensures
        same_tree(a, c),
    decreases child_height(a),
{
    match a {
        Child::Element(e0) => {
            let e1 = b->Element_0;
            let e2 = c->Element_0;
            assert forall|i: int| 0 <= i < e0.children@.len() implies same_tree(
                #[trigger] e0.children@[i],
                e2.children@[i],
            ) by {
                lemma_child_height_le(e0.children@, i);
                lemma_same_tree_trans(e0.children@[i], e1.children@[i], e2.children@[i]);
            }
        },
        _ => {},
    }
}

impl<C: Component> Child<C> {
    /// Context push, step one of the child resolver: a no-op for an empty
    /// context and for every literal; for a nested element, the push
    /// descends into every grandchild, recursively; for a component, the
    /// context is merged once into the component's own store, and the walk
    /// goes no deeper — the component is not expanded.
    pub fn add_context(&mut self, ctx: &Context) -> (r: Result<(), RenderError>)
        ensures
            child_height(*final(self)) == child_height(*old(self)),
            r matches Err(e) ==> e == RenderError::MissingContextCapability,
            ctx@ == Map::<Seq<char>, Seq<char>>::empty() ==> (r matches Ok(_) && *final(self)
                == *old(self)),
            (child_wf(*old(self)) && child_inv(*old(self))) ==> (child_wf(*final(self))
                && child_inv(*final(self))),
            (child_wf(*old(self)) && child_inv(*old(self))) ==> (r matches Ok(_) ==> ctx_pushed(
                *old(self),
                *final(self),
                ctx@,
            )),
            (child_wf(*old(self)) && child_inv(*old(self)) && child_concrete(*old(self))) ==> (
            r matches Ok(_) && same_tree(*old(self), *final(self))),
        decreases child_height(*old(self)), 0int,
    {
        let empty = ctx.is_empty();
        if empty {
            proof {
                if child_wf(*self) && child_inv(*self) {
                    lemma_ctx_pushed_refl(*self);
                }
                lemma_same_tree_refl(*self);
            }
            return Ok(());
        }
        let mut tmp = Child::Boolean(false);
        core::mem::swap(self, &mut tmp);
        match tmp {
            Child::Element(mut e) => {
                let ghost e0 = e;
                let n = e.children.len();
                let mut i: usize = 0;
                while i < n
                    invariant
                        *old(self) == Child::<C>::Element(e0),
                        n == e0.children@.len(),
                        i <= n,
                        e.html_name == e0.html_name,
                        e.html_header == e0.html_header,
                        e.void_element == e0.void_element,
                        e.attrs == e0.attrs,
                        e.context == e0.context,
                        e.children@.len() == e0.children@.len(),
                        forall|j: int| i <= j < n ==> e.children@[j] == e0.children@[j],
                        forall|j: int|
                            0 <= j < i ==> child_height(#[trigger] e.children@[j]) == child_height(
                                e0.children@[j],
                            ),
                        (child_wf(Child::Element(e0)) && child_inv(Child::Element(e0))) ==> (forall|
                            j: int,
                        |
                            0 <= j < i ==> (ctx_pushed(
                                #[trigger] e0.children@[j],
                                e.children@[j],
                                ctx@,
                            ) && child_wf(e.children@[j]) && child_inv(e.children@[j]))),
                        (child_wf(Child::Element(e0)) && child_inv(Child::Element(e0))
                            && child_concrete(Child::Element(e0))) ==> (forall|j: int|
                            0 <= j < i ==> same_tree(
                                #[trigger] e0.children@[j],
                                e.children@[j],
                            )),
                    decreases n - i,
                {
                    proof {
                        lemma_child_height_le(e0.children@, i as int);
                    }
                    let ghost kids0 = e.children@;
                    let child = &mut e.children[i];
                    let ghost c0 = *child;
                    let res = child.add_context(ctx);
                    let ghost c2 = *child;
                    proof {
                        assert(c0 == e0.children@[i as int]);
                        assert(e.children@ =~= kids0.update(i as int, c2));
                        assert(child_height(c2) == child_height(c0));
                        assert(forall|j: int|
                            0 <= j < n && j != i ==> e.children@[j] == kids0[j]);
                    }
                    match res {
                        Ok(_) => {},
                        Err(err) => {
                            let out = Child::Element(e);
                            proof {
                                assert(child_height(out->Element_0.children@[i as int])
                                    == child_height(e0.children@[i as int]));
                                lemma_heights_pointwise_prefix(
                                    e0.children@,
                                    out->Element_0.children@,
                                    i as int,
                                );
                                if child_wf(*old(self)) && child_inv(*old(self)) {
                                    assert(child_wf(c0) && child_inv(c0));
                                    assert(child_wf(c2) && child_inv(c2));
                                    assert forall|j: int| 0 <= j < n implies (child_wf(
                                        #[trigger] out->Element_0.children@[j],
                                    ) && child_inv(out->Element_0.children@[j])) by {
                                        if j < i {
                                            assert(ctx_pushed(
                                                e0.children@[j],
                                                out->Element_0.children@[j],
                                                ctx@,
                                            ) && child_wf(out->Element_0.children@[j]) && child_inv(
                                                out->Element_0.children@[j],
                                            ));
                                        } else if j == i {
                                        } else {
                                            assert(out->Element_0.children@[j]
                                                == e0.children@[j]);
                                            assert(child_wf(e0.children@[j]) && child_inv(
                                                e0.children@[j],
                                            ));
                                        }
                                    }
                                }
                            }
                            *self = out;
                            return Err(err);
                        },
                    }
                    i = i + 1;
                }
                let out = Child::Element(e);
                proof {
                    lemma_heights_pointwise(e0.children@, out->Element_0.children@);
                    if child_wf(*old(self)) && child_inv(*old(self)) {
                        assert(ctx_pushed(*old(self), out, ctx@));
                        if child_concrete(*old(self)) {
                            assert(same_tree(*old(self), out));
                        }
                    }
                }
                *self = out;
                Ok(())
            },
            Child::Component(mut h) => {
                let ok = h.update_context(ctx);
                let out = Child::Component(h);
                *self = out;
                if ok {
                    Ok(())
                } else {
                    Err(RenderError::MissingContextCapability)
                }
            },
            other => {
                *self = other;
                Ok(())
            },
        }
    }

    /// Encodes one child, step two of the child resolver: literals render
    /// to their text, a nested element serializes in full, and a component
    /// is resolved by a single render call whose result must be text.
    pub fn to_html(&mut self) -> (r: Result<String, RenderError>)
        ensures
            (child_wf(*old(self)) && child_inv(*old(self))) ==> (child_wf(*final(self))
                && child_inv(*final(self))),
            (child_wf(*old(self)) && child_inv(*old(self)) && child_concrete(*old(self))) ==> (
            r matches Ok(s) && s@ == spec_child_html(*old(self)) && same_tree(
                *old(self),
                *final(self),
            )),
        decreases child_height(*old(self)), 0int,
    {
        match self {
            Child::Unsafe(s) => Ok(s.clone()),
            Child::Safe(s) => Ok(s.clone()),
            Child::Integer(n) => Ok(i64_to_string(*n)),
            Child::Float(s) => Ok(s.clone()),
            Child::Boolean(b) => Ok(bool_to_string(*b)),
            Child::Element(e) => {
                proof {
                    assert(*old(self) == Child::Element(*e));
                }
                e.to_html()
            },
            Child::Component(h) => {
                let step = h.render();
                match step {
                    None => Err(RenderError::MissingRenderCapability),
                    Some(Rendered::Text(s)) => Ok(s),
                    Some(_) => Err(RenderError::NonStringRenderResult),
                }
            },
        }
    }
}

proof fn lemma_heights_pointwise_prefix<C>(s0: Seq<Child<C>>, s1: Seq<Child<C>>, i: int)
    requires
        s1.len() == s0.len(),
        0 <= i < s0.len(),
        forall|j: int| 0 <= j <= i ==> child_height(#[trigger] s1[j]) == child_height(s0[j]),
        forall|j: int| i < j < s0.len() ==> s1[j] == s0[j],
    ensures
        children_height(s1) == children_height(s0),
{
    assert(forall|j: int|
        0 <= j < s0.len() ==> child_height(#[trigger] s1[j]) == child_height(s0[j]));
    lemma_heights_pointwise(s0, s1);
}

impl<C: Component> BaseElement<C> {
    /// One child exactly, and that child is not a nested element.
    pub fn is_simple(&self) -> (r: bool)
        ensures
            r == (self.children@.len() == 1 && !(self.children@[0] is Element)),
    {
        if self.children.len() != 1 {
            return false;
        }
        let c = &self.children[0];
        match c {
            Child::Element(_) => false,
            _ => true,
        }
    }

    /// True when the attribute map holds any pair at all, surviving or not.
    pub fn has_attributes(&self) -> (r: bool)
        ensures
            r == (self.attrs.values@.len() != 0),
    {
        !self.attrs.is_empty()
    }

    /// Serializes the children in order, pushing this element's context
    /// into each child immediately before that child is encoded.  Empty for
    /// a void element, whose children are never serialized.
    pub fn format_children(&mut self) -> (r: Result<String, RenderError>)
        ensures
            final(self).html_name == old(self).html_name,
            final(self).html_header == old(self).html_header,
            final(self).void_element == old(self).void_element,
            final(self).attrs == old(self).attrs,
            final(self).context == old(self).context,
            final(self).children@.len() == old(self).children@.len(),
            old(self).void_element ==> (r matches Ok(s) && s@ == Seq::<char>::empty()
                && *final(self) == *old(self)),
            (elem_wf(*old(self)) && elem_inv(*old(self))) ==> (elem_wf(*final(self)) && elem_inv(
                *final(self),
            )),
            (elem_wf(*old(self)) && elem_inv(*old(self)) && elem_concrete(*old(self))) ==> (
            r matches Ok(s) && s@ == (if old(self).void_element {
                Seq::<char>::empty()
            } else {
                spec_children_html(old(self).children@)
            }) && same_elem(*old(self), *final(self)) && elem_concrete(*final(self))),
            (elem_wf(*old(self)) && elem_inv(*old(self)) && (r matches Err(_))) ==> !elem_concrete(
                *old(self),
            ),
        decreases children_height(old(self).children@), 1int,
    {
        if self.void_element {
            proof {
                lemma_same_elem_refl(*self);
            }
            return Ok(String::new());
        }
        let ghost e0 = *self;
        let ghost we = elem_wf(e0) && elem_inv(e0);
        let mut out = String::new();
        let n = self.children.len();
        let mut i: usize = 0;
        while i < n
            invariant
                e0 == *old(self),
                we == (elem_wf(e0) && elem_inv(e0)),
                !e0.void_element,
                n == e0.children@.len(),
                i <= n,
                self.html_name == e0.html_name,
                self.html_header == e0.html_header,
                self.void_element == e0.void_element,
                self.attrs == e0.attrs,
                self.context == e0.context,
                self.children@.len() == e0.children@.len(),
                forall|j: int| i <= j < n ==> self.children@[j] == e0.children@[j],
                we ==> (forall|j: int|
                    0 <= j < i ==> (child_wf(#[trigger] self.children@[j]) && child_inv(
                        self.children@[j],
                    ))),
                (we && elem_concrete(e0)) ==> (out@ == spec_children_html(
                    e0.children@.take(i as int),
                ) && forall|j: int|
                    0 <= j < i ==> same_tree(#[trigger] e0.children@[j], self.children@[j])),
            decreases n - i,
        {
            proof {
                lemma_child_height_le(e0.children@, i as int);
            }
            let ghost kids0 = self.children@;
            let child = &mut self.children[i];
            let ghost c0 = *child;
            let res = child.add_context(&self.context);
            let ghost c1 = *child;
            proof {
                assert(c0 == e0.children@[i as int]);
                assert(self.children@ =~= kids0.update(i as int, c1));
                assert(forall|j: int| 0 <= j < n && j != i ==> self.children@[j] == kids0[j]);
                if we {
                    assert(child_wf(c0) && child_inv(c0));
                    assert(child_wf(c1) && child_inv(c1));
                    assert forall|j: int| 0 <= j < n implies (child_wf(
                        #[trigger] self.children@[j],
                    ) && child_inv(self.children@[j])) by {
                        if j < i {
                            assert(child_wf(kids0[j]) && child_inv(kids0[j]));
                        } else if j == i {
                        } else {
                            assert(self.children@[j] == e0.children@[j]);
                            assert(child_wf(e0.children@[j]) && child_inv(e0.children@[j]));
                        }
                    }
                }
                if we && elem_concrete(e0) {
                    assert(child_concrete(c0));
                    assert(same_tree(c0, c1));
                    lemma_same_tree_props(c0, c1);
                    assert(child_concrete(c1));
                    lemma_concrete_inv(c1);
                }
            }
            match res {
                Ok(_) => {},
                Err(err) => {
                    return Err(err);
                },
            }
            let ghost kids1 = self.children@;
            let child2 = &mut self.children[i];
            let rhtml = child2.to_html();
            let ghost c2 = *child2;
            proof {
                assert(self.children@ =~= kids1.update(i as int, c2));
                assert(forall|j: int| 0 <= j < n && j != i ==> self.children@[j] == kids1[j]);
                if we {
                    assert(child_wf(c2) && child_inv(c2));
                    assert forall|j: int| 0 <= j < n implies (child_wf(
                        #[trigger] self.children@[j],
                    ) && child_inv(self.children@[j])) by {
                        if j < i {
                            assert(child_wf(kids1[j]) && child_inv(kids1[j]));
                        } else if j == i {
                        } else {
                            assert(self.children@[j] == kids1[j]);
                            assert(child_wf(kids1[j]) && child_inv(kids1[j]));
                        }
                    }
                }
            }
            let piece = match rhtml {
                Ok(s) => s,
                Err(err) => {
                    return Err(err);
                },
            };
            out.append(piece.as_str());
            proof {
                if we && elem_concrete(e0) {
                    assert(child_concrete(c0));
                    assert(same_tree(c0, c1));
                    lemma_same_tree_props(c0, c1);
                    assert(child_concrete(c1));
                    lemma_concrete_inv(c1);
                    assert(same_tree(c1, c2));
                    lemma_same_tree_trans(c0, c1, c2);
                    lemma_same_tree_props(c0, c2);
                    assert(piece@ == spec_child_html(c0));
                    assert(e0.children@.take(i + 1).drop_last() =~= e0.children@.take(i as int));
                    assert(e0.children@.take(i + 1).last() == e0.children@[i as int]);
                }
            }
            i = i + 1;
        }
        proof {
            if we {
                if elem_concrete(e0) {
                    assert(e0.children@.take(n as int) =~= e0.children@);
                    assert(same_elem(e0, *self));
                    assert forall|j: int| 0 <= j < n implies child_concrete(
                        #[trigger] self.children@[j],
                    ) by {
                        lemma_same_tree_props(e0.children@[j], self.children@[j]);
                    }
                    assert(elem_concrete(*self));
                }
                assert(elem_wf(*self));
                assert(elem_inv(*self));
            }
        }
        Ok(out)
    }

    /// The combined attribute-and-classes text: the attribute encoding,
    /// then — when `classes` is nonempty — a `class="..."` pair holding the
    /// space-joined class names, the two separated by a space when both are
    /// present.
    pub fn format_attributes(&self, classes: &Vec<String>) -> (r: String)
        ensures
            r@ == spec_attrs_with_classes(self.attrs, classes.deep_view()),
    {
        let a = self.attrs.to_html();
        if classes.len() == 0 {
            return a;
        }
        let joined = join_strings(classes, " ");
        proof {
            reveal_strlit(" ");
            assert(" "@ =~= seq![' ']);
        }
        let cls = "class=\"".to_owned().concat(joined.as_str()).concat("\"");
        proof {
            reveal_strlit("class=\"");
            reveal_strlit("\"");
            assert(cls@ =~= seq!['c', 'l', 'a', 's', 's', '=', '"'] + spec_join(
                classes.deep_view(),
                seq![' '],
            ) + seq!['"']);
        }
        if a.as_str().is_empty() {
            cls
        } else {
            let r = a.concat(" ").concat(cls.as_str());
            proof {
                assert(r@ =~= spec_attrs_html(self.attrs) + seq![' '] + cls@);
            }
            r
        }
    }

    /// The short display form (see [`spec_elem_repr`]): the opening tag,
    /// an ellipsis standing for any children, and the closing tag unless
    /// the element is void.  Unlike serialization, the attribute section
    /// appears whenever the attribute map holds any pair at all, even one
    /// that encodes to nothing.
    pub fn __repr__(&self) -> (r: String)
        ensures
            r@ == spec_elem_repr(*self),
    {
        let mut tag = String::new();
        tag.append("<");
        tag.append(self.html_name.as_str());
        if self.has_attributes() {
            tag.append(" ");
            let a = self.attrs.to_html();
            tag.append(a.as_str());
        }
        tag.append(">");
        if !self.void_element {
            if self.children.len() != 0 {
                tag.append("...");
            }
            tag.append("</");
            tag.append(self.html_name.as_str());
            tag.append(">");
        }
        proof {
            reveal_strlit("<");
            reveal_strlit(" ");
            reveal_strlit(">");
            reveal_strlit("...");
            reveal_strlit("</");
            assert(tag@ =~= spec_elem_repr(*self));
        }
        tag
    }

    /// The full serialization: optional header line, opening tag with the
    /// surviving attributes, and — only when the element is not void — the
    /// serialized children followed by the closing tag.  A void element
    /// emits nothing after `>`, whatever its children list holds.
    pub fn to_html(&mut self) -> (r: Result<String, RenderError>)
        ensures
            final(self).html_name == old(self).html_name,
            final(self).html_header == old(self).html_header,
            final(self).void_element == old(self).void_element,
            final(self).attrs == old(self).attrs,
            final(self).context == old(self).context,
            final(self).children@.len() == old(self).children@.len(),
            old(self).void_element ==> (r matches Ok(s) && s@ == spec_elem_html(*old(self))
                && *final(self) == *old(self)),
            (elem_wf(*old(self)) && elem_inv(*old(self))) ==> (elem_wf(*final(self)) && elem_inv(
                *final(self),
            )),
            (elem_wf(*old(self)) && elem_inv(*old(self)) && elem_concrete(*old(self))) ==> (
            r matches Ok(s) && s@ == spec_elem_html(*old(self)) && same_elem(
                *old(self),
                *final(self),
            )),
            r matches Ok(s) ==> !old(self).void_element ==> (exists|body: Seq<char>|
                s@ == spec_header_part(spec_opt_view(old(self).html_header)) + spec_open_tag(
                    *old(self),
                ) + body + spec_close_tag(*old(self))),
            (elem_wf(*old(self)) && elem_inv(*old(self)) && (r matches Err(_))) ==> !elem_concrete(
                *old(self),
            ),
        decreases children_height(old(self).children@), 2int,
    {
        let mut out = String::new();
        match &self.html_header {
            Some(h) => {
                out.append(h.as_str());
                out.append("\n");
            },
            None => {},
        }
        out.append("<");
        out.append(self.html_name.as_str());
        let a = self.attrs.to_html();
        if !a.as_str().is_empty() {
            out.append(" ");
            out.append(a.as_str());
        }
        out.append(">");
        proof {
            reveal_strlit("\n");
            reveal_strlit("<");
            reveal_strlit(" ");
            reveal_strlit(">");
            assert(out@ =~= spec_header_part(spec_opt_view(self.html_header)) + spec_open_tag(
                *self,
            ));
        }
        if self.void_element {
            proof {
                lemma_same_elem_refl(*self);
                assert(out@ =~= spec_elem_html(*old(self)));
            }
            return Ok(out);
        }
        let ghost prefix = out@;
        let kids = match self.format_children() {
            Ok(s) => s,
            Err(err) => {
                return Err(err);
            },
        };
        out.append(kids.as_str());
        out.append("</");
        out.append(self.html_name.as_str());
        out.append(">");
        proof {
            reveal_strlit("</");
            reveal_strlit(">");
            assert(out@ =~= prefix + kids@ + spec_close_tag(*old(self)));
            if elem_wf(*old(self)) && elem_inv(*old(self)) && elem_concrete(*old(self)) {
                assert(out@ =~= spec_elem_html(*old(self)));
            }
            assert(out@ == spec_header_part(spec_opt_view(old(self).html_header)) + spec_open_tag(
                *old(self),
            ) + kids@ + spec_close_tag(*old(self))) by {
                assert(out@ =~= spec_header_part(spec_opt_view(old(self).html_header))
                    + spec_open_tag(*old(self)) + kids@ + spec_close_tag(*old(self)));
            }
        }
        Ok(out)
    }
}

/// The short display form of an element: the opening tag — with a space
/// and the attribute text whenever the attribute map holds any pair at all,
/// surviving or not — then, for a non-void element, an ellipsis standing
/// for any children, and the closing tag.
pub open spec fn spec_elem_repr<C>(e: BaseElement<C>) -> Seq<char> {
    seq!['<'] + e.html_name@ + (if e.attrs.values@.len() != 0 {
        seq![' '] + spec_attrs_html(e.attrs)
    } else {
        Seq::empty()
    }) + seq!['>'] + (if e.void_element {
        Seq::empty()
    } else {
        (if e.children@.len() != 0 {
            seq!['.', '.', '.']
        } else {
            Seq::empty()
        }) + spec_close_tag(e)
    })
}

/// The attribute text combined with accumulated class names: the attribute
/// encoding alone for an empty class list; otherwise a `class="..."` pair of
/// the space-joined names, preceded by the attribute encoding and a space
/// when any attribute survives.
pub open spec fn spec_attrs_with_classes(a: Attrs, classes: Seq<Seq<char>>) -> Seq<char> {
    if classes.len() == 0 {
        spec_attrs_html(a)
    } else {
        let cls = seq!['c', 'l', 'a', 's', 's', '=', '"'] + spec_join(classes, seq![' '])
            + seq!['"'];
        if spec_attrs_html(a).len() == 0 {
            cls
        } else {
            spec_attrs_html(a) + seq![' '] + cls
        }
    }
}

} // verus!
