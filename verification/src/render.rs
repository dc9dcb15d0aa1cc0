//! The component capability set and the fixed-point render driver.

use vstd::prelude::*;
use vstd::string::StringExecFns;

use crate::base::{elem_concrete, elem_inv, elem_wf, lemma_concrete_inv_elem, spec_attr_section,
    spec_attrs_with_classes, spec_children_html, spec_header_part, spec_opt_view, BaseElement};
use crate::context::Context;
use crate::text::append_all;

verus! {

/// The closed set of failures the core can report.  Every kind aborts the
/// serialization that raised it; there is no partial output and no recovery.
#[derive(Clone, Copy, Debug, PartialEq, Eq, Structural)]
pub enum RenderError {
    /// An external value matched no recognized attribute-value kind at the
    /// conversion boundary.
    UnsupportedAttrValueKind,
    /// A component (or a driver root) exposes no render capability.
    MissingRenderCapability,
    /// A component exposes no context store, or no update operation on it,
    /// during context propagation or chain merging.
    MissingContextCapability,
    /// A component's render, where text was needed, returned something that
    /// cannot be treated as text.
    NonStringRenderResult,
}

/// What a render capability produced.
pub enum Rendered<C> {
    /// The same identity as the object that was asked to render: a fixed
    /// point has been reached.
    Same,
    /// Text; accepted where a component stands as a child, rejected by the
    /// driver, which needs an object.
    Text(String),
    /// A concrete element.
    Node(BaseElement<C>),
    /// Another capability-bearing object: one more link in the chain.
    Next(C),
}

/// The capability set of a renderable object.  Concrete elements implement
/// it, and so do user-defined components; the driver speaks to both through
/// it.  The spec functions are the object's abstract state: its context
/// store, its class list, and — for an object whose output is a function of
/// its state (`is_concrete`) — the pieces of its formatted output.
pub trait Component: Sized {
    /// The implementor's own validity invariant.
    open spec fn inv(&self) -> bool {
        true
    }

    /// True when the object is already fully resolved: its render reaches a
    /// fixed point at once, and every formatting capability below is a
    /// function of its state.
    open spec fn is_concrete(&self) -> bool {
        false
    }

    /// The object's context store, as a map.
    open spec fn ctx_map(&self) -> Map<Seq<char>, Seq<char>> {
        Map::empty()
    }

    /// The object's class list.
    open spec fn class_view(&self) -> Seq<Seq<char>> {
        Seq::empty()
    }

    /// The tag name piece of the output.
    open spec fn tag_view(&self) -> Seq<char> {
        Seq::empty()
    }

    /// The optional leading header line.
    open spec fn header_view(&self) -> Option<Seq<char>> {
        None
    }

    /// The void (self-closing) flag.
    open spec fn void_view(&self) -> bool {
        false
    }

    /// The formatted-children text.
    open spec fn children_view(&self) -> Seq<char> {
        Seq::empty()
    }

    /// The combined attribute-and-classes text for a given class list.
    open spec fn attrs_view(&self, classes: Seq<Seq<char>>) -> Seq<char> {
        Seq::empty()
    }

    /// An upper bound on the number of expansion links the object can still
    /// produce.  The driver's loop terminates because every render that
    /// hands back a new object strictly decreases this bound: that is the
    /// caller's termination obligation, stated as a measure.
    open spec fn expansion_bound(&self) -> nat {
        0
    }

    /// The render capability.  `None` when the object has no such
    /// capability.  An already-resolved object returns `Same` and is left
    /// unchanged.
    fn render(&mut self) -> (r: Option<Rendered<Self>>)
        ensures
            old(self).inv() ==> final(self).inv(),
            old(self).is_concrete() ==> (r == Some(Rendered::<Self>::Same) && *final(self)
                == *old(self)),
            r matches Some(Rendered::Next(c)) ==> c.expansion_bound() < old(
                self,
            ).expansion_bound(),
    ;

    /// The object's context store, copied out.
    fn context(&self) -> (r: Context)
        ensures
            self.is_concrete() ==> r@ == self.ctx_map(),
    ;

    /// Merge-overwrite of `delta` into the object's own context store;
    /// `false` when the object has no such store or no update operation,
    /// in which case the object is unchanged.
    fn update_context(&mut self, delta: &Context) -> (r: bool)
        ensures
            final(self).expansion_bound() == old(self).expansion_bound(),
            old(self).inv() ==> final(self).inv(),
            (old(self).inv() && r) ==> final(self).ctx_map() == old(self).ctx_map()
                .union_prefer_right(delta@),
            !r ==> *final(self) == *old(self),
    ;

    /// The object's class list, copied out.
    fn classes(&self) -> (r: Vec<String>)
        ensures
            self.is_concrete() ==> r.deep_view() == self.class_view(),
    ;

    /// The tag name.
    fn tag_name(&self) -> (r: String)
        ensures
            self.is_concrete() ==> r@ == self.tag_view(),
    ;

    /// The optional header line.
    fn header(&self) -> (r: Option<String>)
        ensures
            self.is_concrete() ==> spec_opt_view(r) == self.header_view(),
    ;

    /// The void flag.
    fn is_void(&self) -> (r: bool)
        ensures
            self.is_concrete() ==> r == self.void_view(),
    ;

    /// Formats the object's children as text.
    fn format_children(&mut self) -> (r: Result<String, RenderError>)
        ensures
            old(self).inv() ==> final(self).inv(),
            old(self).is_concrete() ==> (r matches Ok(s) && s@ == old(self).children_view()),
    ;

    /// Formats the object's attributes combined with the accumulated class
    /// names.
    fn format_attrs(&self, classes: &Vec<String>) -> (r: String)
        ensures
            self.is_concrete() ==> r@ == self.attrs_view(classes.deep_view()),
    ;
}

impl<C: Component> Component for BaseElement<C> {
    open spec fn inv(&self) -> bool {
        elem_wf(*self) && elem_inv(*self)
    }

    open spec fn is_concrete(&self) -> bool {
        elem_concrete(*self) && elem_wf(*self)
    }

    open spec fn ctx_map(&self) -> Map<Seq<char>, Seq<char>> {
        self.context@
    }

    open spec fn class_view(&self) -> Seq<Seq<char>> {
        Seq::empty()
    }

    open spec fn tag_view(&self) -> Seq<char> {
        self.html_name@
    }

    open spec fn header_view(&self) -> Option<Seq<char>> {
        spec_opt_view(self.html_header)
    }

    open spec fn void_view(&self) -> bool {
        self.void_element
    }

    open spec fn children_view(&self) -> Seq<char> {
        if self.void_element {
            Seq::empty()
        } else {
            spec_children_html(self.children@)
        }
    }

    open spec fn attrs_view(&self, classes: Seq<Seq<char>>) -> Seq<char> {
        spec_attrs_with_classes(self.attrs, classes)
    }

    /// An element never hands back a further link.
    open spec fn expansion_bound(&self) -> nat {
        0
    }

    /// A concrete element is its own fixed point.
    fn render(&mut self) -> (r: Option<Rendered<Self>>) {
        Some(Rendered::Same)
    }

    fn context(&self) -> (r: Context) {
        self.context.duplicate()
    }

    fn update_context(&mut self, delta: &Context) -> (r: bool) {
        self.context.update(delta);
        true
    }

    /// An element carries no class list of its own; its classes live in its
    /// attribute map and are emitted there.
    fn classes(&self) -> (r: Vec<String>) {
        let r: Vec<String> = Vec::new();
        proof {
            assert(r.deep_view() =~= Seq::<Seq<char>>::empty());
        }
        r
    }

    fn tag_name(&self) -> (r: String) {
        self.html_name.clone()
    }

    fn header(&self) -> (r: Option<String>) {
        match &self.html_header {
            Some(h) => Some(h.clone()),
            None => None,
        }
    }

    fn is_void(&self) -> (r: bool) {
        self.void_element
    }

    fn format_children(&mut self) -> (r: Result<String, RenderError>) {
        proof {
            if elem_concrete(*self) {
                lemma_concrete_inv_elem(*self);
            }
        }
        BaseElement::format_children(self)
    }

    fn format_attrs(&self, classes: &Vec<String>) -> (r: String) {
        self.format_attributes(classes)
    }
}

/// What the driver's expansion loop resolved the root to: either an object
/// that reported itself a fixed point, or a concrete element a link in the
/// chain produced.
enum Resolved<C> {
    Comp(C),
    Elem(BaseElement<C>),
}

/// Runs the expansion loop: renders `current` repeatedly until it reports a
/// fixed point (`Same`), merging each link's context into the next object
/// and appending each new link's classes onto the shared accumulator.  When
/// the root is already resolved, exactly one render happens and nothing is
/// merged or appended.  Termination is the caller's obligation: a chain
/// that never reaches a fixed point loops forever, as documented.
fn resolve_loop<C: Component>(root: C, classes: &mut Vec<String>) -> (r: Result<
    Resolved<C>,
    RenderError,
>)
    ensures
        root.is_concrete() ==> (r matches Ok(x) && x == Resolved::<C>::Comp(root)
            && *final(classes) == *old(classes)),
{
    let mut current = root;
    loop
        invariant
            root.is_concrete() ==> (current == root && *classes == *old(classes)),
        decreases current.expansion_bound(),
    {
        let step = current.render();
        match step {
            None => {
                return Err(RenderError::MissingRenderCapability);
            },
            Some(Rendered::Same) => {
                return Ok(Resolved::Comp(current));
            },
            Some(Rendered::Text(_)) => {
                // A bare string has no context store to merge into.
                return Err(RenderError::MissingContextCapability);
            },
            Some(Rendered::Node(mut e)) => {
                // The new link is a concrete element: push the current
                // object's context into it; an element contributes no class
                // list of its own.  An element is its own fixed point, so
                // the chain ends here.
                let delta = current.context();
                e.context.update(&delta);
                return Ok(Resolved::Elem(e));
            },
            Some(Rendered::Next(mut c)) => {
                let delta = current.context();
                let ok = c.update_context(&delta);
                if !ok {
                    return Err(RenderError::MissingContextCapability);
                }
                let cl = c.classes();
                append_all(classes, &cl);
                current = c;
            },
        }
    }
}

/// The pieces of a resolved object assembled into the final text, exactly
/// as [`format_resolved`] emits them: the formatted children alone for the
/// sentinel tag `__hidden__`; otherwise the optional header line, the
/// opening tag with the combined attribute text, and — unless the children
/// text is empty and the node is void — the children text and the closing
/// tag.
pub open spec fn spec_format_resolved(
    header: Option<Seq<char>>,
    tag: Seq<char>,
    void: bool,
    attrs: Seq<char>,
    children: Seq<char>,
) -> Seq<char> {
    if tag == "__hidden__"@ {
        children
    } else {
        spec_header_part(header) + seq!['<'] + tag + spec_attr_section(attrs) + (if children.len()
            == 0 && void {
            seq!['>']
        } else {
            seq!['>'] + children + seq!['<', '/'] + tag + seq!['>']
        })
    }
}

/// Assembles the final output from a resolved object's pieces.
fn format_resolved(
    header: Option<String>,
    tag: String,
    void: bool,
    attrs: String,
    children: String,
) -> (r: String)
    ensures
        r@ == spec_format_resolved(spec_opt_view(header), tag@, void, attrs@, children@),
{
    let hidden = "__hidden__".to_owned();
    if tag == hidden {
        return children;
    }
    let mut out = String::new();
    match &header {
        Some(h) => {
            out.append(h.as_str());
            out.append("\n");
        },
        None => {},
    }
    out.append("<");
    out.append(tag.as_str());
    if !attrs.as_str().is_empty() {
        out.append(" ");
        out.append(attrs.as_str());
    }
    proof {
        reveal_strlit("\n");
        reveal_strlit("<");
        reveal_strlit(" ");
        assert(out@ =~= spec_header_part(spec_opt_view(header)) + seq!['<'] + tag@
            + spec_attr_section(attrs@));
    }
    if children.as_str().is_empty() && void {
        out.append(">");
        proof {
            reveal_strlit(">");
            assert(out@ =~= spec_format_resolved(
                spec_opt_view(header),
                tag@,
                void,
                attrs@,
                children@,
            ));
        }
        out
    } else {
        out.append(">");
        out.append(children.as_str());
        out.append("</");
        out.append(tag.as_str());
        out.append(">");
        proof {
            reveal_strlit(">");
            reveal_strlit("</");
            assert(out@ =~= spec_format_resolved(
                spec_opt_view(header),
                tag@,
                void,
                attrs@,
                children@,
            ));
        }
        out
    }
}

/// The driver's output for an object whose pieces are functions of its
/// state, with the class accumulator holding only the object's own classes.
pub open spec fn spec_driver_output<C: Component>(c: C) -> Seq<char> {
    spec_format_resolved(
        c.header_view(),
        c.tag_view(),
        c.void_view(),
        c.attrs_view(c.class_view()),
        c.children_view(),
    )
}

/// The fixed-point render driver.  Seeds the class accumulator from the
/// root's own class list, expands the root until a render reports the same
/// identity back, merging each link's context into the next object and
/// collecting every link's classes, then formats the resolved node.  When
/// the root is already resolved (`is_concrete`), one render happens, no
/// merge, and the output is the root's own pieces.
pub fn to_html<C: Component>(root: C) -> (r: Result<String, RenderError>)
    ensures
        root.is_concrete() ==> (r matches Ok(s) && s@ == spec_driver_output(root)),
{
    let mut classes = root.classes();
    let resolved = match resolve_loop(root, &mut classes) {
        Ok(x) => x,
        Err(e) => {
            return Err(e);
        },
    };
    match resolved {
        Resolved::Comp(mut c) => {
            let header = c.header();
            let tag = c.tag_name();
            let void = c.is_void();
            let attrs = c.format_attrs(&classes);
            let children = match c.format_children() {
                Ok(s) => s,
                Err(e) => {
                    return Err(e);
                },
            };
            Ok(format_resolved(header, tag, void, attrs, children))
        },
        Resolved::Elem(mut e) => {
            let header = e.header();
            let tag = e.tag_name();
            let void = Component::is_void(&e);
            let attrs = e.format_attrs(&classes);
            let children = match BaseElement::format_children(&mut e) {
                Ok(s) => s,
                Err(err) => {
                    return Err(err);
                },
            };
            Ok(format_resolved(header, tag, void, attrs, children))
        },
    }
}

} // verus!
