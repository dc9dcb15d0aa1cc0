//! Element factories with behavior of their own: the `<style>` tag, which
//! seeds its context from a theme value, and the `<output>` tag.

use vstd::prelude::*;

use crate::attrs::Attrs;
use crate::base::{child_inv, child_wf, elem_inv, elem_wf, BaseElement, Child};
use crate::context::Context;
use crate::render::Component;

verus! {

/// The `<style>` element: one child holding the style text, and an optional
/// theme value carried in the element's context under the key `theme`.
#[allow(non_camel_case_types)]
pub struct style;

impl style {
    /// Builds a `<style>` element around the given style text.
    pub fn new<C: Component>(styles: Child<C>, theme: Option<String>, attrs: Option<Attrs>) -> (r:
        (style, BaseElement<C>))
        ensures
            r.1.html_name@ == "style"@,
            r.1.html_header is None,
            !r.1.void_element,
            r.1.children@ == seq![styles],
            (attrs matches Some(a) ==> r.1.attrs == a),
            (attrs is None ==> r.1.attrs.values@.len() == 0),
            (theme matches Some(t) ==> r.1.context@ == Map::<Seq<char>, Seq<char>>::empty().insert(
                "theme"@,
                t@,
            )),
            (theme is None ==> r.1.context@ == Map::<Seq<char>, Seq<char>>::empty()),
            (child_wf(styles) && (attrs matches Some(a) ==> a.wf())) ==> elem_wf(r.1),
            child_inv(styles) ==> elem_inv(r.1),
    {
        let mut context = Context::new();
        match theme {
            Some(value) => {
                context.insert("theme".to_owned(), value);
            },
            None => {},
        }
        let a = match attrs {
            Some(a) => a,
            None => Attrs::new(),
        };
        let mut children: Vec<Child<C>> = Vec::new();
        children.push(styles);
        proof {
            assert(children@ =~= seq![styles]);
        }
        (
            style,
            BaseElement {
                html_name: "style".to_owned(),
                html_header: None,
                void_element: false,
                children,
                attrs: a,
                context,
            },
        )
    }
}

/// The `<output>` element.
#[allow(non_camel_case_types)]
pub struct output_;

impl output_ {
    /// Builds an `<output>` element around the given children.
    pub fn new<C: Component>(children: Vec<Child<C>>, attrs: Option<Attrs>) -> (r: (
        output_,
        BaseElement<C>,
    ))
        ensures
            r.1.html_name@ == "output"@,
            r.1.html_header is None,
            !r.1.void_element,
            r.1.children == children,
            (attrs matches Some(a) ==> r.1.attrs == a),
            (attrs is None ==> r.1.attrs.values@.len() == 0),
            r.1.context@ == Map::<Seq<char>, Seq<char>>::empty(),
            ((forall|i: int| 0 <= i < children@.len() ==> child_wf(#[trigger] children@[i])) && (
            attrs matches Some(a) ==> a.wf())) ==> elem_wf(r.1),
            (forall|i: int| 0 <= i < children@.len() ==> child_inv(#[trigger] children@[i]))
                ==> elem_inv(r.1),
    {
        let a = match attrs {
            Some(a) => a,
            None => Attrs::new(),
        };
        (
            output_,
            BaseElement {
                html_name: "output".to_owned(),
                html_header: None,
                void_element: false,
                children,
                attrs: a,
                context: Context::new(),
            },
        )
    }
}

} // verus!
