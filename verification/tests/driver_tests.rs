use ludicrous::attrs::{AttrValue, Attrs};
use ludicrous::base::{BaseElement, Child};
use ludicrous::context::Context;
use ludicrous::render;
use ludicrous::render::{Component, RenderError, Rendered};

fn elem<C: Component>(tag: &str, void: bool, children: Vec<Child<C>>, attrs: Attrs) -> BaseElement<C> {
    BaseElement {
        html_name: tag.to_string(),
        html_header: None,
        void_element: void,
        children,
        attrs,
        context: Context::new(),
    }
}

/// A component whose formatting betrays every observable piece of its
/// state, so driver behavior can be read off the output text.
struct Probe {
    stage: u8,
    ctx: Context,
    cls: Vec<String>,
    renders: u32,
    merges: u32,
}

impl Component for Probe {
    fn render(&mut self) -> Option<Rendered<Self>> {
        self.renders += 1;
        if self.stage == 0 {
            let mut ctx = Context::new();
            ctx.insert("b".to_string(), "2".to_string());
            Some(Rendered::Next(Probe {
                stage: 1,
                ctx,
                cls: vec!["l1".to_string()],
                renders: 0,
                merges: 0,
            }))
        } else {
            Some(Rendered::Same)
        }
    }
    fn context(&self) -> Context {
        self.ctx.duplicate()
    }
    fn update_context(&mut self, delta: &Context) -> bool {
        self.merges += 1;
        self.ctx.update(delta);
        true
    }
    fn classes(&self) -> Vec<String> {
        self.cls.clone()
    }
    fn tag_name(&self) -> String {
        "div".to_string()
    }
    fn header(&self) -> Option<String> {
        None
    }
    fn is_void(&self) -> bool {
        false
    }
    fn format_children(&mut self) -> Result<String, RenderError> {
        let a = self.ctx.get(&"a".to_string()).unwrap_or_default();
        let b = self.ctx.get(&"b".to_string()).unwrap_or_default();
        Ok(format!("a={};b={};renders={};merges={}", a, b, self.renders, self.merges))
    }
    fn format_attrs(&self, classes: &Vec<String>) -> String {
        format!("class=\"{}\"", classes.join(" "))
    }
}

#[test]
fn chain_merges_context_and_collects_classes() {
    let mut ctx = Context::new();
    ctx.insert("a".to_string(), "1".to_string());
    let root = Probe {
        stage: 0,
        ctx,
        cls: vec!["root".to_string()],
        renders: 0,
        merges: 0,
    };
    // The accumulator is seeded from the root's classes and collects the new
    // link's; the root's context is merged once into the new link.
    let out = render::to_html(root).unwrap();
    assert_eq!(out, "<div class=\"root l1\">a=1;b=2;renders=1;merges=1</div>");
}

#[test]
fn fixed_point_on_first_render_merges_nothing() {
    let mut ctx = Context::new();
    ctx.insert("a".to_string(), "1".to_string());
    let root = Probe {
        stage: 1,
        ctx,
        cls: vec!["seed".to_string()],
        renders: 0,
        merges: 0,
    };
    let out = render::to_html(root).unwrap();
    // Exactly one render, no context merge, classes are the root's own.
    assert_eq!(out, "<div class=\"seed\">a=1;b=;renders=1;merges=0</div>");
}

/// A root component that expands to a concrete element in one step.
struct DivMaker;

impl Component for DivMaker {
    fn render(&mut self) -> Option<Rendered<Self>> {
        let mut a = Attrs::new();
        a.insert("id".to_string(), AttrValue::String("x".to_string()));
        Some(Rendered::Node(elem(
            "div",
            false,
            vec![Child::Unsafe("made".to_string())],
            a,
        )))
    }
    fn context(&self) -> Context {
        Context::new()
    }
    fn update_context(&mut self, _delta: &Context) -> bool {
        true
    }
    fn classes(&self) -> Vec<String> {
        Vec::new()
    }
    fn tag_name(&self) -> String {
        String::new()
    }
    fn header(&self) -> Option<String> {
        None
    }
    fn is_void(&self) -> bool {
        false
    }
    fn format_children(&mut self) -> Result<String, RenderError> {
        Ok(String::new())
    }
    fn format_attrs(&self, _classes: &Vec<String>) -> String {
        String::new()
    }
}

#[test]
fn component_expanding_to_element_matches_direct_serialization() {
    let out = render::to_html(DivMaker).unwrap();
    let mut a = Attrs::new();
    a.insert("id".to_string(), AttrValue::String("x".to_string()));
    let mut direct: BaseElement<DivMaker> =
        elem("div", false, vec![Child::Unsafe("made".to_string())], a);
    assert_eq!(out, direct.to_html().unwrap());
}

fn sample_tree() -> BaseElement<DivMaker> {
    let mut a = Attrs::new();
    a.insert("id".to_string(), AttrValue::String("x".to_string()));
    let inner: BaseElement<DivMaker> = elem("span", false, vec![Child::Integer(7)], Attrs::new());
    elem(
        "div",
        false,
        vec![Child::Unsafe("t".to_string()), Child::Element(inner)],
        a,
    )
}

#[test]
fn driving_a_concrete_element_matches_direct_serialization() {
    let mut direct = sample_tree();
    let driven = sample_tree();
    let expected = direct.to_html().unwrap();
    assert_eq!(expected, "<div id=\"x\">t<span>7</span></div>");
    assert_eq!(render::to_html(driven).unwrap(), expected);
}

#[test]
fn void_element_through_driver() {
    let mut a = Attrs::new();
    a.insert("src".to_string(), AttrValue::String("a.png".to_string()));
    let e: BaseElement<DivMaker> = elem("img", true, vec![Child::Unsafe("junk".to_string())], a);
    assert_eq!(render::to_html(e).unwrap(), "<img src=\"a.png\">");
}

#[test]
fn hidden_tag_emits_children_only() {
    let e: BaseElement<DivMaker> =
        elem("__hidden__", false, vec![Child::Unsafe("frag".to_string())], Attrs::new());
    assert_eq!(render::to_html(e).unwrap(), "frag");
}

/// A component with no render capability.
struct NoRender;

impl Component for NoRender {
    fn render(&mut self) -> Option<Rendered<Self>> {
        None
    }
    fn context(&self) -> Context {
        Context::new()
    }
    fn update_context(&mut self, _delta: &Context) -> bool {
        true
    }
    fn classes(&self) -> Vec<String> {
        Vec::new()
    }
    fn tag_name(&self) -> String {
        String::new()
    }
    fn header(&self) -> Option<String> {
        None
    }
    fn is_void(&self) -> bool {
        false
    }
    fn format_children(&mut self) -> Result<String, RenderError> {
        Ok(String::new())
    }
    fn format_attrs(&self, _classes: &Vec<String>) -> String {
        String::new()
    }
}

#[test]
fn missing_render_capability_aborts() {
    assert_eq!(render::to_html(NoRender), Err(RenderError::MissingRenderCapability));
}

/// A component that records context pushes and reports them as its text.
struct Recorder {
    ctx: Context,
    updates: u32,
    deny_context: bool,
    text_result: bool,
}

impl Component for Recorder {
    fn render(&mut self) -> Option<Rendered<Self>> {
        if self.text_result {
            let v = self.ctx.get(&"k".to_string()).unwrap_or_default();
            Some(Rendered::Text(format!("{}|{}", self.updates, v)))
        } else {
            Some(Rendered::Same)
        }
    }
    fn context(&self) -> Context {
        self.ctx.duplicate()
    }
    fn update_context(&mut self, delta: &Context) -> bool {
        if self.deny_context {
            return false;
        }
        self.updates += 1;
        self.ctx.update(delta);
        true
    }
    fn classes(&self) -> Vec<String> {
        Vec::new()
    }
    fn tag_name(&self) -> String {
        String::new()
    }
    fn header(&self) -> Option<String> {
        None
    }
    fn is_void(&self) -> bool {
        false
    }
    fn format_children(&mut self) -> Result<String, RenderError> {
        Ok(String::new())
    }
    fn format_attrs(&self, _classes: &Vec<String>) -> String {
        String::new()
    }
}

#[test]
fn context_reaches_grandchild_component_with_one_merge() {
    // The root's context is pushed through the nested element into the
    // grandchild component exactly once; the inner element's own (empty)
    // context adds no second merge.
    let recorder = Recorder { ctx: Context::new(), updates: 0, deny_context: false, text_result: true };
    let inner: BaseElement<Recorder> =
        elem("span", false, vec![Child::Component(recorder)], Attrs::new());
    let mut root = elem("div", false, vec![Child::Element(inner)], Attrs::new());
    root.context.insert("k".to_string(), "v".to_string());
    assert_eq!(root.to_html().unwrap(), "<div><span>1|v</span></div>");
}

#[test]
fn component_without_context_capability_fails_push() {
    let recorder = Recorder { ctx: Context::new(), updates: 0, deny_context: true, text_result: true };
    let mut root = elem("div", false, vec![Child::Component(recorder)], Attrs::new());
    root.context.insert("k".to_string(), "v".to_string());
    assert_eq!(root.to_html(), Err(RenderError::MissingContextCapability));
}

#[test]
fn child_component_render_must_return_text() {
    let recorder = Recorder { ctx: Context::new(), updates: 0, deny_context: false, text_result: false };
    let mut root = elem("div", false, vec![Child::Component(recorder)], Attrs::new());
    assert_eq!(root.to_html(), Err(RenderError::NonStringRenderResult));
}

#[test]
fn driver_rejects_text_render_result() {
    let root = Recorder { ctx: Context::new(), updates: 0, deny_context: false, text_result: true };
    assert_eq!(render::to_html(root), Err(RenderError::MissingContextCapability));
}
