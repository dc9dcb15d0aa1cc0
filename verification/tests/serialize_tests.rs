use ludicrous::attrs::{AttrValue, Attrs};
use ludicrous::base::{BaseElement, Child};
use ludicrous::context::Context;
use ludicrous::render::{Component, RenderError, Rendered};

struct Inert;

impl Component for Inert {
    fn render(&mut self) -> Option<Rendered<Self>> {
        Some(Rendered::Same)
    }
    fn context(&self) -> Context {
        Context::new()
    }
    fn update_context(&mut self, _delta: &Context) -> bool {
        true
    }
    fn classes(&self) -> Vec<String> {
        Vec::new()
    }
    fn tag_name(&self) -> String {
        String::new()
    }
    fn header(&self) -> Option<String> {
        None
    }
    fn is_void(&self) -> bool {
        false
    }
    fn format_children(&mut self) -> Result<String, RenderError> {
        Ok(String::new())
    }
    fn format_attrs(&self, _classes: &Vec<String>) -> String {
        String::new()
    }
}

fn elem(tag: &str, void: bool, children: Vec<Child<Inert>>, attrs: Attrs) -> BaseElement<Inert> {
    BaseElement {
        html_name: tag.to_string(),
        html_header: None,
        void_element: void,
        children,
        attrs,
        context: Context::new(),
    }
}

#[test]
fn empty_div() {
    let mut e = elem("div", false, vec![], Attrs::new());
    assert_eq!(e.to_html().unwrap(), "<div></div>");
}

#[test]
fn div_with_raw_text() {
    let mut e = elem("div", false, vec![Child::Unsafe("hi".to_string())], Attrs::new());
    assert_eq!(e.to_html().unwrap(), "<div>hi</div>");
}

#[test]
fn void_img_with_attr() {
    let mut a = Attrs::new();
    a.insert("src".to_string(), AttrValue::String("a.png".to_string()));
    let mut e = elem("img", true, vec![], a);
    assert_eq!(e.to_html().unwrap(), "<img src=\"a.png\">");
}

#[test]
fn button_disabled_true() {
    let mut a = Attrs::new();
    a.insert("disabled".to_string(), AttrValue::Boolean(true));
    let mut e = elem("button", false, vec![], a);
    assert_eq!(e.to_html().unwrap(), "<button disabled=\"true\"></button>");
}

#[test]
fn button_disabled_false() {
    let mut a = Attrs::new();
    a.insert("disabled".to_string(), AttrValue::Boolean(false));
    let mut e = elem("button", false, vec![], a);
    assert_eq!(e.to_html().unwrap(), "<button></button>");
}

#[test]
fn html_with_header() {
    let mut e = elem("html", false, vec![], Attrs::new());
    e.html_header = Some("<!doctype html>".to_string());
    assert_eq!(e.to_html().unwrap(), "<!doctype html>\n<html></html>");
}

#[test]
fn void_ignores_children() {
    let inner = elem("div", false, vec![], Attrs::new());
    let mut with_children = elem(
        "img",
        true,
        vec![Child::Unsafe("x".to_string()), Child::Element(inner)],
        Attrs::new(),
    );
    let mut without = elem("img", true, vec![], Attrs::new());
    assert_eq!(with_children.to_html().unwrap(), without.to_html().unwrap());
}

#[test]
fn all_empty_attrs_leave_no_trailing_space() {
    let mut a = Attrs::new();
    a.insert("x".to_string(), AttrValue::Boolean(false));
    a.insert("y".to_string(), AttrValue::Boolean(false));
    assert_eq!(a.to_html(), "");
    let mut e = elem("p", false, vec![], a);
    assert_eq!(e.to_html().unwrap(), "<p></p>");
}

#[test]
fn attr_value_encodings() {
    assert_eq!(AttrValue::String("v".to_string()).to_html(), "v");
    assert_eq!(AttrValue::Integer(-42).to_html(), "-42");
    assert_eq!(AttrValue::Integer(0).to_html(), "0");
    assert_eq!(AttrValue::Integer(1900).to_html(), "1900");
    assert_eq!(AttrValue::Float("1.5".to_string()).to_html(), "1.5");
    assert_eq!(AttrValue::Boolean(true).to_html(), "true");
    assert_eq!(AttrValue::Boolean(false).to_html(), "");
    assert_eq!(
        AttrValue::Classes(vec!["a".to_string(), "b".to_string(), "c".to_string()]).to_html(),
        "a b c"
    );
    assert_eq!(
        AttrValue::Styles(vec![
            ("color".to_string(), "red".to_string()),
            ("margin".to_string(), "0".to_string()),
        ])
        .to_html(),
        "color:red;margin:0"
    );
}

#[test]
fn attrs_join_in_insertion_order() {
    let mut a = Attrs::new();
    a.insert("a".to_string(), AttrValue::String("1".to_string()));
    a.insert("b".to_string(), AttrValue::String("2".to_string()));
    assert_eq!(a.to_html(), "a=\"1\" b=\"2\"");
    a.insert("a".to_string(), AttrValue::String("3".to_string()));
    assert_eq!(a.to_html(), "a=\"3\" b=\"2\"");
}

#[test]
fn literal_children() {
    let mut e = elem(
        "p",
        false,
        vec![
            Child::Integer(7),
            Child::Boolean(true),
            Child::Float("1.5".to_string()),
            Child::Safe("&amp;".to_string()),
        ],
        Attrs::new(),
    );
    assert_eq!(e.to_html().unwrap(), "<p>7true1.5&amp;</p>");
}

#[test]
fn nested_elements() {
    let inner = elem("span", false, vec![Child::Unsafe("x".to_string())], Attrs::new());
    let mut e = elem("div", false, vec![Child::Element(inner)], Attrs::new());
    assert_eq!(e.to_html().unwrap(), "<div><span>x</span></div>");
}

#[test]
fn is_simple_and_has_attributes() {
    let e = elem("p", false, vec![Child::Unsafe("t".to_string())], Attrs::new());
    assert!(e.is_simple());
    assert!(!e.has_attributes());
    let inner = elem("span", false, vec![], Attrs::new());
    let e2 = elem("p", false, vec![Child::Element(inner)], Attrs::new());
    assert!(!e2.is_simple());
    let mut a = Attrs::new();
    a.insert("x".to_string(), AttrValue::Boolean(false));
    let e3 = elem("p", false, vec![], a);
    assert!(e3.has_attributes());
}

#[test]
fn context_insert_get_update() {
    let mut c = Context::new();
    assert!(c.is_empty());
    c.insert("a".to_string(), "1".to_string());
    c.insert("b".to_string(), "2".to_string());
    c.insert("a".to_string(), "3".to_string());
    assert!(!c.is_empty());
    assert_eq!(c.get(&"a".to_string()), Some("3".to_string()));
    assert_eq!(c.get(&"b".to_string()), Some("2".to_string()));
    assert_eq!(c.get(&"missing".to_string()), None);
    let mut d = Context::new();
    d.insert("b".to_string(), "9".to_string());
    d.insert("c".to_string(), "8".to_string());
    c.update(&d);
    assert_eq!(c.get(&"a".to_string()), Some("3".to_string()));
    assert_eq!(c.get(&"b".to_string()), Some("9".to_string()));
    assert_eq!(c.get(&"c".to_string()), Some("8".to_string()));
}

#[test]
fn style_factory() {
    let (_, mut e) = ludicrous::elements::style::new::<Inert>(
        Child::Unsafe("body{}".to_string()),
        Some("dark".to_string()),
        None,
    );
    assert_eq!(e.context.get(&"theme".to_string()), Some("dark".to_string()));
    assert_eq!(e.to_html().unwrap(), "<style>body{}</style>");
}

#[test]
fn output_factory() {
    let (_, mut e) = ludicrous::elements::output_::new::<Inert>(
        vec![Child::Unsafe("42".to_string())],
        None,
    );
    assert_eq!(e.to_html().unwrap(), "<output>42</output>");
}

#[test]
fn repr_summary_form() {
    let inner = elem("span", false, vec![], Attrs::new());
    let mut a = Attrs::new();
    a.insert("x".to_string(), AttrValue::Boolean(false));
    let e = elem("div", false, vec![Child::Element(inner)], a);
    assert_eq!(e.__repr__(), "<div >...</div>");
    let v = elem("br", true, vec![], Attrs::new());
    assert_eq!(v.__repr__(), "<br>");
    let plain = elem("p", false, vec![], Attrs::new());
    assert_eq!(plain.__repr__(), "<p></p>");
}
