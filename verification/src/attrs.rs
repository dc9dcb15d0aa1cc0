//! Attribute values and the attribute map, with their text encodings.

use vstd::prelude::*;
use vstd::string::StringExecFns;

use crate::text::{bool_to_string, i64_to_string, join_strings, spec_bool_str, spec_i64_str,
    spec_join};

verus! {

/// The closed set of value kinds an attribute may hold.

pub enum AttrValue {
    /// Verbatim text.
    String(String),
    /// A signed integer, encoded as its decimal text.
    Integer(i64),
    /// The decimal text of a floating-point number.  The core never computes
    /// with the number, so it carries the text the caller rendered.
    Float(String),
    /// `true` encodes as `"true"`; `false` encodes as the empty string,
    /// which makes the whole attribute disappear.
    Boolean(bool),
    /// An ordered list of class names, joined by single spaces.
    Classes(Vec<String>),
    /// Style properties, each rendered `key:value`, joined by `;`.  Entries
    /// keep their stored order, so the encoding is deterministic.
    Styles(Vec<(String, String)>),
}

/// The rendered `key:value` parts of a style list, in order.
pub open spec fn spec_style_parts(ps: Seq<(String, String)>) -> Seq<Seq<char>>
    decreases ps.len(),
{
    if ps.len() == 0 {
        Seq::empty()
    } else {
        spec_style_parts(ps.drop_last()).push(ps.last().0@ + seq![':'] + ps.last().1@)
    }
}

/// The encoded text of one attribute value.
pub open spec fn spec_attr_value_html(v: AttrValue) -> Seq<char> {
    match v {
        AttrValue::String(s) => s@,
        AttrValue::Integer(n) => spec_i64_str(n as int),
        AttrValue::Float(s) => s@,
        AttrValue::Boolean(b) => if b {
            spec_bool_str(true)
        } else {
            Seq::empty()
        },
        AttrValue::Classes(xs) => spec_join(xs.deep_view(), seq![' ']),
        AttrValue::Styles(ps) => spec_join(spec_style_parts(ps@), seq![';']),
    }
}

impl AttrValue {
    /// Encodes the value.  Total: every variant has an encoding; an empty
    /// result signals that the attribute should be omitted.
    pub fn to_html(&self) -> (r: String)
        ensures
            r@ == spec_attr_value_html(*self),
    {
        match self {
            AttrValue::String(s) => s.clone(),
            AttrValue::Integer(n) => i64_to_string(*n),
            AttrValue::Float(s) => s.clone(),
            AttrValue::Boolean(b) => {
                if *b {
                    bool_to_string(true)
                } else {
                    String::new()
                }
            },
            AttrValue::Classes(xs) => {
                let r = join_strings(xs, " ");
                proof {
                    reveal_strlit(" ");
                    assert(" "@ =~= seq![' ']);
                }
                r
            },
            AttrValue::Styles(ps) => {
                let mut parts: Vec<String> = Vec::new();
                let n = ps.len();
                let mut i: usize = 0;
                while i < n
                    invariant
                        n == ps@.len(),
                        i <= n,
                        parts.deep_view() == spec_style_parts(ps@.take(i as int)),
                    decreases n - i,
                {
                    let kv = &ps[i];
                    let part = kv.0.clone().concat(":").concat(kv.1.as_str());
                    proof {
                        reveal_strlit(":");
                        assert(part@ =~= kv.0@ + seq![':'] + kv.1@);
                    }
                    parts.push(part);
                    proof {
                        assert(ps@.take(i + 1).drop_last() =~= ps@.take(i as int));
                        assert(ps@.take(i + 1).last() == ps@[i as int]);
                        assert(parts.deep_view() =~= spec_style_parts(ps@.take(i as int)).push(
                            part@,
                        ));
                    }
                    i = i + 1;
                }
                proof {
                    assert(ps@.take(n as int) =~= ps@);
                }
                let r = join_strings(&parts, ";");
                proof {
                    reveal_strlit(";");
                    assert(";"@ =~= seq![';']);
                }
                r
            },
        }
    }
}

/// A mapping from attribute name to value.  The model treats it as
/// unordered with unique names; this implementation keeps entries in
/// insertion order and encodes them in that order, so output is
/// deterministic.

pub struct Attrs {
    pub values: Vec<(String, AttrValue)>,
}

/// The rendered `name="value"` parts of the surviving pairs — those whose
/// encoded value is nonempty — in order.
pub open spec fn spec_attr_parts(ps: Seq<(String, AttrValue)>) -> Seq<Seq<char>>
    decreases ps.len(),
{
    if ps.len() == 0 {
        Seq::empty()
    } else {
        let rest = spec_attr_parts(ps.drop_last());
        let v = spec_attr_value_html(ps.last().1);
        if v.len() == 0 {
            rest
        } else {
            rest.push(ps.last().0@ + seq!['=', '"'] + v + seq!['"'])
        }
    }
}

/// The combined encoding: surviving pairs joined by single spaces; empty
/// when no pair survives.
pub open spec fn spec_attrs_html(a: Attrs) -> Seq<char> {
    spec_join(spec_attr_parts(a.values@), seq![' '])
}

impl Attrs {
    /// Attribute names are pairwise distinct.
    pub open spec fn wf(&self) -> bool {
        forall|i: int, j: int|
            0 <= i < j < self.values@.len() ==> self.values@[i].0@ != self.values@[j].0@
    }

    /// An empty attribute map.
    pub fn new() -> (r: Attrs)
        ensures
            r.values@.len() == 0,
            r.wf(),
    {
        Attrs { values: Vec::new() }
    }

    /// True when the map holds no pair at all (surviving or not).
    pub fn is_empty(&self) -> (r: bool)
        ensures
            r == (self.values@.len() == 0),
    {
        self.values.len() == 0
    }

    /// Sets `name` to `value`: replaces the pair with that name if one
    /// exists, else appends a new pair.
    pub fn insert(&mut self, name: String, value: AttrValue)
        requires
            old(self).wf(),
        ensures
            final(self).wf(),
            (forall|j: int| 0 <= j < old(self).values@.len() ==> old(self).values@[j].0@ != name@)
                ==> final(self).values@ == old(self).values@.push((name, value)),
            (exists|i: int| 0 <= i < old(self).values@.len() && old(self).values@[i].0@ == name@)
                ==> (exists|i: int|
                    0 <= i < old(self).values@.len() && old(self).values@[i].0@ == name@
                    && final(self).values@ == old(self).values@.update(i, (name, value))),
    {
        let n = self.values.len();
        let mut i: usize = 0;
        while i < n
            invariant
                old(self).wf(),
                *self == *old(self),
                n == self.values@.len(),
                i <= n,
                forall|j: int| 0 <= j < i ==> self.values@[j].0@ != name@,
            decreases n - i,
        {
            let hit = self.values[i].0 == name;
            if hit {
                let kv = &mut self.values[i];
                kv.0 = name;
                kv.1 = value;
                proof {
                    assert(self.values@ =~= old(self).values@.update(i as int, (name, value)));
                }
                return;
            }
            i = i + 1;
        }
        self.values.push((name, value));
    }

    /// Encodes the attributes: each pair whose value encodes to nonempty
    /// text becomes `name="value"`; pairs whose value encodes to the empty
    /// string are dropped; survivors are joined by single spaces.
    pub fn to_html(&self) -> (r: String)
        ensures
            r@ == spec_attrs_html(*self),
    {
        let mut parts: Vec<String> = Vec::new();
        let n = self.values.len();
        let mut i: usize = 0;
        while i < n
            invariant
                n == self.values@.len(),
                i <= n,
                parts.deep_view() == spec_attr_parts(self.values@.take(i as int)),
            decreases n - i,
        {
            let kv = &self.values[i];
            let v = kv.1.to_html();
            if !v.as_str().is_empty() {
                let part = kv.0.clone().concat("=\"").concat(v.as_str()).concat("\"");
                proof {
                    reveal_strlit("=\"");
                    reveal_strlit("\"");
                    assert(part@ =~= kv.0@ + seq!['=', '"'] + v@ + seq!['"']);
                }
                parts.push(part);
            }
            proof {
                assert(self.values@.take(i + 1).drop_last() =~= self.values@.take(i as int));
                assert(self.values@.take(i + 1).last() == self.values@[i as int]);
                if spec_attr_value_html(self.values@[i as int].1).len() != 0 {
                    assert(parts.deep_view() =~= spec_attr_parts(self.values@.take(i as int)).push(
                        self.values@[i as int].0@ + seq!['=', '"'] + spec_attr_value_html(
                            self.values@[i as int].1,
                        ) + seq!['"'],
                    ));
                }
            }
            i = i + 1;
        }
        proof {
            assert(self.values@.take(n as int) =~= self.values@);
        }
        let r = join_strings(&parts, " ");
        proof {
            reveal_strlit(" ");
            assert(" "@ =~= seq![' ']);
        }
        r
    }
}

impl Default for Attrs {
    /// The empty attribute map.
    fn default() -> (r: Attrs)
        ensures
            r.values@.len() == 0,
            r.wf(),
    {
        Attrs::new()
    }
}

} // verus!
