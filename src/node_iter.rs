//! Qualified names, attributes and the attribute view of an element.

use vstd::prelude::*;
use crate::text::str_eq;

verus! {

/// A qualified name: an optional prefix, a namespace URL (empty for no
/// namespace) and a local name.
#[derive(Debug, PartialEq, Eq)]
pub struct QualName {
    pub prefix: Option<String>,
    pub ns: String,
    pub local: String,
}

pub struct QualNameView {
    pub prefix: Option<Seq<char>>,
    pub ns: Seq<char>,
    pub local: Seq<char>,
}

impl View for QualName {
    type V = QualNameView;

    open spec fn view(&self) -> QualNameView {
        QualNameView {
            prefix: match self.prefix {
                Some(p) => Some(p@),
                None => None,
            },
            ns: self.ns@,
            local: self.local@,
        }
    }
}

/// One attribute of an element.
#[derive(Debug, PartialEq, Eq)]
pub struct Attribute {
    pub name: QualName,
    pub value: String,
}

pub struct AttributeView {
    pub name: QualNameView,
    pub value: Seq<char>,
}

impl View for Attribute {
    type V = AttributeView;

    open spec fn view(&self) -> AttributeView {
        AttributeView { name: self.name@, value: self.value@ }
    }
}

/// The views of a sequence of attributes.
pub open spec fn attrs_view(attrs: Seq<Attribute>) -> Seq<AttributeView> {
    attrs.map_values(|a: Attribute| a@)
}

/// Names match when namespace and local name agree; the prefix is not compared.
pub open spec fn name_matches(a: QualNameView, b: QualNameView) -> bool {
    a.ns == b.ns && a.local == b.local
}

/// The position of the first attribute whose name matches `name`.
pub open spec fn attr_index(attrs: Seq<AttributeView>, name: QualNameView) -> Option<int>
    decreases attrs.len(),
{
    if attrs.len() == 0 {
        None
    } else {
        match attr_index(attrs.drop_last(), name) {
            Some(i) => Some(i),
            None => if name_matches(attrs.last().name, name) {
                Some(attrs.len() - 1)
            } else {
                None
            },
        }
    }
}

/// The value of the first attribute whose name matches `name`.
pub open spec fn attr_value(attrs: Seq<AttributeView>, name: QualNameView) -> Option<Seq<char>> {
    match attr_index(attrs, name) {
        Some(i) => Some(attrs[i].value),
        None => None,
    }
}

/// Replaces the value of the first matching attribute in place, or appends
/// a new attribute when none matches.
pub open spec fn attrs_set(attrs: Seq<AttributeView>, name: QualNameView, value: Seq<char>) -> Seq<
    AttributeView,
> {
    match attr_index(attrs, name) {
        Some(i) => attrs.update(i, AttributeView { name: attrs[i].name, value }),
        None => attrs.push(AttributeView { name, value }),
    }
}

pub proof fn lemma_attr_index_bounds(attrs: Seq<AttributeView>, name: QualNameView)
    ensures
        match attr_index(attrs, name) {
            Some(i) => 0 <= i < attrs.len() && name_matches(attrs[i].name, name) && forall|
                j: int,
            |
                0 <= j < i ==> !name_matches(attrs[j].name, name),
            None => forall|j: int| 0 <= j < attrs.len() ==> !name_matches(attrs[j].name, name),
        },
    decreases attrs.len(),
{
    if attrs.len() > 0 {
        let init = attrs.drop_last();
        lemma_attr_index_bounds(init, name);
        assert(forall|j: int| 0 <= j < init.len() ==> init[j] == attrs[j]);
    }
}

/// Whether two qualified names match by namespace and local name.
pub fn qual_name_matches(a: &QualName, b: &QualName) -> (r: bool)
    ensures
        r == name_matches(a@, b@),
{
    str_eq(a.ns.as_str(), b.ns.as_str()) && str_eq(a.local.as_str(), b.local.as_str())
}

/// A copy of a qualified name.
pub fn copy_name(n: &QualName) -> (r: QualName)
    ensures
        r@ == n@,
{
    let prefix = match &n.prefix {
        Some(p) => Some(p.clone()),
        None => None,
    };
    QualName { prefix, ns: n.ns.clone(), local: n.local.clone() }
}

/// Finds the first attribute named `name`.
fn find_index(attrs: &Vec<Attribute>, name: &QualName) -> (r: Option<usize>)
    ensures
        r matches Some(i) ==> i < attrs@.len() && attr_index(attrs_view(attrs@), name@) == Some(
            i as int,
        ),
        r is None ==> attr_index(attrs_view(attrs@), name@) is None,
{
    let ghost v = attrs_view(attrs@);
    let mut i: usize = 0;
    while i < attrs.len()
        invariant
            v == attrs_view(attrs@),
            i <= attrs@.len(),
            forall|j: int| 0 <= j < i ==> !name_matches(#[trigger] v[j].name, name@),
        decreases attrs@.len() - i,
    {
        if qual_name_matches(&attrs[i].name, name) {
            proof {
                assert(v[i as int] == attrs@[i as int]@);
                lemma_attr_index_bounds(v, name@);
                if let Some(k) = attr_index(v, name@) {
                    if k < i {
                        assert(!name_matches(v[k].name, name@));
                    } else if k > i {
                        assert(!name_matches(v[i as int].name, name@));
                    }
                }
            }
            return Some(i);
        }
        i += 1;
    }
    proof {
        lemma_attr_index_bounds(v, name@);
    }
    None
}

/// Lookup and update of an element's attributes by qualified name.
pub trait AttrsExt {
    /// The attributes, in order.
    spec fn attrs_spec(&self) -> Seq<AttributeView>;

    /// The value of the first attribute named `name`.
    fn get(&self, name: &QualName) -> (r: Option<String>)
        ensures
            match r {
                Some(v) => attr_value(self.attrs_spec(), name@) == Some(v@),
                None => attr_value(self.attrs_spec(), name@) is None,
            },
    ;

    /// Replaces the value of the first attribute named `name`, or appends one.
    fn set(&mut self, name: &QualName, value: String)
        ensures
            final(self).attrs_spec() == attrs_set(old(self).attrs_spec(), name@, value@),
    ;
}

impl AttrsExt for Vec<Attribute> {
    open spec fn attrs_spec(&self) -> Seq<AttributeView> {
        attrs_view(self@)
    }

    fn get(&self, name: &QualName) -> (r: Option<String>) {
        match find_index(self, name) {
            Some(i) => Some(self[i].value.clone()),
            None => None,
        }
    }

    fn set(&mut self, name: &QualName, value: String) {
        match find_index(self, name) {
            Some(i) => {
                let ghost before = attrs_view(self@);
                self[i].value = value;
                assert(attrs_view(self@) =~= attrs_set(before, name@, value@));
            },
            None => {
                let ghost before = attrs_view(self@);
                self.push(Attribute { name: copy_name(name), value });
                assert(attrs_view(self@) =~= attrs_set(before, name@, value@));
            },
        }
    }
}


/// The view of an optional text value.
pub open spec fn opt_view(o: Option<String>) -> Option<Seq<char>> {
    match o {
        Some(s) => Some(s@),
        None => None,
    }
}


/// The first match depends on the names alone.
pub proof fn lemma_attr_index_same_names(x: Seq<AttributeView>, y: Seq<AttributeView>, name: QualNameView)
    requires
        x.len() == y.len(),
        forall|j: int| 0 <= j < x.len() ==> (#[trigger] x[j]).name == y[j].name,
    ensures
        attr_index(x, name) == attr_index(y, name),
    decreases x.len(),
{
    if x.len() > 0 {
        let (xi, yi) = (x.drop_last(), y.drop_last());
        assert forall|j: int| 0 <= j < xi.len() implies (#[trigger] xi[j]).name == yi[j].name by {
            assert(xi[j] == x[j] && yi[j] == y[j]);
        }
        lemma_attr_index_same_names(xi, yi, name);
    }
}

/// After a set, a lookup of the same name finds the value that was set.
pub proof fn lemma_set_then_get(attrs: Seq<AttributeView>, name: QualNameView, value: Seq<char>)
    ensures
        attr_value(attrs_set(attrs, name, value), name) == Some(value),
{
    lemma_attr_index_bounds(attrs, name);
    let r = attrs_set(attrs, name, value);
    match attr_index(attrs, name) {
        Some(i) => {
            lemma_attr_index_same_names(attrs, r, name);
        },
        None => {
            assert(r.drop_last() =~= attrs);
        },
    }
}

} // verus!
