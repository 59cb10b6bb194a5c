//! Properties of the injection over whole documents.

use vstd::prelude::*;
use crate::element::{DomNode, NodeData};
use crate::generate_sri::{
    dom_requests, injected, integrity_name, lemma_request_at, node_after, node_request, requests_before,
    resource_url, sri_result, Fetched,
};
use crate::mime_ext::{normalize, same_essence};
use crate::node_iter::{
    attr_value, attrs_set, attrs_view, lemma_attr_index_bounds, lemma_set_then_get, name_matches,
    AttributeView,
};

verus! {

/// `y` keeps every attribute of `x` in place with its name, changes the
/// value of none but an `integrity` attribute, and at most appends one
/// `integrity` attribute at the end.
pub open spec fn only_integrity_changed(x: Seq<AttributeView>, y: Seq<AttributeView>) -> bool {
    &&& (y.len() == x.len() || (y.len() == x.len() + 1 && y.last().name == integrity_name()))
    &&& forall|j: int|
        0 <= j < x.len() ==> (#[trigger] y[j]).name == x[j].name && (y[j].value != x[j].value
            ==> name_matches(x[j].name, integrity_name()))
}

/// A node is unchanged, or it is an element whose name and other parts are
/// unchanged and whose attributes differ only in `integrity`.
pub open spec fn node_preserved(a: DomNode, b: DomNode) -> bool {
    ||| b == a
    ||| b.depth == a.depth && match (a.data, b.data) {
        (NodeData::Element(x), NodeData::Element(y)) => {
            &&& y.name == x.name
            &&& y.template_contents == x.template_contents
            &&& y.mathml_annotation_xml_integration_point == x.mathml_annotation_xml_integration_point
            &&& only_integrity_changed(attrs_view(x.attrs@), attrs_view(y.attrs@))
        },
        _ => false,
    }
}

proof fn lemma_set_integrity_preserves(x: Seq<AttributeView>, v: Seq<char>)
    ensures
        only_integrity_changed(x, attrs_set(x, integrity_name(), v)),
{
    lemma_attr_index_bounds(x, integrity_name());
}

/// The injection changes no node but by the `integrity` attribute of an
/// element: depths, node kinds, text, names and all other attributes and
/// their order stay as they were.
pub proof fn lemma_structure_preserved(old: Seq<DomNode>, new: Seq<DomNode>, force: bool, fetched: Seq<Result<Fetched, String>>)
    requires
        injected(old, new, force, fetched),
    ensures
        forall|i: int| 0 <= i < old.len() ==> node_preserved(old[i], #[trigger] new[i]),
{
    assert forall|i: int| 0 <= i < old.len() implies node_preserved(old[i], #[trigger] new[i]) by {
        if let NodeData::Element(x) = old[i].data {
            if let Some(u) = node_request(old[i], force) {
                if let Some(v) = sri_result(u, fetched[requests_before(old, i, force)]) {
                    lemma_set_integrity_preserves(attrs_view(x.attrs@), v);
                }
            }
        }
    }
}

/// An element whose resource yields no value is left exactly as it was.
pub proof fn lemma_failure_preserves(old: Seq<DomNode>, new: Seq<DomNode>, force: bool, fetched: Seq<Result<Fetched, String>>, i: int)
    requires
        injected(old, new, force, fetched),
        0 <= i < old.len(),
        node_request(old[i], force) is Some,
        sri_result(node_request(old[i], force)->Some_0, fetched[requests_before(old, i, force)]) is None,
    ensures
        new[i] == old[i],
{
}

/// A node that is not an element SRI applies to, by name, `rel` and URL
/// attribute, is left exactly as it was.
pub proof fn lemma_ineligible_untouched(old: Seq<DomNode>, new: Seq<DomNode>, force: bool, fetched: Seq<Result<Fetched, String>>, i: int)
    requires
        injected(old, new, force, fetched),
        0 <= i < old.len(),
        match old[i].data {
            NodeData::Element(e) => resource_url(e.name@, attrs_view(e.attrs@)) is None,
            _ => true,
        },
    ensures
        new[i] == old[i],
{
}

/// With `force`, every element SRI applies to whose resource yields a value
/// ends up with exactly that value as its `integrity`, whatever it had.
pub proof fn lemma_force_replaces(old: Seq<DomNode>, new: Seq<DomNode>, fetched: Seq<Result<Fetched, String>>, i: int)
    requires
        injected(old, new, true, fetched),
        0 <= i < old.len(),
        old[i].data is Element,
        resource_url(old[i].data->Element_0.name@, attrs_view(old[i].data->Element_0.attrs@)) is Some,
        sri_result(
            resource_url(old[i].data->Element_0.name@, attrs_view(old[i].data->Element_0.attrs@))->Some_0,
            fetched[requests_before(old, i, true)],
        ) is Some,
    ensures
        new[i].data is Element,
        attr_value(attrs_view(new[i].data->Element_0.attrs@), integrity_name()) == sri_result(
            resource_url(old[i].data->Element_0.name@, attrs_view(old[i].data->Element_0.attrs@))->Some_0,
            fetched[requests_before(old, i, true)],
        ),
{
    let x = attrs_view(old[i].data->Element_0.attrs@);
    let u = resource_url(old[i].data->Element_0.name@, x)->Some_0;
    lemma_set_then_get(x, integrity_name(), sri_result(u, fetched[requests_before(old, i, true)])->Some_0);
}

/// Without `force`, a second run over the output changes nothing, provided
/// each URL gets the same response both times (`responses`).
pub proof fn lemma_idempotent(
    s: Seq<DomNode>,
    m: Seq<DomNode>,
    f: Seq<DomNode>,
    fetched1: Seq<Result<Fetched, String>>,
    fetched2: Seq<Result<Fetched, String>>,
    responses: spec_fn(Seq<char>) -> Result<Fetched, String>,
)
    requires
        injected(s, m, false, fetched1),
        injected(m, f, false, fetched2),
        forall|k: int|
            0 <= k < dom_requests(s, false).len() ==> #[trigger] fetched1[k] == responses(dom_requests(s, false)[k]),
        forall|k: int|
            0 <= k < dom_requests(m, false).len() ==> #[trigger] fetched2[k] == responses(dom_requests(m, false)[k]),
    ensures
        f == m,
{
    assert forall|i: int| 0 <= i < m.len() implies #[trigger] f[i] == m[i] by {
        match node_request(s[i], false) {
            None => {},
            Some(u) => {
                lemma_request_at(s, i, false);
                let k1 = requests_before(s, i, false);
                match sri_result(u, fetched1[k1]) {
                    None => {
                        lemma_request_at(m, i, false);
                    },
                    Some(v) => {
                        let x = attrs_view(s[i].data->Element_0.attrs@);
                        lemma_set_then_get(x, integrity_name(), v);
                    },
                }
            },
        }
    }
    assert(f =~= m);
}

/// Two essences are the same exactly when their normal forms are equal.
pub proof fn lemma_same_essence_normalized(a: Seq<char>, b: Seq<char>)
    ensures
        same_essence(a, b) <==> normalize(a) == normalize(b),
{
}

} // verus!
