//! Choosing the elements that take an `integrity` attribute, checking a
//! fetched resource, computing its value and merging it into the document.

use vstd::prelude::*;
use vstd::string::*;
use crate::digest::{sri_of, sri_value};
use crate::element::{Dom, DomNode, NodeData};
use crate::mime_ext::{same_essence, MediaType, MimeExt};
use crate::node_iter::{
    attr_value, attrs_set, attrs_view, opt_view, Attribute, AttributeView, AttrsExt, QualName,
    QualNameView,
};
use crate::text::str_eq;

verus! {

/// The path of a URL, when the URL parses.
pub uninterp spec fn url_path_of(url: Seq<char>) -> Option<Seq<char>>;

/// The essence of a media type written as text, when the text parses.
pub uninterp spec fn mime_essence_of(s: Seq<char>) -> Option<Seq<char>>;

/// The essences of the media types guessed from a path's file extension.
pub uninterp spec fn guessed_essences(path: Seq<char>) -> Seq<Seq<char>>;

#[verifier::external_type_specification]
#[verifier::external_body]
pub struct ExUrlParseError(url::ParseError);

#[verifier::external_type_specification]
#[verifier::external_body]
pub struct ExMimeFromStrError(mime::FromStrError);

/// Relies on `url::Url::parse` followed by `Url::path`.
#[verifier::external_body]
fn parse_url_path(url: &str) -> (r: Result<String, url::ParseError>)
    ensures
        match r {
            Ok(p) => url_path_of(url@) == Some(p@),
            Err(_) => url_path_of(url@) is None,
        },
{
    url::Url::parse(url).map(|u| u.path().to_string())
}

/// Relies on `mime::Mime::from_str` followed by `Mime::essence_str`.
#[verifier::external_body]
fn parse_media_type(s: &str) -> (r: Result<MediaType, mime::FromStrError>)
    ensures
        match r {
            Ok(m) => mime_essence_of(s@) == Some(m.essence@),
            Err(_) => mime_essence_of(s@) is None,
        },
{
    s.parse::<mime::Mime>().map(|m| MediaType { essence: m.essence_str().to_string() })
}

/// Relies on `mime_guess::from_path` and `MimeGuess::iter`, keeping each
/// guess's `essence_str`.
#[verifier::external_body]
fn guess_media_types(path: &str) -> (r: Vec<MediaType>)
    ensures
        r@.map_values(|m: MediaType| m.essence@) == guessed_essences(path@),
{
    mime_guess::from_path(path).iter().map(|m| MediaType { essence: m.essence_str().to_string() }).collect()
}

/// The cap on the number of body bytes that are read and hashed (10 MiB).
pub const MAX_BODY_BYTES: usize = 10 * 1024 * 1024;

/// What a GET of a resource produced: the declared content type and the
/// outcome of reading the body, or the message of a transport failure.
#[derive(Debug, PartialEq, Eq)]
pub struct Fetched {
    pub content_type: String,
    pub body: Result<Vec<u8>, String>,
}

/// Why no `integrity` value was produced for a resource.
#[derive(Debug, PartialEq, Eq)]
pub enum SriError {
    /// The request failed; the transport's message.
    Fetch(String),
    /// The URL does not parse.
    InvalidUrl(url::ParseError),
    /// The declared content type does not parse; the declared text.
    UnparsableContentType(String),
    /// The declared content type does not fit the URL's extension.
    InvalidContentType(String),
    /// Reading the body failed; the reader's message.
    ReadBody(String),
}

/// Some guessed essence is the same as the declared one.
pub open spec fn essence_accepted(guessed: Seq<Seq<char>>, declared: Seq<char>) -> bool {
    exists|i: int| 0 <= i < guessed.len() && same_essence(#[trigger] guessed[i], declared)
}

/// The content type declared for a resource at `url` is one that its
/// path's file extension allows.
pub open spec fn content_type_accepted(url: Seq<char>, content_type: Seq<char>) -> bool {
    match url_path_of(url) {
        None => false,
        Some(path) => match mime_essence_of(content_type) {
            None => false,
            Some(declared) => essence_accepted(guessed_essences(path), declared),
        },
    }
}

/// The error given when the content type is not accepted.
pub open spec fn content_type_error_fits(url: Seq<char>, content_type: Seq<char>, e: SriError) -> bool {
    match url_path_of(url) {
        None => e is InvalidUrl,
        Some(path) => match mime_essence_of(content_type) {
            None => e matches SriError::UnparsableContentType(c) && c@ == content_type,
            Some(declared) => e matches SriError::InvalidContentType(c) && c@ == content_type,
        },
    }
}

/// The `integrity` value produced for a resource at `url`, if any.
pub open spec fn sri_result(url: Seq<char>, fetched: Result<Fetched, String>) -> Option<Seq<char>> {
    match fetched {
        Err(_) => None,
        Ok(f) => if content_type_accepted(url, f.content_type@) {
            match f.body {
                Ok(b) => Some(sri_of(b@)),
                Err(_) => None,
            }
        } else {
            None
        },
    }
}

/// The error given for a resource at `url` that produced no value.
pub open spec fn sri_error_fits(url: Seq<char>, fetched: Result<Fetched, String>, e: SriError) -> bool {
    match fetched {
        Err(m) => e matches SriError::Fetch(x) && x@ == m@,
        Ok(f) => if content_type_accepted(url, f.content_type@) {
            match f.body {
                Ok(_) => false,
                Err(m) => e matches SriError::ReadBody(x) && x@ == m@,
            }
        } else {
            content_type_error_fits(url, f.content_type@, e)
        },
    }
}

/// Whether some candidate has the same essence as `declared`.
pub fn any_same_essence(candidates: &Vec<MediaType>, declared: &MediaType) -> (r: bool)
    ensures
        r == essence_accepted(
            candidates@.map_values(|m: MediaType| m.essence@),
            declared.essence@,
        ),
{
    let ghost g = candidates@.map_values(|m: MediaType| m.essence@);
    let mut i: usize = 0;
    while i < candidates.len()
        invariant
            g == candidates@.map_values(|m: MediaType| m.essence@),
            i <= candidates@.len(),
            forall|j: int| 0 <= j < i ==> !same_essence(#[trigger] g[j], declared.essence@),
        decreases candidates@.len() - i,
    {
        if candidates[i].is_same_essence(declared) {
            assert(same_essence(g[i as int], declared.essence@));
            return true;
        }
        i += 1;
    }
    false
}

/// Checks that the content type declared for a resource fits the file
/// extension of the URL's path: some media type guessed from the extension
/// has the same essence as the declared one.
pub fn check_content_type(url: &str, content_type: &String) -> (r: Result<(), SriError>)
    ensures
        match r {
            Ok(_) => content_type_accepted(url@, content_type@),
            Err(e) => !content_type_accepted(url@, content_type@) && content_type_error_fits(
                url@,
                content_type@,
                e,
            ),
        },
{
    let path = match parse_url_path(url) {
        Ok(p) => p,
        Err(e) => return Err(SriError::InvalidUrl(e)),
    };
    let declared = match parse_media_type(content_type.as_str()) {
        Ok(m) => m,
        Err(_) => return Err(SriError::UnparsableContentType(content_type.clone())),
    };
    let candidates = guess_media_types(path.as_str());
    if any_same_essence(&candidates, &declared) {
        Ok(())
    } else {
        Err(SriError::InvalidContentType(content_type.clone()))
    }
}

/// The `integrity` value for a fetched resource, after checking that its
/// declared content type fits the file extension of the URL's path.
pub fn get_sri_from_response(url: &str, fetched: &Result<Fetched, String>) -> (r: Result<
    String,
    SriError,
>)
    ensures
        match r {
            Ok(v) => sri_result(url@, *fetched) == Some(v@),
            Err(e) => sri_result(url@, *fetched) is None && sri_error_fits(url@, *fetched, e),
        },
{
    let f = match fetched {
        Ok(f) => f,
        Err(m) => return Err(SriError::Fetch(m.clone())),
    };
    match check_content_type(url, &f.content_type) {
        Ok(()) => {},
        Err(e) => return Err(e),
    }
    match &f.body {
        Ok(b) => Ok(sri_value(b.as_slice())),
        Err(m) => Err(SriError::ReadBody(m.clone())),
    }
}

/// The HTML namespace.
pub open spec fn html_ns() -> Seq<char> {
    "http://www.w3.org/1999/xhtml"@
}

/// A name in no namespace, without prefix.
pub open spec fn no_ns_name(local: Seq<char>) -> QualNameView {
    QualNameView { prefix: None, ns: Seq::empty(), local }
}

/// The name of the `integrity` attribute.
pub open spec fn integrity_name() -> QualNameView {
    no_ns_name("integrity"@)
}

/// An element of the HTML namespace with the given local name.
pub open spec fn is_html_element(name: QualNameView, local: Seq<char>) -> bool {
    name.ns == html_ns() && name.local == local
}

/// The `rel` attribute is exactly one of the values that SRI applies to.
pub open spec fn rel_with_sri(attrs: Seq<AttributeView>) -> bool {
    match attr_value(attrs, no_ns_name("rel"@)) {
        Some(v) => v == "stylesheet"@ || v == "preload"@ || v == "modulepreload"@,
        None => false,
    }
}

/// The URL of the resource that an element refers to, where SRI applies to
/// the element: `src` of a script, `href` of a link with a suitable `rel`.
pub open spec fn resource_url(name: QualNameView, attrs: Seq<AttributeView>) -> Option<Seq<char>> {
    if is_html_element(name, "script"@) {
        attr_value(attrs, no_ns_name("src"@))
    } else if is_html_element(name, "link"@) && rel_with_sri(attrs) {
        attr_value(attrs, no_ns_name("href"@))
    } else {
        None
    }
}

/// The URL to fetch for an element: none where an `integrity` attribute is
/// present and is to be kept.
pub open spec fn sri_request(name: QualNameView, attrs: Seq<AttributeView>, force: bool) -> Option<
    Seq<char>,
> {
    if attr_value(attrs, integrity_name()) is Some && !force {
        None
    } else {
        resource_url(name, attrs)
    }
}

fn no_ns(local: &str) -> (r: QualName)
    ensures
        r@ == no_ns_name(local@),
{
    QualName { prefix: None, ns: String::new(), local: String::from_str(local) }
}

fn is_html(name: &QualName, local: &str) -> (r: bool)
    ensures
        r == is_html_element(name@, local@),
{
    str_eq(name.ns.as_str(), "http://www.w3.org/1999/xhtml") && str_eq(name.local.as_str(), local)
}

/// Whether the `rel` attribute is one of `stylesheet`, `preload`, `modulepreload`.
pub fn is_rel_with_sri(attrs: &Vec<Attribute>) -> (r: bool)
    ensures
        r == rel_with_sri(attrs_view(attrs@)),
{
    match attrs.get(&no_ns("rel")) {
        Some(rel) => {
            let v = rel.as_str();
            str_eq(v, "stylesheet") || str_eq(v, "preload") || str_eq(v, "modulepreload")
        },
        None => false,
    }
}

/// The URL of the resource an element refers to, where SRI applies to it.
pub fn source_url(name: &QualName, attrs: &Vec<Attribute>) -> (r: Option<String>)
    ensures
        opt_view(r) == resource_url(name@, attrs_view(attrs@)),
{
    if is_html(name, "script") {
        attrs.get(&no_ns("src"))
    } else if is_html(name, "link") && is_rel_with_sri(attrs) {
        attrs.get(&no_ns("href"))
    } else {
        None
    }
}

/// The URL to fetch for an element, if any.
pub fn element_request(name: &QualName, attrs: &Vec<Attribute>, force: bool) -> (r: Option<String>)
    ensures
        opt_view(r) == sri_request(name@, attrs_view(attrs@), force),
{
    if attrs.get(&no_ns("integrity")).is_some() && !force {
        None
    } else {
        source_url(name, attrs)
    }
}

/// Writes an `integrity` value into an element's attributes: an existing
/// `integrity` attribute keeps its place, otherwise one is appended.
pub fn add_sri_to_element(attrs: &mut Vec<Attribute>, sri: String)
    ensures
        attrs_view(final(attrs)@) == attrs_set(attrs_view(old(attrs)@), integrity_name(), sri@),
{
    let name = no_ns("integrity");
    if attrs.get(&name).is_some() {
        AttrsExt::set(attrs, &name, sri);
    } else {
        attrs.push(Attribute { name, value: sri });
        assert(attrs_view(attrs@) =~= attrs_view(old(attrs)@).push(
            AttributeView { name: integrity_name(), value: sri@ },
        ));
    }
}

/// The URL to fetch for a node: only elements have one.
pub open spec fn node_request(n: DomNode, force: bool) -> Option<Seq<char>> {
    match n.data {
        NodeData::Element(e) => sri_request(e.name@, attrs_view(e.attrs@), force),
        _ => None,
    }
}

/// The URLs to fetch for a document, in pre-order.
pub open spec fn dom_requests(nodes: Seq<DomNode>, force: bool) -> Seq<Seq<char>>
    decreases nodes.len(),
{
    if nodes.len() == 0 {
        Seq::empty()
    } else {
        let prev = dom_requests(nodes.drop_last(), force);
        match node_request(nodes.last(), force) {
            Some(u) => prev.push(u),
            None => prev,
        }
    }
}

/// The number of requests made for the nodes before position `i`.
pub open spec fn requests_before(nodes: Seq<DomNode>, i: int, force: bool) -> int {
    dom_requests(nodes.subrange(0, i), force).len() as int
}

/// How a node stands after the injection, given what its request produced.
pub open spec fn node_after(old: DomNode, new: DomNode, force: bool, fetched: Result<Fetched, String>) -> bool {
    match node_request(old, force) {
        None => new == old,
        Some(url) => match sri_result(url, fetched) {
            None => new == old,
            Some(v) => new.depth == old.depth && match (old.data, new.data) {
                (NodeData::Element(a), NodeData::Element(b)) => {
                    &&& b.name == a.name
                    &&& b.template_contents == a.template_contents
                    &&& b.mathml_annotation_xml_integration_point
                        == a.mathml_annotation_xml_integration_point
                    &&& attrs_view(b.attrs@) == attrs_set(attrs_view(a.attrs@), integrity_name(), v)
                },
                _ => false,
            },
        },
    }
}

/// `new` is what the injection makes of `old`, node by node, given the
/// outcomes of the requests in order.
pub open spec fn injected(old: Seq<DomNode>, new: Seq<DomNode>, force: bool, fetched: Seq<Result<Fetched, String>>) -> bool {
    &&& new.len() == old.len()
    &&& forall|i: int|
        0 <= i < old.len() ==> node_after(old[i], #[trigger] new[i], force, fetched[requests_before(old, i, force)])
}

/// The requests that produced no value, in pre-order: each URL with the
/// position of its outcome in `fetched`.
pub open spec fn dom_failures(nodes: Seq<DomNode>, force: bool, fetched: Seq<Result<Fetched, String>>) -> Seq<(Seq<char>, int)>
    decreases nodes.len(),
{
    if nodes.len() == 0 {
        Seq::empty()
    } else {
        let prev = dom_failures(nodes.drop_last(), force, fetched);
        let k = dom_requests(nodes.drop_last(), force).len() as int;
        match node_request(nodes.last(), force) {
            Some(u) => if sri_result(u, fetched[k]) is None {
                prev.push((u, k))
            } else {
                prev
            },
            None => prev,
        }
    }
}

/// The failures reported for a document: each names the URL of a request
/// that produced no value, with the error that its outcome gives.
pub open spec fn failures_reported(failures: Seq<(String, SriError)>, expected: Seq<(Seq<char>, int)>, fetched: Seq<Result<Fetched, String>>) -> bool {
    &&& failures.len() == expected.len()
    &&& forall|j: int|
        0 <= j < failures.len() ==> (#[trigger] failures[j]).0@ == expected[j].0 && sri_error_fits(
            expected[j].0,
            fetched[expected[j].1],
            failures[j].1,
        )
}

/// The requests for a prefix of the nodes are a prefix of the requests for
/// a longer one.
pub proof fn lemma_requests_prefix(s: Seq<DomNode>, i: int, j: int, force: bool)
    requires
        0 <= i <= j <= s.len(),
    ensures
        requests_before(s, i, force) <= requests_before(s, j, force),
        forall|t: int|
            0 <= t < requests_before(s, i, force) ==> dom_requests(s.subrange(0, i), force)[t]
                == #[trigger] dom_requests(s.subrange(0, j), force)[t],
    decreases j - i,
{
    if i < j {
        lemma_requests_prefix(s, i, j - 1, force);
        assert(s.subrange(0, j).drop_last() =~= s.subrange(0, j - 1));
    }
}

/// The request of a node sits in the document's requests at the number of
/// requests before it.
pub proof fn lemma_request_at(s: Seq<DomNode>, i: int, force: bool)
    requires
        0 <= i < s.len(),
        node_request(s[i], force) is Some,
    ensures
        requests_before(s, i, force) < dom_requests(s, force).len(),
        dom_requests(s, force)[requests_before(s, i, force)] == node_request(s[i], force)->Some_0,
{
    assert(s.subrange(0, i + 1).drop_last() =~= s.subrange(0, i));
    assert(s.subrange(0, i + 1).last() == s[i]);
    lemma_requests_prefix(s, i + 1, s.len() as int, force);
    assert(s.subrange(0, s.len() as int) =~= s);
}

/// The URL to fetch for a node, if any.
pub fn node_request_for(n: &DomNode, force: bool) -> (r: Option<String>)
    ensures
        opt_view(r) == node_request(*n, force),
{
    match &n.data {
        NodeData::Element(e) => element_request(&e.name, &e.attrs, force),
        _ => None,
    }
}

/// The URLs to fetch for a document, one per element that takes an
/// `integrity` value, in pre-order.
pub fn sri_requests(dom: &Dom, force: bool) -> (r: Vec<String>)
    ensures
        r@.map_values(|s: String| s@) == dom_requests(dom.nodes@, force),
{
    let mut out: Vec<String> = Vec::new();
    let mut i: usize = 0;
    while i < dom.nodes.len()
        invariant
            i <= dom.nodes@.len(),
            out@.map_values(|s: String| s@) == dom_requests(dom.nodes@.subrange(0, i as int), force),
        decreases dom.nodes@.len() - i,
    {
        let ghost before = out@;
        assert(dom.nodes@.subrange(0, i as int + 1).drop_last() =~= dom.nodes@.subrange(0, i as int));
        match node_request_for(&dom.nodes[i], force) {
            Some(u) => {
                out.push(u);
                assert(out@.map_values(|s: String| s@) =~= before.map_values(|s: String| s@).push(u@));
            },
            None => {},
        }
        i += 1;
    }
    assert(dom.nodes@.subrange(0, i as int) =~= dom.nodes@);
    out
}

/// Adds or replaces `integrity` attributes across a document. `fetched`
/// holds what each request of `sri_requests` produced, in the same order.
/// Elements whose resource yields no value are left as they were; the
/// returned list names each of them with its error, in pre-order.
pub fn update_sri_for_dom(dom: &mut Dom, force: bool, fetched: &Vec<Result<Fetched, String>>) -> (failures: Vec<(String, SriError)>)
    requires
        fetched@.len() == dom_requests(old(dom).nodes@, force).len(),
    ensures
        injected(old(dom).nodes@, final(dom).nodes@, force, fetched@),
        old(dom).well_formed() ==> final(dom).well_formed(),
        failures_reported(failures@, dom_failures(old(dom).nodes@, force, fetched@), fetched@),
{
    let ghost s = dom.nodes@;
    let mut failures: Vec<(String, SriError)> = Vec::new();
    let mut i: usize = 0;
    let mut k: usize = 0;
    let n_fetched = fetched.len();
    proof {
        assert(s.subrange(0, s.len() as int) =~= s);
    }
    while i < dom.nodes.len()
        invariant
            dom.nodes@.len() == s.len(),
            i <= s.len(),
            fetched@.len() == dom_requests(s, force).len(),
            requests_before(s, s.len() as int, force) == fetched@.len(),
            n_fetched == fetched@.len(),
            k == requests_before(s, i as int, force),
            forall|j: int| 0 <= j < i ==> node_after(s[j], #[trigger] dom.nodes@[j], force, fetched@[requests_before(s, j, force)]),
            forall|j: int| i <= j < s.len() ==> #[trigger] dom.nodes@[j] == s[j],
            failures_reported(failures@, dom_failures(s.subrange(0, i as int), force, fetched@), fetched@),
        decreases s.len() - i,
    {
        proof {
            assert(s.subrange(0, i as int + 1).drop_last() =~= s.subrange(0, i as int));
            assert(s.subrange(0, i as int + 1).last() == s[i as int]);
            lemma_requests_prefix(s, i as int + 1, s.len() as int, force);
        }
        match node_request_for(&dom.nodes[i], force) {
            Some(url) => {
                assert(k < fetched@.len());
                let idx = k;
                k += 1;
                match get_sri_from_response(url.as_str(), &fetched[idx]) {
                    Ok(sri) => {
                        let node = &mut dom.nodes[i];
                        match &mut node.data {
                            NodeData::Element(e) => {
                                add_sri_to_element(&mut e.attrs, sri);
                            },
                            _ => {},
                        }
                    },
                    Err(e) => {
                        failures.push((url, e));
                    },
                }
            },
            None => {},
        }
        i += 1;
    }
    assert forall|j: int| 0 <= j < s.len() implies #[trigger] dom.nodes@[j].depth == s[j].depth by {
        assert(node_after(s[j], dom.nodes@[j], force, fetched@[requests_before(s, j, force)]));
    }
    failures
}

} // verus!
