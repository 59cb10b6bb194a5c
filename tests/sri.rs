use sric::digest::sri_value;
use sric::element::{Dom, DomNode, Element, NodeData, NodeIter};
use sric::generate_sri::{
    add_sri_to_element, any_same_essence, check_content_type, element_request, get_sri_from_response,
    is_rel_with_sri, source_url, sri_requests, update_sri_for_dom, Fetched, SriError,
    MAX_BODY_BYTES,
};
use sric::mime_ext::{normalized_essence, MediaType, MimeExt};
use sric::node_iter::{AttrsExt, Attribute, QualName};
use sric::response_ext::ResponseExt;

const HTML: &str = "http://www.w3.org/1999/xhtml";

fn html_name(local: &str) -> QualName {
    QualName { prefix: None, ns: HTML.to_string(), local: local.to_string() }
}

fn attr_name(local: &str) -> QualName {
    QualName { prefix: None, ns: String::new(), local: local.to_string() }
}

fn attr(local: &str, value: &str) -> Attribute {
    Attribute { name: attr_name(local), value: value.to_string() }
}

fn element(local: &str, attrs: Vec<Attribute>) -> NodeData {
    NodeData::Element(Element {
        name: html_name(local),
        attrs,
        template_contents: None,
        mathml_annotation_xml_integration_point: false,
    })
}

/// `<html><head>{el}</head><body>text</body></html>`
fn document(el: NodeData) -> Dom {
    let mut dom = Dom::new();
    assert!(dom.push_node(1, element("html", vec![])));
    assert!(dom.push_node(2, element("head", vec![])));
    assert!(dom.push_node(3, el));
    assert!(dom.push_node(2, element("body", vec![])));
    assert!(dom.push_node(3, NodeData::Text { contents: "text".to_string() }));
    dom
}

fn ok(content_type: &str, body: &[u8]) -> Result<Fetched, String> {
    Ok(Fetched { content_type: content_type.to_string(), body: Ok(body.to_vec()) })
}

fn attrs_of(dom: &Dom, i: usize) -> &Vec<Attribute> {
    match &dom.nodes[i].data {
        NodeData::Element(e) => &e.attrs,
        _ => panic!("not an element"),
    }
}

fn media(e: &str) -> MediaType {
    MediaType { essence: e.to_string() }
}

const JS_BODY: &[u8] = b"console.log(1);";
const JS_SRI: &str = "sha384-JawyHuhqEMFMvdtX+VHylbI0hfJp2F7nvwFVRqqfuOoK5oW7TG/7V11Zs7zeFWIE";
const CSS_SRI: &str = "sha384-8U9HYzsHbf55cFZyiWIE29+QPYQ9WO+U5uT/ViFw0TOwM2Fbbb74ZegzRV/nvwrD";

#[test]
fn normalizes_structured_suffixes() {
    assert_eq!(normalized_essence("application/ld+json"), "application/json");
    assert_eq!(normalized_essence("image/svg+xml"), "image/svg+xml");
    assert_eq!(normalized_essence("application/atom+xml"), "application/xml");
}

#[test]
fn normalizes_javascript_aliases() {
    for e in [
        "application/ecmascript", "application/javascript", "application/x-ecmascript",
        "application/x-javascript", "text/ecmascript", "text/javascript", "text/javascript1.0",
        "text/javascript1.1", "text/javascript1.2", "text/javascript1.3", "text/javascript1.4",
        "text/javascript1.5", "text/jscript", "text/livescript", "text/x-ecmascript",
        "text/x-javascript",
    ] {
        assert_eq!(normalized_essence(e), "application/javascript");
    }
}

#[test]
fn normalizes_text_json_and_xml_and_keeps_others() {
    assert_eq!(normalized_essence("text/json"), "application/json");
    assert_eq!(normalized_essence("text/xml"), "application/xml");
    assert_eq!(normalized_essence("text/css"), "text/css");
    assert_eq!(normalized_essence("text/javascript1.6"), "text/javascript1.6");
}

#[test]
fn same_essence_iff_normal_forms_equal() {
    let pairs = [
        ("text/javascript", "application/x-javascript", true),
        ("text/json", "application/vnd.api+json", true),
        ("text/css", "text/css", true),
        ("text/css", "text/html", false),
        ("application/javascript", "application/octet-stream", false),
    ];
    for (a, b, expected) in pairs {
        assert_eq!(media(a).is_same_essence(&media(b)), expected);
        assert_eq!(normalized_essence(a) == normalized_essence(b), expected);
        assert_eq!(media(a).normalized_essence_str(), normalized_essence(a));
    }
}

#[test]
fn any_same_essence_scans_all_candidates() {
    let candidates = vec![media("text/plain"), media("application/javascript")];
    assert!(any_same_essence(&candidates, &media("text/javascript")));
    assert!(!any_same_essence(&candidates, &media("text/html")));
    assert!(!any_same_essence(&vec![], &media("text/html")));
}

#[test]
fn sri_value_of_empty_body() {
    assert_eq!(sri_value(b""), "sha384-OLBgp1GsljhM2TJ+sbHjaiH9txEUvgdDTAzHv2P24donTt6/529l+9Ua0vFImLlb");
}

#[test]
fn sri_value_of_script_body() {
    assert_eq!(sri_value(JS_BODY), JS_SRI);
    assert_ne!(sri_value(b"console.log(2);"), JS_SRI);
}

#[test]
fn response_javascript_accepted() {
    let r = get_sri_from_response("https://cdn.example/app.js", &ok("application/javascript", JS_BODY));
    assert_eq!(r, Ok(JS_SRI.to_string()));
}

#[test]
fn response_essence_equivalence() {
    for ct in ["text/javascript", "application/x-javascript", "text/javascript; charset=utf-8"] {
        let r = get_sri_from_response("https://x/a.js", &ok(ct, JS_BODY));
        assert_eq!(r, Ok(JS_SRI.to_string()));
    }
    let r = get_sri_from_response("https://x/a.js", &ok("application/octet-stream", JS_BODY));
    assert_eq!(r, Err(SriError::InvalidContentType("application/octet-stream".to_string())));
}

#[test]
fn response_content_type_mismatch() {
    let r = get_sri_from_response("https://x/a.js", &ok("text/html", JS_BODY));
    assert_eq!(r, Err(SriError::InvalidContentType("text/html".to_string())));
}

#[test]
fn response_stylesheet_accepted() {
    let r = get_sri_from_response("https://cdn.example/a.css", &ok("text/css", b"body{color:red}"));
    assert_eq!(r, Ok(CSS_SRI.to_string()));
}

#[test]
fn response_fetch_failure() {
    let r = get_sri_from_response("https://x/a.js", &Err("connection refused".to_string()));
    assert_eq!(r, Err(SriError::Fetch("connection refused".to_string())));
}

#[test]
fn response_invalid_url() {
    let r = get_sri_from_response("not a url", &ok("application/javascript", JS_BODY));
    assert!(matches!(r, Err(SriError::InvalidUrl(_))));
}

#[test]
fn response_unparsable_content_type() {
    let r = get_sri_from_response("https://x/a.js", &ok("garbage", JS_BODY));
    assert_eq!(r, Err(SriError::UnparsableContentType("garbage".to_string())));
}

#[test]
fn response_body_read_failure() {
    let f = Fetched { content_type: "text/javascript".to_string(), body: Err("reset".to_string()) };
    let r = get_sri_from_response("https://x/a.js", &Ok(f));
    assert_eq!(r, Err(SriError::ReadBody("reset".to_string())));
}

#[test]
fn response_with_unknown_extension_rejected() {
    let r = get_sri_from_response("https://x/app", &ok("application/javascript", JS_BODY));
    assert_eq!(r, Err(SriError::InvalidContentType("application/javascript".to_string())));
}

#[test]
fn attrs_get_finds_first_match() {
    let attrs = vec![attr("a", "1"), attr("b", "2"), attr("a", "3")];
    assert_eq!(attrs.get(&attr_name("a")), Some("1".to_string()));
    assert_eq!(attrs.get(&attr_name("c")), None);
    assert_eq!(attrs.get(&html_name("a")), None);
}

#[test]
fn attrs_set_replaces_in_place_or_appends() {
    let mut attrs = vec![attr("a", "1"), attr("b", "2"), attr("a", "3")];
    attrs.set(&attr_name("a"), "x".to_string());
    assert_eq!(attrs, vec![attr("a", "x"), attr("b", "2"), attr("a", "3")]);
    attrs.set(&attr_name("c"), "y".to_string());
    assert_eq!(attrs, vec![attr("a", "x"), attr("b", "2"), attr("a", "3"), attr("c", "y")]);
}

#[test]
fn rel_values_with_sri() {
    for (rel, expected) in [
        ("stylesheet", true), ("preload", true), ("modulepreload", true), ("icon", false),
        ("Stylesheet", false), ("stylesheet preload", false),
    ] {
        assert_eq!(is_rel_with_sri(&vec![attr("rel", rel)]), expected);
    }
    assert!(!is_rel_with_sri(&vec![]));
}

#[test]
fn source_url_by_element_kind() {
    let src = vec![attr("src", "https://x/a.js")];
    assert_eq!(source_url(&html_name("script"), &src), Some("https://x/a.js".to_string()));
    let svg = QualName { prefix: None, ns: "http://www.w3.org/2000/svg".to_string(), local: "script".to_string() };
    assert_eq!(source_url(&svg, &src), None);
    assert_eq!(source_url(&html_name("img"), &src), None);
    assert_eq!(source_url(&html_name("script"), &vec![]), None);
    let link = vec![attr("rel", "stylesheet"), attr("href", "https://x/a.css")];
    assert_eq!(source_url(&html_name("link"), &link), Some("https://x/a.css".to_string()));
    let icon = vec![attr("rel", "icon"), attr("href", "https://x/favicon.ico")];
    assert_eq!(source_url(&html_name("link"), &icon), None);
}

#[test]
fn element_request_respects_existing_integrity() {
    let attrs = vec![attr("src", "https://x/a.js"), attr("integrity", "sha384-AAA")];
    assert_eq!(element_request(&html_name("script"), &attrs, false), None);
    assert_eq!(element_request(&html_name("script"), &attrs, true), Some("https://x/a.js".to_string()));
}

#[test]
fn add_sri_appends_or_replaces() {
    let mut attrs = vec![attr("src", "s")];
    add_sri_to_element(&mut attrs, "sha384-B".to_string());
    assert_eq!(attrs, vec![attr("src", "s"), attr("integrity", "sha384-B")]);
    let mut attrs = vec![attr("integrity", "old"), attr("src", "s")];
    add_sri_to_element(&mut attrs, "new".to_string());
    assert_eq!(attrs, vec![attr("integrity", "new"), attr("src", "s")]);
}

#[test]
fn push_node_keeps_preorder_depths() {
    let mut dom = Dom::new();
    assert!(!dom.push_node(0, NodeData::Document));
    assert!(!dom.push_node(2, element("html", vec![])));
    assert!(dom.push_node(1, element("html", vec![])));
    assert!(dom.push_node(2, element("head", vec![])));
    assert!(dom.push_node(1, NodeData::Comment { contents: "c".to_string() }));
    assert_eq!(dom.nodes.len(), 4);
}

#[test]
fn script_tag_happy_path() {
    let mut dom = document(element("script", vec![attr("src", "https://cdn.example/app.js")]));
    let requests = sri_requests(&dom, false);
    assert_eq!(requests, vec!["https://cdn.example/app.js".to_string()]);
    let failures = update_sri_for_dom(&mut dom, false, &vec![ok("application/javascript", JS_BODY)]);
    assert!(failures.is_empty());
    assert_eq!(attrs_of(&dom, 3), &vec![attr("src", "https://cdn.example/app.js"), attr("integrity", JS_SRI)]);
}

#[test]
fn link_with_rel_stylesheet() {
    let mut dom = document(element("link", vec![attr("rel", "stylesheet"), attr("href", "https://cdn.example/a.css")]));
    assert_eq!(sri_requests(&dom, false), vec!["https://cdn.example/a.css".to_string()]);
    let failures = update_sri_for_dom(&mut dom, false, &vec![ok("text/css", b"body{color:red}")]);
    assert!(failures.is_empty());
    assert_eq!(
        attrs_of(&dom, 3),
        &vec![attr("rel", "stylesheet"), attr("href", "https://cdn.example/a.css"), attr("integrity", CSS_SRI)]
    );
}

#[test]
fn link_with_rel_icon_is_ineligible() {
    let mut dom = document(element("link", vec![attr("rel", "icon"), attr("href", "https://x/favicon.ico")]));
    let expected = document(element("link", vec![attr("rel", "icon"), attr("href", "https://x/favicon.ico")]));
    assert!(sri_requests(&dom, false).is_empty());
    assert!(sri_requests(&dom, true).is_empty());
    let failures = update_sri_for_dom(&mut dom, true, &vec![]);
    assert!(failures.is_empty());
    assert_eq!(dom, expected);
}

#[test]
fn existing_integrity_without_force() {
    let el = || element("script", vec![attr("src", "https://x/a.js"), attr("integrity", "sha384-AAA")]);
    let mut dom = document(el());
    assert!(sri_requests(&dom, false).is_empty());
    let failures = update_sri_for_dom(&mut dom, false, &vec![]);
    assert!(failures.is_empty());
    assert_eq!(dom, document(el()));
}

#[test]
fn existing_integrity_with_force() {
    let mut dom = document(element("script", vec![attr("src", "https://x/a.js"), attr("integrity", "sha384-AAA")]));
    assert_eq!(sri_requests(&dom, true), vec!["https://x/a.js".to_string()]);
    let failures = update_sri_for_dom(&mut dom, true, &vec![ok("text/javascript", JS_BODY)]);
    assert!(failures.is_empty());
    assert_eq!(attrs_of(&dom, 3), &vec![attr("src", "https://x/a.js"), attr("integrity", JS_SRI)]);
}

#[test]
fn content_type_mismatch_leaves_element() {
    let el = || element("script", vec![attr("src", "https://x/a.js")]);
    let mut dom = document(el());
    let failures = update_sri_for_dom(&mut dom, false, &vec![ok("text/html", b"<html></html>")]);
    assert_eq!(failures.len(), 1);
    assert_eq!(failures[0].0, "https://x/a.js");
    assert_eq!(failures[0].1, SriError::InvalidContentType("text/html".to_string()));
    assert_eq!(dom, document(el()));
}

#[test]
fn second_run_without_force_changes_nothing() {
    let build = || {
        let mut dom = document(element("script", vec![attr("src", "https://x/a.js")]));
        assert!(dom.push_node(3, element("script", vec![attr("src", "https://x/b.js")])));
        dom
    };
    let respond = |url: &String| {
        if url.ends_with("a.js") { ok("text/javascript", JS_BODY) } else { ok("text/html", b"") }
    };
    let mut once = build();
    let fetched: Vec<_> = sri_requests(&once, false).iter().map(respond).collect();
    update_sri_for_dom(&mut once, false, &fetched);
    let mut twice = build();
    let fetched: Vec<_> = sri_requests(&twice, false).iter().map(respond).collect();
    update_sri_for_dom(&mut twice, false, &fetched);
    let again: Vec<_> = sri_requests(&twice, false).iter().map(respond).collect();
    assert_eq!(again.len(), 1);
    update_sri_for_dom(&mut twice, false, &again);
    assert_eq!(once, twice);
}

#[test]
fn requests_follow_preorder() {
    let mut dom = document(element("script", vec![attr("src", "https://x/1.js")]));
    assert!(dom.push_node(3, element("link", vec![attr("rel", "preload"), attr("href", "https://x/2.css")])));
    assert!(dom.push_node(4, element("script", vec![attr("src", "https://x/3.js")])));
    assert_eq!(
        sri_requests(&dom, false),
        vec!["https://x/1.js".to_string(), "https://x/2.css".to_string(), "https://x/3.js".to_string()]
    );
}

#[test]
fn read_bytes_is_capped() {
    let r = ureq::Response::new(200, "OK", "hello world").unwrap();
    assert_eq!(r.read_bytes_with_limit(5).unwrap(), b"hello".to_vec());
    let r = ureq::Response::new(200, "OK", "hello world").unwrap();
    assert_eq!(r.read_bytes_with_limit(MAX_BODY_BYTES).unwrap(), b"hello world".to_vec());
    assert_eq!(MAX_BODY_BYTES, 10 * 1024 * 1024);
}

#[test]
fn find_first_in_preorder() {
    let mut dom = document(element("script", vec![attr("src", "https://x/1.js")]));
    assert!(dom.push_node(3, element("script", vec![attr("src", "https://x/2.js")])));
    let is_script = |n: &DomNode| matches!(&n.data, NodeData::Element(e) if e.name.local == "script");
    assert_eq!(dom.find_first(is_script), Some(3));
    let is_comment = |n: &DomNode| matches!(&n.data, NodeData::Comment { .. });
    assert_eq!(dom.find_first(is_comment), None);
}

#[test]
fn content_type_check_by_extension() {
    assert_eq!(check_content_type("https://x/a.js", &"text/javascript".to_string()), Ok(()));
    assert_eq!(check_content_type("https://x/a.css", &"text/css".to_string()), Ok(()));
    assert_eq!(
        check_content_type("https://x/a.css", &"text/javascript".to_string()),
        Err(SriError::InvalidContentType("text/javascript".to_string()))
    );
    assert_eq!(
        check_content_type("https://x/a.js", &"nonsense".to_string()),
        Err(SriError::UnparsableContentType("nonsense".to_string()))
    );
    assert!(matches!(check_content_type("::", &"text/css".to_string()), Err(SriError::InvalidUrl(_))));
}
