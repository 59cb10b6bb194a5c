//! Media types and the normalisation of their essence.

use vstd::prelude::*;
use crate::text::{ends_with, str_ends_with, str_eq};

verus! {

/// A media type, kept as its essence: `type/subtype` without parameters.
#[derive(Debug, PartialEq, Eq)]
pub struct MediaType {
    pub essence: String,
}

/// The legacy names under which JavaScript has been registered.
pub open spec fn is_javascript_alias(e: Seq<char>) -> bool {
    ||| e == "application/ecmascript"@
    ||| e == "application/javascript"@
    ||| e == "application/x-ecmascript"@
    ||| e == "application/x-javascript"@
    ||| e == "text/ecmascript"@
    ||| e == "text/javascript"@
    ||| e == "text/javascript1.0"@
    ||| e == "text/javascript1.1"@
    ||| e == "text/javascript1.2"@
    ||| e == "text/javascript1.3"@
    ||| e == "text/javascript1.4"@
    ||| e == "text/javascript1.5"@
    ||| e == "text/jscript"@
    ||| e == "text/livescript"@
    ||| e == "text/x-ecmascript"@
    ||| e == "text/x-javascript"@
}

/// The normalised form of an essence: structured-syntax suffixes and the
/// legacy aliases collapse onto one representative, the first rule that
/// applies wins.
pub open spec fn normalize(e: Seq<char>) -> Seq<char> {
    if ends_with(e, "+json"@) {
        "application/json"@
    } else if e == "image/svg+xml"@ {
        "image/svg+xml"@
    } else if ends_with(e, "+xml"@) {
        "application/xml"@
    } else if is_javascript_alias(e) {
        "application/javascript"@
    } else if e == "text/json"@ {
        "application/json"@
    } else if e == "text/xml"@ {
        "application/xml"@
    } else {
        e
    }
}

/// Two essences are the same once normalised.
pub open spec fn same_essence(a: Seq<char>, b: Seq<char>) -> bool {
    normalize(a) == normalize(b)
}

/// The normalised form of an essence.
pub fn normalized_essence(essence: &str) -> (r: &str)
    ensures
        r@ == normalize(essence@),
{
    if str_ends_with(essence, "+json") {
        "application/json"
    } else if str_eq(essence, "image/svg+xml") {
        "image/svg+xml"
    } else if str_ends_with(essence, "+xml") {
        "application/xml"
    } else if is_javascript_alias_exec(essence) {
        "application/javascript"
    } else if str_eq(essence, "text/json") {
        "application/json"
    } else if str_eq(essence, "text/xml") {
        "application/xml"
    } else {
        essence
    }
}

fn is_javascript_alias_exec(e: &str) -> (r: bool)
    ensures
        r == is_javascript_alias(e@),
{
    str_eq(e, "application/ecmascript") || str_eq(e, "application/javascript") || str_eq(
        e,
        "application/x-ecmascript",
    ) || str_eq(e, "application/x-javascript") || str_eq(e, "text/ecmascript") || str_eq(
        e,
        "text/javascript",
    ) || str_eq(e, "text/javascript1.0") || str_eq(e, "text/javascript1.1") || str_eq(
        e,
        "text/javascript1.2",
    ) || str_eq(e, "text/javascript1.3") || str_eq(e, "text/javascript1.4") || str_eq(
        e,
        "text/javascript1.5",
    ) || str_eq(e, "text/jscript") || str_eq(e, "text/livescript") || str_eq(
        e,
        "text/x-ecmascript",
    ) || str_eq(e, "text/x-javascript")
}

/// Comparison of media types by normalised essence.
pub trait MimeExt {
    /// The essence this value carries.
    spec fn essence_view(&self) -> Seq<char>;

    fn is_same_essence(&self, other: &Self) -> (r: bool)
        ensures
            r == same_essence(self.essence_view(), other.essence_view()),
    ;

    fn normalized_essence_str(&self) -> (r: &str)
        ensures
            r@ == normalize(self.essence_view()),
    ;
}

impl MimeExt for MediaType {
    open spec fn essence_view(&self) -> Seq<char> {
        self.essence@
    }

    fn is_same_essence(&self, other: &Self) -> (r: bool) {
        str_eq(self.normalized_essence_str(), other.normalized_essence_str())
    }

    fn normalized_essence_str(&self) -> (r: &str) {
        normalized_essence(self.essence.as_str())
    }
}

} // verus!
