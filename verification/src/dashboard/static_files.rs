//! Content types of the dashboard's static files.

use vstd::prelude::*;

use crate::text::{matches_at, matches_at_exec, to_chars};

verus! {

/// `s` ends with `suffix`.
pub open spec fn ends_with(s: Seq<char>, suffix: Seq<char>) -> bool {
    suffix.len() <= s.len() && matches_at(s, s.len() - suffix.len(), suffix)
}

/// The content type of a file, by extension.
pub open spec fn mime_for(path: Seq<char>) -> Seq<char> {
    if ends_with(path, ".html"@) {
        "text/html; charset=utf-8"@
    } else if ends_with(path, ".css"@) {
        "text/css; charset=utf-8"@
    } else if ends_with(path, ".js"@) {
        "application/javascript; charset=utf-8"@
    } else if ends_with(path, ".json"@) {
        "application/json; charset=utf-8"@
    } else if ends_with(path, ".png"@) {
        "image/png"@
    } else if ends_with(path, ".svg"@) {
        "image/svg+xml"@
    } else if ends_with(path, ".wasm"@) {
        "application/wasm"@
    } else {
        "application/octet-stream"@
    }
}

/// Whether `path` ends with `suffix`.
fn ends_with_exec(path: &Vec<char>, suffix: &str) -> (r: bool)
    ensures
        r == ends_with(path@, suffix@),
{
    let s = to_chars(suffix);
    if s.len() > path.len() {
        return false;
    }
    matches_at_exec(path, path.len() - s.len(), &s)
}

/// The content type of a static file, by extension.
pub fn mime_type(path: &str) -> (r: &'static str)
    ensures
        r@ == mime_for(path@),
{
    let p = to_chars(path);
    if ends_with_exec(&p, ".html") {
        "text/html; charset=utf-8"
    } else if ends_with_exec(&p, ".css") {
        "text/css; charset=utf-8"
    } else if ends_with_exec(&p, ".js") {
        "application/javascript; charset=utf-8"
    } else if ends_with_exec(&p, ".json") {
        "application/json; charset=utf-8"
    } else if ends_with_exec(&p, ".png") {
        "image/png"
    } else if ends_with_exec(&p, ".svg") {
        "image/svg+xml"
    } else if ends_with_exec(&p, ".wasm") {
        "application/wasm"
    } else {
        "application/octet-stream"
    }
}

} // verus!
