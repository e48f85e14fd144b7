//! The HTTP executor: builds the request a node describes and maps the
//! response to the node protocol.
//!
//! The route is the non-empty string under a top-level `route` key of a JSON
//! response body; otherwise it follows the status: 2xx `ok`, 4xx
//! `client_error`, 5xx `server_error`, anything else `unknown`.  The content
//! is the response body.  The exit code is 0 for 2xx and 1 otherwise.

use vstd::prelude::*;

use crate::model::provider::ProviderDef;
use crate::nodeshell::llm_sdk::opt_str;
use crate::nodeshell::template::{rendered, TemplateEngine};
use crate::nodeshell::types::{copy_string_entries, entries_view, NodeContext, NodeOutcome, NodeOutput, SpawnError};
use crate::json::{json_str_at, json_str_at_of};
use crate::text::push_str_chars;

verus! {

/// The upper-case form of `s`, as `str::to_uppercase` maps it.
pub uninterp spec fn uppercase_of(s: Seq<char>) -> Seq<char>;

/// `c` upper-cased when it is an ASCII lower-case letter.
pub open spec fn ascii_upper(c: char) -> char {
    if 'a' <= c <= 'z' {
        ((c as u32) - 32) as char
    } else {
        c
    }
}

/// Upper-cases a string (`str::to_uppercase`).  Claimed: the result is
/// `uppercase_of(s)`, and on ASCII text it maps `a`-`z` to `A`-`Z` and
/// keeps every other character, as the Unicode upper-case mapping that std
/// documents does for ASCII.
#[verifier::external_body]
fn to_uppercase(s: &str) -> (r: String)
    ensures
        r@ == uppercase_of(s@),
        (forall|i: int| 0 <= i < s@.len() ==> (#[trigger] s@[i] as u32) < 128) ==> r@ == s@.map_values(
            |c: char| ascii_upper(c),
        ),
{
    s.to_uppercase()
}

/// The JSON pointer of a response's route: the top-level `route` key.
pub open spec fn route_pointer() -> Seq<char> {
    "/route"@
}

/// The route a status code maps to when the body names none.
pub open spec fn status_route(status: u16) -> Seq<char> {
    if 200 <= status <= 299 {
        "ok"@
    } else if 400 <= status <= 499 {
        "client_error"@
    } else if 500 <= status <= 599 {
        "server_error"@
    } else {
        "unknown"@
    }
}

/// The route of a response: the body's non-empty JSON route, else the
/// status route.
pub open spec fn route_for(status: u16, json_route: Option<Seq<char>>) -> Seq<char> {
    match json_route {
        Some(r) if r.len() > 0 => r,
        _ => status_route(status),
    }
}

/// The HTTP methods a node may use.
pub open spec fn supported_method(m: Seq<char>) -> bool {
    m == "GET"@ || m == "POST"@ || m == "PUT"@ || m == "DELETE"@ || m == "PATCH"@
}

/// A request ready to send.
#[derive(Debug)]
pub struct HttpRequest {
    /// The upper-case method.
    pub method: String,
    /// The rendered URL.
    pub url: String,
    /// Header (name, value) pairs, in the order they are attached.
    pub headers: Vec<(String, String)>,
    /// The rendered body, if any (sent as JSON).
    pub body: Option<String>,
}

/// Executes an HTTP request and maps the response to `{route, content}`.
#[derive(Debug)]
pub struct HttpExecutor {
    url: String,
    method: String,
    headers: Vec<(String, String)>,
    body: Option<String>,
    scripts_dir: String,
}

impl HttpExecutor {
    /// The URL template.
    pub closed spec fn url_view(&self) -> Seq<char> {
        self.url@
    }

    /// The method.
    pub closed spec fn method_view(&self) -> Seq<char> {
        self.method@
    }

    /// The configured headers.
    pub closed spec fn headers_view(&self) -> Seq<(Seq<char>, Seq<char>)> {
        entries_view(self.headers@)
    }

    /// The body template.
    pub closed spec fn body_view(&self) -> Option<Seq<char>> {
        opt_str(self.body)
    }

    /// The scripts directory used for `{{node_dir}}`.
    pub closed spec fn scripts_dir_view(&self) -> Seq<char> {
        self.scripts_dir@
    }

    /// An executor for an HTTP provider; the method is upper-cased and
    /// defaults to `GET`, the headers default to none.
    pub fn from_provider(def: &ProviderDef, scripts_dir: &str) -> (r: Self)
        requires
            def is Http,
        ensures
            match *def {
                ProviderDef::Http { url, method, headers, body } => {
                    &&& r.url_view() == url@
                    &&& r.method_view() == match method {
                        Some(m) => uppercase_of(m@),
                        None => "GET"@,
                    }
                    &&& match method {
                        Some(m) => (forall|i: int| 0 <= i < m@.len() ==> (#[trigger] m@[i] as u32) < 128)
                            ==> r.method_view() == m@.map_values(|c: char| ascii_upper(c)),
                        None => true,
                    }
                    &&& r.headers_view() == match headers {
                        Some(h) => entries_view(h@),
                        None => Seq::empty(),
                    }
                    &&& r.body_view() == opt_str(body)
                    &&& r.scripts_dir_view() == scripts_dir@
                },
                _ => false,
            },
    {
        match def {
            ProviderDef::Http { url, method, headers, body } => {
                let m = match method {
                    Some(m) => to_uppercase(m.as_str()),
                    None => String::from_str("GET"),
                };
                let h = match headers {
                    Some(h) => copy_string_entries(h),
                    None => Vec::new(),
                };
                let b = match body {
                    Some(b) => Some(b.clone()),
                    None => None,
                };
                proof {
                    if headers is None {
                        assert(entries_view(h@) =~= Seq::<(Seq<char>, Seq<char>)>::empty());
                    }
                }
                HttpExecutor { url: url.clone(), method: m, headers: h, body: b, scripts_dir: String::from_str(scripts_dir) }
            },
            _ => {
                proof {
                    assert(false);
                }
                HttpExecutor {
                    url: String::new(),
                    method: String::new(),
                    headers: Vec::new(),
                    body: None,
                    scripts_dir: String::new(),
                }
            },
        }
    }

    /// The request for a context: URL and body rendered by the template
    /// engine (values verbatim), the configured headers followed by a JSON
    /// content type when there is a body; an unsupported method is an error.
    pub fn prepare_request(&self, ctx: &NodeContext) -> (r: Result<HttpRequest, SpawnError>)
        ensures
            supported_method(self.method_view()) ==> r is Ok && {
                let q = r->Ok_0;
                &&& q.method@ == self.method_view()
                &&& q.url@ == rendered(self.url_view(), ctx.metadata, entries_view(ctx.upstream@), self.scripts_dir_view(), false)
                &&& opt_str(q.body) == match self.body_view() {
                    Some(b) => Some(rendered(b, ctx.metadata, entries_view(ctx.upstream@), self.scripts_dir_view(), false)),
                    None => None,
                }
                &&& entries_view(q.headers@) == if self.body_view() is Some {
                    self.headers_view().push(("Content-Type"@, "application/json"@))
                } else {
                    self.headers_view()
                }
            },
            !supported_method(self.method_view()) ==> r is Err && r->Err_0.message@ == "unsupported HTTP method: "@ + self.method_view(),
    {
        let url = TemplateEngine::render(self.url.as_str(), &ctx.metadata, &ctx.upstream, self.scripts_dir.as_str());
        let body = match &self.body {
            Some(b) => Some(TemplateEngine::render(b.as_str(), &ctx.metadata, &ctx.upstream, self.scripts_dir.as_str())),
            None => None,
        };
        let m = self.method.as_str();
        let get = String::from_str("GET");
        let post = String::from_str("POST");
        let put = String::from_str("PUT");
        let delete = String::from_str("DELETE");
        let patch = String::from_str("PATCH");
        if !(self.method == get || self.method == post || self.method == put || self.method == delete || self.method == patch) {
            let mut msg = String::new();
            push_str_chars(&mut msg, "unsupported HTTP method: ");
            push_str_chars(&mut msg, m);
            assert(Seq::<char>::empty() + "unsupported HTTP method: "@ == "unsupported HTTP method: "@);
            return Err(SpawnError::with_message(msg));
        }
        let mut headers = copy_string_entries(&self.headers);
        if body.is_some() {
            let ghost before = headers@;
            headers.push((String::from_str("Content-Type"), String::from_str("application/json")));
            assert(entries_view(headers@) =~= entries_view(before).push(("Content-Type"@, "application/json"@)));
        }
        Ok(HttpRequest { method: self.method.clone(), url, headers, body })
    }
}

/// The route of a response from its status and the route string its JSON
/// body holds, if any.
pub fn route_for_response(status: u16, json_route: Option<String>) -> (r: String)
    ensures
        r@ == route_for(status, opt_str(json_route)),
{
    match json_route {
        Some(r) if !r.as_str().is_empty() => r,
        _ => {
            if 200 <= status && status <= 299 {
                String::from_str("ok")
            } else if 400 <= status && status <= 499 {
                String::from_str("client_error")
            } else if 500 <= status && status <= 599 {
                String::from_str("server_error")
            } else {
                String::from_str("unknown")
            }
        },
    }
}

/// The route of a response: the body's non-empty JSON `route`, else the
/// status route.
pub fn resolve_route(status: u16, body: &str) -> (r: String)
    ensures
        r@ == route_for(status, json_str_at_of(body@, route_pointer())),
{
    route_for_response(status, json_str_at(body, "/route"))
}

/// The outcome of a response: its route and body as output, exit code 0
/// for 2xx and 1 otherwise, and the route as exit reason.
pub fn outcome_from_response(status: u16, response_body: String) -> (r: NodeOutcome)
    ensures
        r@ == (
            (route_for(status, json_str_at_of(response_body@, route_pointer())), response_body@),
            if 200 <= status < 300 { 0i32 } else { 1i32 },
            Some(route_for(status, json_str_at_of(response_body@, route_pointer()))),
        ),
{
    let route = resolve_route(status, response_body.as_str());
    let exit_code: i32 = if 200 <= status && status < 300 { 0 } else { 1 };
    let reason = route.clone();
    NodeOutcome { output: NodeOutput { route, content: response_body }, exit_code, exit_reason: Some(reason) }
}

} // verus!
