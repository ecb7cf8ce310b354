//! The request-execution engine's decisions: default headers and their
//! merge with caller headers, method normalization, URL validation,
//! content-type classification, the download filename, and the texts the
//! verbose mode prints. Building the client, sending, and streaming are
//! the caller's I/O; every rule they follow is decided here.

use vstd::prelude::*;

use crate::dict::Dict;
use crate::dict::lookup;
use crate::error::ApixError;
use crate::json::Json;
use crate::json::jmodel;
use crate::json::jtext;
use crate::json::json_to_text;
use crate::text::ascii_only;
use crate::text::ascii_upper;
use crate::text::ci_has_substring;
use crate::text::contains_ci;
use crate::text::is_pair;
use crate::text::split_pair;
use crate::text::upper_char;

verus! {

#[verifier::external_type_specification]
#[verifier::external_body]
pub struct ExUrl(url::Url);

/// What a parsed URL holds, as far as the library reads it: its scheme and
/// the last of its path segments.
pub struct UrlModel {
    pub scheme: Seq<char>,
    pub last_segment: Option<Seq<char>>,
}

/// The parts of a parsed URL value.
pub uninterp spec fn url_model(u: url::Url) -> UrlModel;

/// What url::Url::parse finds in a text; parsing depends on the text
/// alone.
pub uninterp spec fn url_parse_result(s: Seq<char>) -> Option<UrlModel>;

/// Relies on url::Url::parse.
#[verifier::external_body]
pub fn url_parse(s: &str) -> (r: Option<url::Url>)
    ensures
        r is Some <==> url_parse_result(s@) is Some,
        r matches Some(u) ==> url_parse_result(s@) == Some(url_model(u)),
{
    url::Url::parse(s).ok()
}

/// Relies on url::Url::scheme.
#[verifier::external_body]
pub fn url_scheme(u: &url::Url) -> (r: &str)
    ensures
        r@ == url_model(*u).scheme,
{
    u.scheme()
}

/// Relies on url::Url::path_segments: the last path segment, where the URL
/// splits into segments at all.
#[verifier::external_body]
pub fn url_last_segment(u: &url::Url) -> (r: Option<String>)
    ensures
        r is Some <==> url_model(*u).last_segment is Some,
        r matches Some(s) ==> url_model(*u).last_segment == Some(s@),
{
    match u.path_segments().and_then(|segments| segments.last()) {
        Some(s) => Some(s.to_string()),
        None => None,
    }
}

/// Accepts exactly the URLs that parse and use the http or https scheme.
pub fn validate_url(str_url: &str) -> (r: Result<url::Url, ApixError>)
    ensures
        r is Ok <==> (url_parse_result(str_url@) matches Some(m) && (m.scheme == "http"@
            || m.scheme == "https"@)),
        r matches Ok(u) ==> url_parse_result(str_url@) == Some(url_model(u)),
        r matches Err(e) ==> e is Http,
{
    match url_parse(str_url) {
        Some(u) => {
            let ok = {
                let scheme = url_scheme(&u);
                crate::text::str_equal(scheme, "http") || crate::text::str_equal(scheme, "https")
            };
            if ok {
                Ok(u)
            } else {
                Err(ApixError::Http(String::from_str("Apix only supports http(s) protocols for now")))
            }
        },
        None => Err(ApixError::Http(String::from_str("invalid url"))),
    }
}

/// The kinds of `name:value` argument the command line takes.
#[derive(Debug, Clone, Copy, PartialEq, Eq)]
pub enum RequestParam {
    Header,
    Cookie,
    Query,
    Param,
}

/// The kind's name, as messages spell it.
pub open spec fn request_param_name(p: RequestParam) -> Seq<char> {
    match p {
        RequestParam::Header => "header"@,
        RequestParam::Cookie => "cookie"@,
        RequestParam::Query => "query"@,
        RequestParam::Param => "param"@,
    }
}

impl RequestParam {
    /// The kind's name, for messages and for picking command-line values.
    pub fn as_str(&self) -> (r: &'static str)
        ensures
            r@ == request_param_name(*self),
    {
        match self {
            RequestParam::Header => "header",
            RequestParam::Cookie => "cookie",
            RequestParam::Query => "query",
            RequestParam::Param => "param",
        }
    }
}

/// Accepts exactly the texts of the shape `name:value`: a non-empty run
/// of word characters or hyphens, the first colon, then a value free of
/// newlines.
pub fn validate_param(param: &str, request_type: RequestParam) -> (r: Result<(), ApixError>)
    ensures
        r is Ok <==> is_pair(param@),
        r matches Err(e) ==> e is Parameter,
{
    if split_pair(param).is_some() {
        Ok(())
    } else {
        Err(param_format_error(param, request_type))
    }
}

/// The rejection for a malformed `name:value` argument.
fn param_format_error(param: &str, request_type: RequestParam) -> (r: ApixError)
    ensures
        r is Parameter,
{
    let mut msg = String::from_str("Bad ");
    msg.append(request_type.as_str());
    msg.append(" format: \"");
    msg.append(param);
    msg.append("\", should be of the form \"<name>:<value>\"");
    ApixError::Parameter(msg)
}

/// Parses a list of `name:value` arguments into an ordered map, keeping
/// every pair in argument order; the first malformed argument rejects the
/// whole list.
#[verifier::loop_isolation(false)]
pub fn pairs_from_values(values: &Vec<String>, request_type: RequestParam) -> (r: Result<
    Dict,
    ApixError,
>)
    ensures
        r is Ok <==> (forall|i: int| 0 <= i < values@.len() ==> is_pair((#[trigger] values@[i])@)),
        r matches Err(e) ==> e is Parameter,
        r matches Ok(d) ==> d@.len() == values@.len() && (forall|i: int|
            0 <= i < values@.len() ==> {
                let k = (#[trigger] d@[i]).0;
                let v = d@[i].1;
                &&& crate::text::is_pair_split(values@[i]@, k.len() as int)
                &&& k == values@[i]@.subrange(0, k.len() as int)
                &&& v == values@[i]@.subrange(k.len() as int + 1, values@[i]@.len() as int)
            }),
{
    let n = values.len();
    let mut out = Dict::new();
    let mut i: usize = 0;
    while i < n
        invariant
            n == values@.len(),
            0 <= i <= n,
            out@.len() == i,
            forall|j: int| 0 <= j < i ==> is_pair((#[trigger] values@[j])@),
            forall|j: int|
                0 <= j < i ==> {
                    let k = (#[trigger] out@[j]).0;
                    let v = out@[j].1;
                    &&& crate::text::is_pair_split(values@[j]@, k.len() as int)
                    &&& k == values@[j]@.subrange(0, k.len() as int)
                    &&& v == values@[j]@.subrange(k.len() as int + 1, values@[j]@.len() as int)
                },
        decreases n - i,
    {
        match split_pair(values[i].as_str()) {
            Some((name, value)) => {
                out.append_entry(name, value);
            },
            None => {
                return Err(param_format_error(values[i].as_str(), request_type));
            },
        }
        i = i + 1;
    }
    Ok(out)
}

/// The body the command line asks for: inline text first, then a file to
/// stream, then none.
pub fn body_from_cli(body: Option<String>, file: Option<String>) -> (r: Option<AdvancedBody>)
    ensures
        body matches Some(b) ==> r == Some(AdvancedBody::String(b)),
        body is None ==> (file matches Some(f) ==> r == Some(AdvancedBody::File(f))),
        (body is None && file is None) ==> r is None,
{
    match body {
        Some(b) => Some(AdvancedBody::String(b)),
        None => {
            match file {
                Some(f) => Some(AdvancedBody::File(f)),
                None => None,
            }
        },
    }
}

/// The display language for a content-type text: the first of the
/// keywords json, xml, html, css, javascript found in it (without regard
/// to ASCII case) names the language; any other content-type is plain
/// text.
pub open spec fn spec_language(ct: Seq<char>) -> Seq<char> {
    if ci_has_substring(ct, "json"@) {
        "json"@
    } else if ci_has_substring(ct, "xml"@) {
        "xml"@
    } else if ci_has_substring(ct, "html"@) {
        "html"@
    } else if ci_has_substring(ct, "css"@) {
        "css"@
    } else if ci_has_substring(ct, "javascript"@) {
        "js"@
    } else {
        "txt"@
    }
}

/// Classifies a response's content type into a display language; no
/// content type at all means no language, which callers treat as binary
/// content to stream rather than print.
pub fn get_language(content_type: &Option<String>) -> (r: Option<&'static str>)
    ensures
        content_type matches Some(ct) ==> (r matches Some(l) && l@ == spec_language(ct@)),
        content_type is None ==> r is None,
{
    match content_type {
        Some(ct) => {
            let s = ct.as_str();
            if contains_ci(s, "json") {
                Some("json")
            } else if contains_ci(s, "xml") {
                Some("xml")
            } else if contains_ci(s, "html") {
                Some("html")
            } else if contains_ci(s, "css") {
                Some("css")
            } else if contains_ci(s, "javascript") {
                Some("js")
            } else {
                Some("txt")
            }
        },
        None => None,
    }
}

/// The headers every request starts from.
pub open spec fn default_header_pairs() -> Seq<(Seq<char>, Seq<char>)> {
    seq![
        ("user-agent"@, "apix/1.0.0"@),
        ("accept"@, "application/json"@),
        ("accept-encoding"@, "gzip"@),
        ("content-type"@, "application/json"@),
    ]
}

/// The default header set: the product's user agent, JSON accepted and
/// sent, gzip accepted.
pub fn default_headers() -> (r: Dict)
    ensures
        r@ == default_header_pairs(),
{
    let mut d = Dict::new();
    d.append_entry(String::from_str("user-agent"), String::from_str("apix/1.0.0"));
    d.append_entry(String::from_str("accept"), String::from_str("application/json"));
    d.append_entry(String::from_str("accept-encoding"), String::from_str("gzip"));
    d.append_entry(String::from_str("content-type"), String::from_str("application/json"));
    proof {
        assert(d@ =~= default_header_pairs());
    }
    d
}

/// What the merged header set answers for a key: the caller's value where
/// the caller set the key, else the default.
pub open spec fn merged_lookup(
    caller: Seq<(Seq<char>, Seq<char>)>,
    k: Seq<char>,
) -> Option<Seq<char>> {
    if lookup(caller, k) is Some {
        lookup(caller, k)
    } else {
        lookup(default_header_pairs(), k)
    }
}

/// Merges caller headers over the defaults; the caller wins per key.
#[verifier::loop_isolation(false)]
pub fn merge_with_defaults(headers: &Dict) -> (r: Dict)
    ensures
        forall|k: Seq<char>| #[trigger] lookup(r@, k) == merged_lookup(headers@, k),
{
    let mut merged = default_headers();
    let n = headers.len();
    let mut i: usize = n;
    proof {
        assert(headers@.subrange(n as int, n as int) =~= Seq::<(Seq<char>, Seq<char>)>::empty());
    }
    while i > 0
        invariant
            n == headers@.len(),
            0 <= i <= n,
            forall|k: Seq<char>| #[trigger] lookup(merged@, k) == (if lookup(
                headers@.subrange(i as int, n as int),
                k,
            ) is Some {
                lookup(headers@.subrange(i as int, n as int), k)
            } else {
                lookup(default_header_pairs(), k)
            }),
        decreases i,
    {
        i = i - 1;
        let key = headers.key_at(i).clone();
        let value = headers.val_at(i).clone();
        let ghost pre = merged@;
        merged.insert(key, value);
        proof {
            let cur = headers@.subrange(i as int, n as int);
            let next = headers@.subrange(i + 1, n as int);
            assert(cur[0] == headers@[i as int]);
            assert(cur.subrange(1, cur.len() as int) =~= next);
            assert forall|k: Seq<char>| #[trigger] lookup(merged@, k) == (if lookup(
                cur,
                k,
            ) is Some {
                lookup(cur, k)
            } else {
                lookup(default_header_pairs(), k)
            }) by {
                if k == headers@[i as int].0 {
                    assert(lookup(cur, k) == Some(cur[0].1));
                } else {
                    assert(lookup(cur, k) == lookup(next, k));
                }
            }
        }
    }
    proof {
        assert(headers@.subrange(0, n as int) =~= headers@);
    }
    merged
}

/// A request body after rendering: structured JSON, raw text, or a file
/// to stream.
#[derive(Debug, PartialEq)]
pub enum AdvancedBody {
    Json(Json),
    String(String),
    File(String),
}

impl AdvancedBody {
    /// The body's text: serialized JSON or the raw string. A file body has
    /// no in-memory text — reading the file is the I/O layer's work — so
    /// it reports the path as an I/O matter.
    pub fn to_string(&self) -> (r: Result<String, ApixError>)
        ensures
            *self matches AdvancedBody::Json(v) ==> (r matches Ok(s) && s@ == jtext(jmodel(v))),
            *self matches AdvancedBody::String(s0) ==> (r matches Ok(s) && s@ == s0@),
            *self matches AdvancedBody::File(p) ==> (r matches Err(e) && e matches ApixError::Io(
                q,
            ) && q@ == p@),
    {
        match self {
            AdvancedBody::Json(value) => Ok(json_to_text(value)),
            AdvancedBody::String(value) => Ok(value.clone()),
            AdvancedBody::File(path) => Err(ApixError::Io(path.clone())),
        }
    }
}

/// How a run reports and writes its result: verbosity, the display theme,
/// whether output goes to a terminal, where to write, and the proxy.
#[derive(Debug, PartialEq)]
pub struct RequestOptions {
    pub verbose: bool,
    pub theme: String,
    pub is_output_terminal: bool,
    pub output_filename: Option<String>,
    pub proxy_url: Option<String>,
    pub proxy_login: Option<String>,
    pub proxy_password: Option<String>,
}

/// A copy of an optional text.
fn clone_opt_string(o: &Option<String>) -> (r: Option<String>)
    ensures
        r == *o,
{
    match o {
        Some(s) => Some(s.clone()),
        None => None,
    }
}

impl RequestOptions {
    /// A copy with the same settings.
    pub fn duplicate(&self) -> (r: RequestOptions)
        ensures
            r == *self,
    {
        RequestOptions {
            verbose: self.verbose,
            theme: self.theme.clone(),
            is_output_terminal: self.is_output_terminal,
            output_filename: clone_opt_string(&self.output_filename),
            proxy_url: clone_opt_string(&self.proxy_url),
            proxy_login: clone_opt_string(&self.proxy_login),
            proxy_password: clone_opt_string(&self.proxy_password),
        }
    }
}

/// A request ready to send: everything the wire needs, decided.
#[derive(Debug)]
pub struct PreparedRequest {
    pub url: String,
    pub method: String,
    pub headers: Dict,
    pub queries: Dict,
    pub body: Option<AdvancedBody>,
}

/// Decides the wire-level request: the method upper-cased, the caller's
/// headers merged over the defaults (the defaults alone when none are
/// given), the queries kept in order, the body as handed in.
pub fn prepare_request(
    url: &str,
    method: &str,
    headers: &Option<Dict>,
    queries: &Option<Dict>,
    body: Option<AdvancedBody>,
) -> (r: PreparedRequest)
    ensures
        r.url@ == url@,
        ascii_only(method@) ==> r.method@ == method@.map_values(|c: char| upper_char(c)),
        headers matches Some(h) ==> forall|k: Seq<char>| #[trigger] lookup(r.headers@, k)
            == merged_lookup(h@, k),
        headers is None ==> r.headers@ == default_header_pairs(),
        queries matches Some(q) ==> r.queries@ == q@,
        queries is None ==> r.queries@.len() == 0,
        r.body == body,
{
    let merged = match headers {
        Some(h) => merge_with_defaults(h),
        None => default_headers(),
    };
    let q = match queries {
        Some(q) => q.duplicate(),
        None => Dict::new(),
    };
    PreparedRequest {
        url: url.to_owned(),
        method: ascii_upper(method),
        headers: merged,
        queries: q,
        body,
    }
}

/// The filename a binary download goes to: the caller's output filename,
/// else the last path segment of the URL, else a generic fallback; a URL
/// that does not parse is an HTTP error.
pub fn resolve_download_filename(output_filename: &Option<String>, url: &str) -> (r: Result<
    String,
    ApixError,
>)
    ensures
        output_filename matches Some(s) ==> (r matches Ok(f) && f@ == s@),
        output_filename is None ==> ((r is Ok) <==> url_parse_result(url@) is Some),
        r matches Ok(f) ==> (output_filename is None ==> (url_parse_result(url@) matches Some(m)
            && f@ == (if m.last_segment is Some {
            m.last_segment->0
        } else {
            "unknown.bin"@
        }))),
        r matches Err(e) ==> e is Http,
{
    match output_filename {
        Some(s) => Ok(s.clone()),
        None => {
            match url_parse(url) {
                Some(u) => {
                    match url_last_segment(&u) {
                        Some(seg) => Ok(seg),
                        None => Ok(String::from_str("unknown.bin")),
                    }
                },
                None => Err(ApixError::Http(String::from_str("invalid url"))),
            }
        },
    }
}

/// The header lines of the verbose display, one `name: value` per line.
pub open spec fn header_lines(hs: Seq<(Seq<char>, Seq<char>)>) -> Seq<char>
    decreases hs,
{
    if hs.len() == 0 {
        Seq::empty()
    } else {
        header_lines(hs.subrange(0, hs.len() - 1)) + hs[hs.len() - 1].0 + ": "@ + hs[hs.len()
            - 1].1 + "\n"@
    }
}

/// Appends the `name: value` header lines to `out`.
#[verifier::loop_isolation(false)]
fn append_header_lines(out: &mut String, headers: &Dict)
    ensures
        final(out)@ == old(out)@ + header_lines(headers@),
{
    let n = headers.len();
    let mut i: usize = 0;
    proof {
        assert(headers@.subrange(0, 0) =~= Seq::<(Seq<char>, Seq<char>)>::empty());
        assert(out@ =~= old(out)@ + header_lines(headers@.subrange(0, 0)));
    }
    while i < n
        invariant
            n == headers@.len(),
            0 <= i <= n,
            out@ == old(out)@ + header_lines(headers@.subrange(0, i as int)),
        decreases n - i,
    {
        out.append(headers.key_at(i).as_str());
        out.append(": ");
        out.append(headers.val_at(i).as_str());
        out.append("\n");
        proof {
            let pre = headers@.subrange(0, i as int);
            let next = headers@.subrange(0, i + 1);
            assert(next.subrange(0, next.len() - 1) =~= pre);
            assert(out@ =~= old(out)@ + header_lines(next));
        }
        i = i + 1;
    }
    proof {
        assert(headers@.subrange(0, n as int) =~= headers@);
    }
}

/// The verbose display of an outgoing request: the request line, the
/// host, and the headers.
pub fn request_display_text(
    method: &str,
    endpoint: &str,
    protocol: &str,
    host: &str,
    headers: &Dict,
) -> (r: String)
    ensures
        r@ == method@ + " "@ + endpoint@ + " "@ + protocol@ + "\nhost: "@ + host@ + "\n"@
            + header_lines(headers@),
{
    let mut out = method.to_owned();
    out.append(" ");
    out.append(endpoint);
    out.append(" ");
    out.append(protocol);
    out.append("\nhost: ");
    out.append(host);
    out.append("\n");
    append_header_lines(&mut out, headers);
    out
}

/// The verbose display of a response: the status line and the headers.
pub fn response_display_text(protocol: &str, status: &str, headers: &Dict) -> (r: String)
    ensures
        r@ == protocol@ + " "@ + status@ + "\n"@ + header_lines(headers@),
{
    let mut out = protocol.to_owned();
    out.append(" ");
    out.append(status);
    out.append("\n");
    append_header_lines(&mut out, headers);
    out
}

} // verus!
