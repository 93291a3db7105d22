//! The request template: the canonical, fully resolved representation of one
//! HTTP request, with its well-formedness rules, plus the intent form a
//! command or a loaded file supplies before resolution.

use vstd::prelude::*;
use crate::strutil::{eq_ci, is_ctl, is_alpha, str_eq_ci};

verus! {

/// The closed set of supported HTTP verbs.
#[derive(Debug, Clone, Copy, PartialEq, Eq, Structural)]
pub enum Method {
    Get,
    Post,
    Put,
    Patch,
    Delete,
}

/// View of a `(name, value)` header pair.
pub type HeaderModel = (Seq<char>, Seq<char>);

/// View of an ordered header list.
pub open spec fn headers_view(h: Seq<(String, String)>) -> Seq<HeaderModel> {
    h.map_values(|p: (String, String)| (p.0@, p.1@))
}

/// A fully resolved HTTP request: what is executed, persisted to history,
/// and saved to request files.
#[derive(Debug, Clone, PartialEq, Eq)]
pub struct RequestTemplate {
    pub method: Method,
    pub endpoint: String,
    pub resource: String,
    pub headers: Vec<(String, String)>,
    pub body: Option<String>,
}

pub ghost struct TemplateModel {
    pub method: Method,
    pub endpoint: Seq<char>,
    pub resource: Seq<char>,
    pub headers: Seq<HeaderModel>,
    pub body: Option<Seq<char>>,
}

impl View for RequestTemplate {
    type V = TemplateModel;

    open spec fn view(&self) -> TemplateModel {
        TemplateModel {
            method: self.method,
            endpoint: self.endpoint@,
            resource: self.resource@,
            headers: headers_view(self.headers@),
            body: match self.body {
                Option::Some(b) => Option::Some(b@),
                Option::None => Option::None,
            },
        }
    }
}

/// A request before resolution: a direct command (`get /path`) or a loaded
/// request file. The endpoint is optional; resolution supplies it from the
/// active environment when absent.
#[derive(Debug, Clone, PartialEq, Eq)]
pub struct RequestIntent {
    pub method: Method,
    pub endpoint: Option<String>,
    pub resource: String,
    pub headers: Vec<(String, String)>,
    pub body: Option<String>,
}

pub ghost struct IntentModel {
    pub method: Method,
    pub endpoint: Option<Seq<char>>,
    pub resource: Seq<char>,
    pub headers: Seq<HeaderModel>,
    pub body: Option<Seq<char>>,
}

impl View for RequestIntent {
    type V = IntentModel;

    open spec fn view(&self) -> IntentModel {
        IntentModel {
            method: self.method,
            endpoint: match self.endpoint {
                Option::Some(e) => Option::Some(e@),
                Option::None => Option::None,
            },
            resource: self.resource@,
            headers: headers_view(self.headers@),
            body: match self.body {
                Option::Some(b) => Option::Some(b@),
                Option::None => Option::None,
            },
        }
    }
}

/// The normalized outcome of executing a request.
#[derive(Debug, Clone, PartialEq, Eq)]
pub struct ResponseSummary {
    pub status: u16,
    pub headers: Vec<(String, String)>,
    pub body: String,
}

pub ghost struct ResponseModel {
    pub status: u16,
    pub headers: Seq<HeaderModel>,
    pub body: Seq<char>,
}

impl View for ResponseSummary {
    type V = ResponseModel;

    open spec fn view(&self) -> ResponseModel {
        ResponseModel {
            status: self.status,
            headers: headers_view(self.headers@),
            body: self.body@,
        }
    }
}

/// A header name must be non-empty and free of control characters.
pub open spec fn header_name_ok(n: Seq<char>) -> bool {
    n.len() > 0 && forall|i: int| 0 <= i < n.len() ==> !is_ctl(n[i])
}

/// Index of the first `://` at or after `i`, if any.
pub open spec fn find_scheme_sep(s: Seq<char>, i: int) -> Option<int>
    decreases s.len() - i when 0 <= i <= s.len()
{
    if i + 3 > s.len() {
        Option::None
    } else if s[i] == ':' && s[i + 1] == '/' && s[i + 2] == '/' {
        Option::Some(i)
    } else {
        find_scheme_sep(s, i + 1)
    }
}

/// A syntactically valid URL, at the level this crate checks: a non-empty
/// all-alphabetic scheme, the separator `://`, and a non-empty remainder.
pub open spec fn valid_url(u: Seq<char>) -> bool {
    match find_scheme_sep(u, 0) {
        Option::Some(i) => {
            &&& i >= 1
            &&& (forall|j: int| 0 <= j < i ==> is_alpha(u[j]))
            &&& i + 3 < u.len()
        },
        Option::None => false,
    }
}

/// Well-formedness of a resolved template: a non-empty resource, clean
/// header names, and a valid endpoint URL. The method needs no check: the
/// enumeration is closed.
pub open spec fn template_wf(t: TemplateModel) -> bool {
    &&& t.resource.len() > 0
    &&& (forall|i: int| 0 <= i < t.headers.len() ==> header_name_ok(#[trigger] t.headers[i].0))
    &&& valid_url(t.endpoint)
}

/// Whether a header name is acceptable, decided exactly as the
/// specification states it.
pub fn check_header_name(n: &str) -> (r: bool)
    ensures
        r == header_name_ok(n@),
{
    let len = n.unicode_len();
    if len == 0 {
        return false;
    }
    let mut i: usize = 0;
    while i < len
        invariant
            0 <= i <= len,
            len == n@.len(),
            forall|j: int| 0 <= j < i ==> !is_ctl(n@[j]),
        decreases len - i,
    {
        let c = n.get_char(i) as u32;
        if c < 32 || c == 127 {
            return false;
        }
        i = i + 1;
    }
    true
}

/// Index of the first `://` in `u`, if any, mirroring `find_scheme_sep`.
fn find_sep(u: &str) -> (r: Option<usize>)
    ensures
        match r {
            Option::Some(k) => find_scheme_sep(u@, 0) == Option::Some(k as int) && k + 3 <= u@.len(),
            Option::None => find_scheme_sep(u@, 0) is None,
        },
{
    let len = u.unicode_len();
    let mut i: usize = 0;
    loop
        invariant
            0 <= i <= len,
            len == u@.len(),
            find_scheme_sep(u@, 0) == find_scheme_sep(u@, i as int),
        decreases len - i,
    {
        if len < 3 || i > len - 3 {
            assert(i + 3 > len);
            assert(find_scheme_sep(u@, i as int) is None);
            return None;
        }
        if u.get_char(i) == ':' && u.get_char(i + 1) == '/' && u.get_char(i + 2) == '/' {
            assert(find_scheme_sep(u@, i as int) == Option::Some(i as int));
            return Some(i);
        }
        assert(find_scheme_sep(u@, i as int) == find_scheme_sep(u@, i + 1));
        i = i + 1;
    }
}

/// Whether `u` is a syntactically valid URL in this crate's sense.
pub fn check_url(u: &str) -> (r: bool)
    ensures
        r == valid_url(u@),
{
    let len = u.unicode_len();
    match find_sep(u) {
        None => false,
        Some(k) => {
            if k < 1 || k + 3 >= len {
                return false;
            }
            let mut j: usize = 0;
            while j < k
                invariant
                    0 <= j <= k,
                    1 <= k,
                    k + 3 < len,
                    len == u@.len(),
                    find_scheme_sep(u@, 0) == Option::Some(k as int),
                    forall|m: int| 0 <= m < j ==> is_alpha(u@[m]),
                decreases k - j,
            {
                let cu = u.get_char(j) as u32;
                if !((65 <= cu && cu <= 90) || (97 <= cu && cu <= 122)) {
                    assert(!is_alpha(u@[j as int]));
                    return false;
                }
                j = j + 1;
            }
            true
        },
    }
}

/// Whether a resolved template is well-formed.
pub fn check_template(t: &RequestTemplate) -> (r: bool)
    ensures
        r == template_wf(t@),
{
    if t.resource.unicode_len() == 0 {
        return false;
    }
    let mut i: usize = 0;
    while i < t.headers.len()
        invariant
            0 <= i <= t.headers.len(),
            forall|j: int| 0 <= j < i ==> header_name_ok(#[trigger] t@.headers[j].0),
        decreases t.headers.len() - i,
    {
        let ok = check_header_name(t.headers[i].0.as_str());
        if !ok {
            assert(!header_name_ok(t@.headers[i as int].0));
            return false;
        }
        i = i + 1;
    }
    check_url(t.endpoint.as_str())
}

/// View of the canonical spelling of a verb.
pub open spec fn method_str(m: Method) -> Seq<char> {
    match m {
        Method::Get => "GET"@,
        Method::Post => "POST"@,
        Method::Put => "PUT"@,
        Method::Patch => "PATCH"@,
        Method::Delete => "DELETE"@,
    }
}

/// The verb named by a token, compared case-insensitively, if any.
pub open spec fn method_of_token(s: Seq<char>) -> Option<Method> {
    if eq_ci(s, "GET"@) {
        Option::Some(Method::Get)
    } else if eq_ci(s, "POST"@) {
        Option::Some(Method::Post)
    } else if eq_ci(s, "PUT"@) {
        Option::Some(Method::Put)
    } else if eq_ci(s, "PATCH"@) {
        Option::Some(Method::Patch)
    } else if eq_ci(s, "DELETE"@) {
        Option::Some(Method::Delete)
    } else {
        Option::None
    }
}

/// Canonical spelling of a verb.
pub fn method_to_str(m: Method) -> (r: String)
    ensures
        r@ == method_str(m),
{
    match m {
        Method::Get => "GET".to_owned(),
        Method::Post => "POST".to_owned(),
        Method::Put => "PUT".to_owned(),
        Method::Patch => "PATCH".to_owned(),
        Method::Delete => "DELETE".to_owned(),
    }
}

/// Parse a command token (`get`, `POST`, ...) into a verb.
pub fn method_from_token(s: &str) -> (r: Option<Method>)
    ensures
        r == method_of_token(s@),
{
    if str_eq_ci(s, "GET") {
        Some(Method::Get)
    } else if str_eq_ci(s, "POST") {
        Some(Method::Post)
    } else if str_eq_ci(s, "PUT") {
        Some(Method::Put)
    } else if str_eq_ci(s, "PATCH") {
        Some(Method::Patch)
    } else if str_eq_ci(s, "DELETE") {
        Some(Method::Delete)
    } else {
        None
    }
}

} // verus!
