//! Requests and responses: the data the client keeps, the HTTP method names it
//! cycles through, and the small formatting rules around them.
use std::str::FromStr;
use std::time::Duration;
use vstd::prelude::*;
use crate::chars::{
    take_upto, last_index_of, lemma_last_index_of_bounds, to_chars, find_last, suffix_string,
    same_text,
};

verus! {

/// A response as the client shows it. `status` is 0 when the request could not be made.
pub struct HttpResponse {
    pub status: u16,
    pub body: String,
    pub headers: Vec<(String, String)>,
    pub elapsed: Duration,
    pub method_str: String,
}

/// Messages from the task that performs a request.
pub enum AppMessage {
    RequestStarted,
    RequestCompleted(HttpResponse),
}

/// A request the user kept, as stored in the request database.
#[derive(Clone)]
pub struct SavedRequest {
    pub name: String,
    pub url: String,
    pub method_str: String,
    pub body: String,
    pub headers: Vec<(String, String)>,
}

/// What the client asks the network layer to send.
pub struct RequestPlan {
    pub method: String,
    pub url: String,
    /// The JSON body, when one is sent.
    pub body: Option<String>,
    pub headers: Vec<(String, String)>,
}

/// Header pairs as character sequences.
pub open spec fn pairs_view(v: Seq<(String, String)>) -> Seq<(Seq<char>, Seq<char>)> {
    v.map_values(|p: (String, String)| (p.0@, p.1@))
}

pub struct ResponseView {
    pub status: u16,
    pub body: Seq<char>,
    pub headers: Seq<(Seq<char>, Seq<char>)>,
    pub elapsed: Duration,
    pub method: Seq<char>,
}

impl View for HttpResponse {
    type V = ResponseView;

    open spec fn view(&self) -> ResponseView {
        ResponseView {
            status: self.status,
            body: self.body@,
            headers: pairs_view(self.headers@),
            elapsed: self.elapsed,
            method: self.method_str@,
        }
    }
}

pub struct SavedView {
    pub name: Seq<char>,
    pub url: Seq<char>,
    pub method: Seq<char>,
    pub body: Seq<char>,
    pub headers: Seq<(Seq<char>, Seq<char>)>,
}

impl View for SavedRequest {
    type V = SavedView;

    open spec fn view(&self) -> SavedView {
        SavedView {
            name: self.name@,
            url: self.url@,
            method: self.method_str@,
            body: self.body@,
            headers: pairs_view(self.headers@),
        }
    }
}

pub struct PlanView {
    pub method: Seq<char>,
    pub url: Seq<char>,
    pub body: Option<Seq<char>>,
    pub headers: Seq<(Seq<char>, Seq<char>)>,
}

impl View for RequestPlan {
    type V = PlanView;

    open spec fn view(&self) -> PlanView {
        PlanView {
            method: self.method@,
            url: self.url@,
            body: match self.body {
                Some(b) => Some(b@),
                None => None,
            },
            headers: pairs_view(self.headers@),
        }
    }
}

/// A copy of a list of header pairs.
pub fn copy_pairs(v: &Vec<(String, String)>) -> (r: Vec<(String, String)>)
    ensures
        r@ == v@,
{
    let mut r: Vec<(String, String)> = Vec::new();
    let mut i: usize = 0;
    while i < v.len()
        invariant
            i <= v@.len(),
            r@ == v@.take(i as int),
        decreases v.len() - i,
    {
        let k = v[i].0.clone();
        let x = v[i].1.clone();
        r.push((k, x));
        proof {
            assert(v@.take(i + 1) =~= v@.take(i as int).push(v@[i as int]));
        }
        i = i + 1;
    }
    proof {
        assert(v@.take(v@.len() as int) =~= v@);
    }
    r
}

impl HttpResponse {
    /// A copy of this response.
    pub fn duplicate(&self) -> (r: HttpResponse)
        ensures
            r@ == self@,
    {
        HttpResponse {
            status: self.status,
            body: self.body.clone(),
            headers: copy_pairs(&self.headers),
            elapsed: self.elapsed,
            method_str: self.method_str.clone(),
        }
    }
}

impl Clone for HttpResponse {
    fn clone(&self) -> (r: HttpResponse)
        ensures
            r@ == self@,
    {
        self.duplicate()
    }
}

impl SavedRequest {
    /// A copy of this saved request.
    pub fn duplicate(&self) -> (r: SavedRequest)
        ensures
            r@ == self@,
    {
        SavedRequest {
            name: self.name.clone(),
            url: self.url.clone(),
            method_str: self.method_str.clone(),
            body: self.body.clone(),
            headers: copy_pairs(&self.headers),
        }
    }
}

/// A zero-length duration (`Duration::ZERO`).
/// Trusted: nothing is stated of the value, which the logic only carries.
#[verifier::external_body]
fn zero_duration() -> Duration {
    Duration::ZERO
}

/// The placeholder response: status 1, nothing else.
pub fn empty_response() -> (r: HttpResponse)
    ensures
        r@.status == 1,
        r@.body == Seq::<char>::empty(),
        r@.headers == Seq::<(Seq<char>, Seq<char>)>::empty(),
        r@.method == Seq::<char>::empty(),
{
    HttpResponse {
        status: 1,
        body: String::new(),
        headers: Vec::new(),
        elapsed: zero_duration(),
        method_str: String::new(),
    }
}

/// The colour a status code is shown in.
#[derive(Clone, Copy, Debug, PartialEq, Eq, Structural)]
pub enum StatusColor {
    Green,
    Yellow,
    LightRed,
    Red,
    White,
}

/// Success is green, redirection yellow, client errors light red, server
/// errors and failed connections (status 0) red, anything else white.
pub open spec fn status_color_of(status: u16) -> StatusColor {
    if 200 <= status <= 299 {
        StatusColor::Green
    } else if 300 <= status <= 399 {
        StatusColor::Yellow
    } else if 400 <= status <= 499 {
        StatusColor::LightRed
    } else if 500 <= status <= 599 || status == 0 {
        StatusColor::Red
    } else {
        StatusColor::White
    }
}

pub fn status_color(status: u16) -> (c: StatusColor)
    ensures
        c == status_color_of(status),
{
    if 200 <= status && status <= 299 {
        StatusColor::Green
    } else if 300 <= status && status <= 399 {
        StatusColor::Yellow
    } else if 400 <= status && status <= 499 {
        StatusColor::LightRed
    } else if 500 <= status && status <= 599 {
        StatusColor::Red
    } else if status == 0 {
        StatusColor::Red
    } else {
        StatusColor::White
    }
}

/// A character allowed in an HTTP method name (an RFC 9110 `tchar`).
pub open spec fn is_tchar(c: char) -> bool {
    ('0' <= c <= '9') || ('a' <= c <= 'z') || ('A' <= c <= 'Z') || c == '!' || c == '#' || c == '$'
        || c == '%' || c == '&' || c == '\'' || c == '*' || c == '+' || c == '-' || c == '.'
        || c == '^' || c == '_' || c == '`' || c == '|' || c == '~'
}

/// A valid HTTP method name: one or more `tchar`s.
pub open spec fn is_http_token(s: Seq<char>) -> bool {
    s.len() > 0 && forall|i: int| 0 <= i < s.len() ==> is_tchar(#[trigger] s[i])
}

/// Parses an HTTP method name (`reqwest::Method::from_str`, then `Method::as_str`).
/// Trusted, from the `http` crate's source: the parse succeeds exactly on a
/// non-empty name made of `tchar`s (the name is case-sensitive), and the
/// method's text is then the name itself.
#[verifier::external_body]
fn parse_method(s: &str) -> (r: Option<String>)
    ensures
        r is Some <==> is_http_token(s@),
        r matches Some(m) ==> m@ == s@,
{
    match reqwest::Method::from_str(s) {
        Ok(m) => Some(m.as_str().to_string()),
        Err(_) => None,
    }
}

/// The method a name stands for: the name itself when it is valid, else GET.
pub open spec fn method_or_get(s: Seq<char>) -> Seq<char> {
    if is_http_token(s) { s } else { "GET"@ }
}

/// The method that `s` names, falling back to GET when it names none.
pub fn method_from_str(s: &str) -> (r: String)
    ensures
        r@ == method_or_get(s@),
{
    match parse_method(s) {
        Some(m) => m,
        None => "GET".to_owned(),
    }
}

/// The methods the client cycles through, in order.
pub open spec fn method_name(i: int) -> Seq<char> {
    if i == 0 {
        "GET"@
    } else if i == 1 {
        "POST"@
    } else if i == 2 {
        "PUT"@
    } else if i == 3 {
        "PATCH"@
    } else {
        "DELETE"@
    }
}

/// The number of methods the client cycles through.
pub const METHOD_COUNT: usize = 5;

pub fn method_literal(i: usize) -> (r: &'static str)
    requires
        i < METHOD_COUNT,
    ensures
        r@ == method_name(i as int),
{
    if i == 0 {
        "GET"
    } else if i == 1 {
        "POST"
    } else if i == 2 {
        "PUT"
    } else if i == 3 {
        "PATCH"
    } else {
        "DELETE"
    }
}

/// The position of `s` among the methods, or 0 when it is not one of them.
pub open spec fn method_position(s: Seq<char>) -> usize {
    if s == method_name(0) {
        0
    } else if s == method_name(1) {
        1
    } else if s == method_name(2) {
        2
    } else if s == method_name(3) {
        3
    } else if s == method_name(4) {
        4
    } else {
        0
    }
}

pub fn method_index(s: &str) -> (r: usize)
    ensures
        r == method_position(s@),
        r < METHOD_COUNT,
{
    let mut i: usize = 0;
    while i < METHOD_COUNT
        invariant
            i <= METHOD_COUNT,
            forall|j: int| 0 <= j < i ==> s@ != method_name(j),
        decreases METHOD_COUNT - i,
    {
        if same_text(s, method_literal(i)) {
            return i;
        }
        i = i + 1;
    }
    0
}

/// Every method the client cycles through is a valid method name.
pub proof fn law_cycled_methods_are_valid(i: int)
    requires
        0 <= i < METHOD_COUNT,
    ensures
        is_http_token(method_name(i)),
        method_or_get(method_name(i)) == method_name(i),
        method_position(method_name(i)) == i,
{
    reveal_strlit("GET");
    reveal_strlit("POST");
    reveal_strlit("PUT");
    reveal_strlit("PATCH");
    reveal_strlit("DELETE");
    let s = method_name(i);
    assert(forall|j: int| 0 <= j < s.len() ==> 'A' <= #[trigger] s[j] <= 'Z');
    assert(method_name(0)[0] != method_name(2)[0]);
    assert(method_name(0).len() != method_name(1).len());
    assert(method_name(0).len() != method_name(3).len());
    assert(method_name(0).len() != method_name(4).len());
    assert(method_name(1).len() != method_name(2).len());
    assert(method_name(1).len() != method_name(3).len());
    assert(method_name(1).len() != method_name(4).len());
    assert(method_name(2).len() != method_name(3).len());
    assert(method_name(2).len() != method_name(4).len());
    assert(method_name(3).len() != method_name(4).len());
}

/// How a URL is shown in lists: from the character after its second-to-last
/// `/` on, when it has two slashes or more; whole otherwise.
pub open spec fn short_url(s: Seq<char>) -> Seq<char> {
    let p = last_index_of(s, '/');
    let p2 = last_index_of(take_upto(s, p), '/');
    if p >= 0 && p2 >= 0 { s.skip(p2 + 1) } else { s }
}

/// The last two path segments of a URL joined by `/`, or the whole URL when
/// it has fewer than three segments.
pub fn format_short_url(url: &str) -> (r: String)
    ensures
        r@ == short_url(url@),
{
    let chars = to_chars(url);
    proof {
        lemma_last_index_of_bounds(chars@, '/');
    }
    match find_last(&chars, '/', chars.len()) {
        Some(p) => {
            proof {
                assert(take_upto(chars@, chars@.len() as int) =~= chars@);
            }
            match find_last(&chars, '/', p) {
                Some(p2) => suffix_string(&chars, p2 + 1),
                None => url.to_owned(),
            }
        },
        None => {
            proof {
                assert(take_upto(chars@, chars@.len() as int) =~= chars@);
            }
            url.to_owned()
        },
    }
}

/// The JSON text shown for a response body: the body parsed and
/// pretty-printed when it is JSON, otherwise the body printed as a JSON string.
pub uninterp spec fn json_display(text: Seq<char>) -> Seq<char>;

/// Pretty-prints a body (`serde_json::from_str::<serde_json::Value>`, falling
/// back to `Value::String` of the body, then `serde_json::to_string_pretty`,
/// falling back to the body). Trusted: the result depends on the body's
/// characters alone; what it is is left to serde_json and named.
#[verifier::external_body]
pub(crate) fn pretty_json(text: &str) -> (r: String)
    ensures
        r@ == json_display(text@),
{
    let value: serde_json::Value = serde_json::from_str(text)
        .unwrap_or(serde_json::Value::String(text.to_string()));
    serde_json::to_string_pretty(&value).unwrap_or(text.to_string())
}

} // verus!
