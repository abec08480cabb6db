//! The client's state and the operations on it. The surrounding program runs
//! the terminal, the network and the files; every decision is made here.
use vstd::prelude::*;
use crate::chars::{
    to_uppercase,
    to_lowercase,
    to_chars,
    contains_chars,
    same_text,
    push_str,
    str_uppercase,
};
use crate::text_input::{TextInput, InputModel};
use crate::request::{
    HttpResponse,
    SavedRequest,
    RequestPlan,
    ResponseView,
    SavedView,
    pairs_view,
    copy_pairs,
    method_from_str,
    method_index,
    method_or_get,
    method_position,
    empty_response,
    pretty_json,
    method_literal,
    format_short_url,
    short_url,
};
use crate::app_model::{
    AppModel,
    HistoryView,
    EffectView,
    PreviewView,
    fresh_input,
    named_headers,
    header_inputs,
    preview_of,
    shown_response,
    header_lines_text,
    response_text_of,
    response_pane_text,
    send,
    completed,
    candidate_urls,
    first_matches,
    suggested,
    suggestion_accepted,
    method_switched,
    history_loaded,
    saved_loaded,
    current_saved,
    response_saved,
    sample_requests,
    samples_loaded,
    sample,
};

verus! {

/// A request that was sent, with the response it got and when.
pub struct HistoryEntry {
    pub url: String,
    pub body: String,
    pub response: HttpResponse,
    pub time: String,
    pub headers: Vec<(String, String)>,
}

impl View for HistoryEntry {
    type V = HistoryView;

    open spec fn view(&self) -> HistoryView {
        HistoryView {
            url: self.url@,
            body: self.body@,
            response: self.response@,
            time: self.time@,
            headers: pairs_view(self.headers@),
        }
    }
}

impl HistoryEntry {
    pub fn duplicate(&self) -> (r: HistoryEntry)
        ensures
            r@ == self@,
    {
        HistoryEntry {
            url: self.url.clone(),
            body: self.body.clone(),
            response: self.response.duplicate(),
            time: self.time.clone(),
            headers: copy_pairs(&self.headers),
        }
    }
}

/// What the surrounding program is asked to do after a key press.
pub enum Effect {
    Nothing,
    /// Perform this request and report back with [`AppState::complete_request`].
    Send(RequestPlan),
    /// Write the saved requests to the request database.
    PersistSaved,
    /// Write this text to a response file.
    SaveResponse(String),
    /// Put this text on the clipboard.
    CopyText(String),
}

impl View for Effect {
    type V = EffectView;

    open spec fn view(&self) -> EffectView {
        match self {
            Effect::Nothing => EffectView::Nothing,
            Effect::Send(p) => EffectView::Send(p@),
            Effect::PersistSaved => EffectView::PersistSaved,
            Effect::SaveResponse(t) => EffectView::SaveResponse(t@),
            Effect::CopyText(t) => EffectView::CopyText(t@),
        }
    }
}

/// The sidebar item being previewed.
pub struct Preview {
    pub url: String,
    pub method: String,
    pub body: String,
    pub response: Option<HttpResponse>,
    pub headers: Vec<(String, String)>,
}

pub open spec fn response_opt_view(r: Option<HttpResponse>) -> Option<ResponseView> {
    match r {
        Some(x) => Some(x@),
        None => None,
    }
}

impl View for Preview {
    type V = PreviewView;

    open spec fn view(&self) -> PreviewView {
        PreviewView {
            url: self.url@,
            method: self.method@,
            body: self.body@,
            response: response_opt_view(self.response),
            headers: pairs_view(self.headers@),
        }
    }
}

pub open spec fn history_view(v: Seq<HistoryEntry>) -> Seq<HistoryView> {
    v.map_values(|h: HistoryEntry| h@)
}

pub open spec fn saved_view(v: Seq<SavedRequest>) -> Seq<SavedView> {
    v.map_values(|s: SavedRequest| s@)
}

pub open spec fn editors_view(v: Seq<(TextInput, TextInput)>) -> Seq<(InputModel, InputModel)> {
    v.map_values(|p: (TextInput, TextInput)| (p.0@, p.1@))
}

pub open spec fn strings_view(v: Seq<String>) -> Seq<Seq<char>> {
    v.map_values(|s: String| s@)
}

/// Everything the client decides with.
pub struct AppState {
    pub exit: bool,
    pub left_section_w: u16,
    pub top_section_h: u16,
    pub help_window: bool,
    pub url_input: TextInput,
    pub method: String,
    pub method_i: usize,
    pub request_body_input: TextInput,
    pub response: Option<HttpResponse>,
    pub loading: bool,
    pub body_scroll: u16,
    pub response_scroll: u16,
    pub requests_history: Vec<HistoryEntry>,
    pub selected_tab: usize,
    pub sidebar_focused: bool,
    pub history_selected: usize,
    pub saved_requests: Vec<SavedRequest>,
    pub saved_selected: usize,
    pub show_response_headers: bool,
    pub response_focused: bool,
    pub response_cursor: usize,
    pub response_selection_anchor: Option<usize>,
    pub request_headers: Vec<(TextInput, TextInput)>,
    pub headers_focused: bool,
    pub headers_selected: usize,
    pub header_field: usize,
    pub url_suggestions: Vec<String>,
    pub url_suggestion_selected: usize,
    pub show_suggestions: bool,
}

impl View for AppState {
    type V = AppModel;

    open spec fn view(&self) -> AppModel {
        AppModel {
            exit: self.exit,
            left_section_w: self.left_section_w,
            top_section_h: self.top_section_h,
            help_window: self.help_window,
            url_input: self.url_input@,
            method: self.method@,
            method_i: self.method_i,
            request_body_input: self.request_body_input@,
            response: response_opt_view(self.response),
            loading: self.loading,
            body_scroll: self.body_scroll,
            response_scroll: self.response_scroll,
            requests_history: history_view(self.requests_history@),
            selected_tab: self.selected_tab,
            sidebar_focused: self.sidebar_focused,
            history_selected: self.history_selected,
            saved_requests: saved_view(self.saved_requests@),
            saved_selected: self.saved_selected,
            show_response_headers: self.show_response_headers,
            response_focused: self.response_focused,
            response_cursor: self.response_cursor,
            response_selection_anchor: self.response_selection_anchor,
            request_headers: editors_view(self.request_headers@),
            headers_focused: self.headers_focused,
            headers_selected: self.headers_selected,
            header_field: self.header_field,
            url_suggestions: strings_view(self.url_suggestions@),
            url_suggestion_selected: self.url_suggestion_selected,
            show_suggestions: self.show_suggestions,
        }
    }
}

/// The method and its index for a method named on the command line: the name
/// is uppercased; an unknown name gives index 0, an invalid one GET.
pub open spec fn method_from_arg(m: Option<Seq<char>>) -> (Seq<char>, usize) {
    match m {
        Some(s) => (method_or_get(str_uppercase(s)), method_position(str_uppercase(s))),
        None => ("GET"@, 0),
    }
}

/// The URL editor for a URL named on the command line, its cursor at the URL's
/// length in bytes.
pub open spec fn initial_url_input(u: Option<Seq<char>>) -> InputModel {
    match u {
        Some(s) => InputModel {
            text: s,
            cursor: vstd::utf8::encode_utf8(s).len() as usize,
            focused: false,
            multiline: false,
            anchor: None,
        },
        None => fresh_input(Seq::empty(), false),
    }
}

pub open spec fn opt_view(s: Option<String>) -> Option<Seq<char>> {
    match s {
        Some(x) => Some(x@),
        None => None,
    }
}

/// The client when it starts.
pub open spec fn initial_model(url: Option<Seq<char>>, method: Option<Seq<char>>, saved: Seq<SavedView>) -> AppModel {
    AppModel {
        exit: false,
        left_section_w: 40,
        top_section_h: 40,
        help_window: true,
        url_input: initial_url_input(url),
        method: method_from_arg(method).0,
        method_i: method_from_arg(method).1,
        request_body_input: fresh_input(Seq::empty(), true),
        response: None,
        loading: false,
        body_scroll: 0,
        response_scroll: 0,
        requests_history: Seq::empty(),
        selected_tab: 0,
        sidebar_focused: false,
        history_selected: 0,
        saved_requests: saved,
        saved_selected: 0,
        show_response_headers: false,
        response_focused: false,
        response_cursor: 0,
        response_selection_anchor: None,
        request_headers: Seq::empty(),
        headers_focused: false,
        headers_selected: 0,
        header_field: 0,
        url_suggestions: Seq::empty(),
        url_suggestion_selected: 0,
        show_suggestions: false,
    }
}

/// The key and value of each header pair whose key is not empty.
pub fn named_header_pairs(hs: &Vec<(TextInput, TextInput)>) -> (r: Vec<(String, String)>)
    ensures
        pairs_view(r@) == named_headers(editors_view(hs@)),
{
    let ghost hv = editors_view(hs@);
    let mut r: Vec<(String, String)> = Vec::new();
    let mut i: usize = 0;
    while i < hs.len()
        invariant
            i <= hs@.len(),
            hv == editors_view(hs@),
            pairs_view(r@) == named_headers(hv.take(i as int)),
        decreases hs.len() - i,
    {
        proof {
            assert(hv.take(i + 1).drop_last() =~= hv.take(i as int));
            assert(hv.take(i + 1).last() == hv[i as int]);
        }
        let key = hs[i].0.value();
        let val = hs[i].1.value();
        if !key.is_empty() {
            let ghost before = r@;
            r.push((key.to_owned(), val.to_owned()));
            proof {
                assert(pairs_view(r@) =~= pairs_view(before).push((key@, val@)));
            }
        }
        i = i + 1;
    }
    proof {
        assert(hv.take(hs@.len() as int) =~= hv);
    }
    r
}

/// A fresh key editor and value editor for each header pair.
pub fn header_editors(hs: &Vec<(String, String)>) -> (r: Vec<(TextInput, TextInput)>)
    ensures
        editors_view(r@) == header_inputs(pairs_view(hs@)),
{
    let mut r: Vec<(TextInput, TextInput)> = Vec::new();
    let mut i: usize = 0;
    while i < hs.len()
        invariant
            i <= hs@.len(),
            editors_view(r@) =~= header_inputs(pairs_view(hs@.take(i as int))),
        decreases hs.len() - i,
    {
        let k = TextInput::new(hs[i].0.clone());
        let v = TextInput::new(hs[i].1.clone());
        let ghost before = r@;
        r.push((k, v));
        proof {
            assert(hs@.take(i + 1) =~= hs@.take(i as int).push(hs@[i as int]));
            assert(editors_view(r@) =~= editors_view(before).push((k@, v@)));
            assert(header_inputs(pairs_view(hs@.take(i + 1))) =~= header_inputs(pairs_view(hs@.take(i as int))).push((k@, v@)));
        }
        i = i + 1;
    }
    proof {
        assert(hs@.take(hs@.len() as int) =~= hs@);
    }
    r
}

/// The text a response is shown as: with `show_headers`, its headers as
/// `key: value` lines; otherwise its body pretty-printed as JSON.
pub fn response_display(resp: &HttpResponse, show_headers: bool) -> (r: String)
    ensures
        r@ == response_pane_text(resp@, show_headers),
{
    if show_headers {
        header_lines(&resp.headers)
    } else {
        pretty_json(resp.body.as_str())
    }
}

/// `key: value` lines for the header pairs.
pub fn header_lines(hs: &Vec<(String, String)>) -> (r: String)
    ensures
        r@ == header_lines_text(pairs_view(hs@)),
{
    let mut r = String::new();
    let mut i: usize = 0;
    while i < hs.len()
        invariant
            i <= hs@.len(),
            r@ == header_lines_text(pairs_view(hs@.take(i as int))),
        decreases hs.len() - i,
    {
        let ghost before = r@;
        if i > 0 {
            push_str(&mut r, "\n");
        }
        push_str(&mut r, hs[i].0.as_str());
        push_str(&mut r, ": ");
        push_str(&mut r, hs[i].1.as_str());
        proof {
            reveal_strlit("\n");
            reveal_strlit(": ");
            let t = pairs_view(hs@.take(i + 1));
            assert(pairs_view(hs@.take(i + 1)).drop_last() =~= pairs_view(hs@.take(i as int)));
            assert(t.last() == (hs@[i as int].0@, hs@[i as int].1@));
            if i == 0 {
                assert(r@ =~= header_lines_text(t));
            } else {
                assert(r@ =~= header_lines_text(t));
            }
        }
        i = i + 1;
    }
    proof {
        assert(hs@.take(hs@.len() as int) =~= hs@);
    }
    r
}

/// Whether `s` is among the strings of `v`.
pub fn has_string(v: &Vec<String>, s: &str) -> (r: bool)
    ensures
        r == strings_view(v@).contains(s@),
{
    let mut i: usize = 0;
    while i < v.len()
        invariant
            i <= v@.len(),
            forall|j: int| 0 <= j < i ==> v@[j]@ != s@,
        decreases v.len() - i,
    {
        if same_text(v[i].as_str(), s) {
            proof {
                assert(strings_view(v@)[i as int] == s@);
            }
            return true;
        }
        i = i + 1;
    }
    proof {
        assert forall|j: int| 0 <= j < strings_view(v@).len() implies strings_view(v@)[j] != s@ by {
            assert(strings_view(v@)[j] == v@[j]@);
        }
    }
    false
}

/// The sample requests offered in the settings tab.
pub fn sample_saved_requests() -> (r: Vec<SavedRequest>)
    ensures
        saved_view(r@) == sample_requests(),
{
    let r = vec![
        SavedRequest {
            name: "GET dogs".to_owned(),
            url: "https://dogapi.dog/api/v2/breeds".to_owned(),
            method_str: "GET".to_owned(),
            body: String::new(),
            headers: Vec::new(),
        },
        SavedRequest {
            name: "GET random dog fact".to_owned(),
            url: "https://dogapi.dog/api/v2/facts?limit=1".to_owned(),
            method_str: "GET".to_owned(),
            body: String::new(),
            headers: Vec::new(),
        },
        SavedRequest {
            name: "GET todos".to_owned(),
            url: "https://jsonplaceholder.typicode.com/todos/1".to_owned(),
            method_str: "GET".to_owned(),
            body: String::new(),
            headers: Vec::new(),
        },
        SavedRequest {
            name: "POST create post".to_owned(),
            url: "https://jsonplaceholder.typicode.com/posts".to_owned(),
            method_str: "POST".to_owned(),
            body: "{\n  \"title\": \"hello\",\n  \"body\": \"world\",\n  \"userId\": 1\n}".to_owned(),
            headers: Vec::new(),
        },
        SavedRequest {
            name: "PUT update post".to_owned(),
            url: "https://jsonplaceholder.typicode.com/posts/1".to_owned(),
            method_str: "PUT".to_owned(),
            body: "{\n  \"id\": 1,\n  \"title\": \"updated\",\n  \"body\": \"new body\",\n  \"userId\": 1\n}".to_owned(),
            headers: Vec::new(),
        },
        SavedRequest {
            name: "DELETE post".to_owned(),
            url: "https://jsonplaceholder.typicode.com/posts/1".to_owned(),
            method_str: "DELETE".to_owned(),
            body: String::new(),
            headers: Vec::new(),
        },
        SavedRequest {
            name: "GET IP info".to_owned(),
            url: "https://httpbin.org/ip".to_owned(),
            method_str: "GET".to_owned(),
            body: String::new(),
            headers: Vec::new(),
        },
        SavedRequest {
            name: "GET headers echo".to_owned(),
            url: "https://httpbin.org/headers".to_owned(),
            method_str: "GET".to_owned(),
            body: String::new(),
            headers: Vec::new(),
        },
    ];
    proof {
        assert forall|k: int| 0 <= k < r@.len() implies pairs_view(#[trigger] r@[k].headers@) =~= Seq::<(Seq<char>, Seq<char>)>::empty() by {
            assert(r@[k].headers@.len() == 0);
        }
        assert(saved_view(r@) =~= sample_requests());
    }
    r
}

/// The height of the headers area: none without headers, else one row per
/// header and two for the border, at most 8.
pub fn headers_height(count: usize) -> (h: u16)
    requires
        count == 0 || (count as u16) + 2 <= u16::MAX,
    ensures
        h == if count == 0 { 0 } else if (count as u16) + 2 < 8 { ((count as u16) + 2) as u16 } else { 8 },
{
    if count == 0 {
        0
    } else {
        let h = count as u16 + 2;
        if h < 8 { h } else { 8 }
    }
}

impl AppState {
    /// The client as it starts, with an optional URL and method from the
    /// command line and the saved requests read from the database.
    pub fn new(initial_url: Option<String>, initial_method: Option<String>, saved_requests: Vec<SavedRequest>) -> (r: AppState)
        ensures
            r@ == initial_model(opt_view(initial_url), opt_view(initial_method), saved_view(saved_requests@)),
    {
        let (method, method_i) = match &initial_method {
            Some(m) => {
                let upper = to_uppercase(m.as_str());
                let idx = method_index(upper.as_str());
                (method_from_str(upper.as_str()), idx)
            },
            None => ("GET".to_owned(), 0),
        };
        let url_input = match initial_url {
            Some(url) => {
                let n = url.as_str().len();
                let mut ti = TextInput::new(url);
                ti.cursor = n;
                ti
            },
            None => TextInput::new(String::new()),
        };
        assert((method@, method_i) == method_from_arg(opt_view(initial_method)));
        assert(url_input@ == initial_url_input(opt_view(initial_url)));
        let r = AppState {
            exit: false,
            left_section_w: 40,
            top_section_h: 40,
            help_window: true,
            url_input,
            request_body_input: TextInput::new_multiline(String::new()),
            response: None,
            method,
            method_i,
            loading: false,
            body_scroll: 0,
            response_scroll: 0,
            requests_history: Vec::new(),
            selected_tab: 0,
            sidebar_focused: false,
            history_selected: 0,
            saved_requests,
            saved_selected: 0,
            show_response_headers: false,
            response_focused: false,
            response_cursor: 0,
            response_selection_anchor: None,
            request_headers: Vec::new(),
            headers_focused: false,
            headers_selected: 0,
            header_field: 0,
            url_suggestions: Vec::new(),
            url_suggestion_selected: 0,
            show_suggestions: false,
        };
        proof {
            assert(history_view(r.requests_history@) =~= Seq::<HistoryView>::empty());
            assert(editors_view(r.request_headers@) =~= Seq::<(InputModel, InputModel)>::empty());
            assert(strings_view(r.url_suggestions@) =~= Seq::<Seq<char>>::empty());
        }
        r
    }

    /// Starts a request to `url`: the client waits and clears the response.
    /// Returns what to send: the method, a JSON body for methods other than GET
    /// when there is a body, and the headers whose key is not empty.
    pub fn send_request(&mut self, url: String) -> (plan: RequestPlan)
        ensures
            (final(self)@, EffectView::Send(plan@)) == send(old(self)@, url@),
    {
        self.loading = true;
        self.response = None;
        let method = self.method.clone();
        let body = self.request_body_input.value();
        let with_body = !same_text(method.as_str(), "GET") && !body.is_empty();
        let body = if with_body { Some(body.to_owned()) } else { None };
        let headers = named_header_pairs(&self.request_headers);
        RequestPlan { method, url, body, headers }
    }

    /// Takes in the response of the request that was sent: it is shown from the
    /// top, unfocused, and the request goes into the history at `time`.
    pub fn complete_request(&mut self, resp: HttpResponse, time: String)
        ensures
            final(self)@ == completed(old(self)@, resp@, time@),
    {
        self.response_scroll = 0;
        self.response_focused = false;
        self.response_cursor = 0;
        self.response_selection_anchor = None;
        self.response = Some(resp);
        let req_headers = named_header_pairs(&self.request_headers);
        let entry_response = match &self.response {
            Some(r) => r.duplicate(),
            None => empty_response(),
        };
        let entry = HistoryEntry {
            url: self.url_input.input.clone(),
            body: self.request_body_input.value().to_owned(),
            response: entry_response,
            time,
            headers: req_headers,
        };
        let ghost before = self.requests_history@;
        self.requests_history.push(entry);
        proof {
            assert(history_view(self.requests_history@) =~= history_view(before).push(entry@));
        }
        self.loading = false;
    }

    /// The highlighted sidebar item, while the sidebar has the focus.
    pub fn preview_data(&self) -> (r: Option<Preview>)
        ensures
            match r {
                Some(p) => preview_of(self@) == Some(p@),
                None => preview_of(self@) is None,
            },
    {
        if !self.sidebar_focused {
            return None;
        }
        if self.selected_tab == 0 {
            if self.history_selected < self.requests_history.len() {
                let h = &self.requests_history[self.history_selected];
                Some(Preview {
                    url: h.url.clone(),
                    method: h.response.method_str.clone(),
                    body: h.body.clone(),
                    response: Some(h.response.duplicate()),
                    headers: copy_pairs(&h.headers),
                })
            } else {
                None
            }
        } else if self.selected_tab == 1 {
            if self.saved_selected < self.saved_requests.len() {
                let s = &self.saved_requests[self.saved_selected];
                Some(Preview {
                    url: s.url.clone(),
                    method: s.method_str.clone(),
                    body: s.body.clone(),
                    response: None,
                    headers: copy_pairs(&s.headers),
                })
            } else {
                None
            }
        } else {
            None
        }
    }

    /// The response the response pane reads: the previewed one if it has one,
    /// else the current one.
    fn shown(&self) -> (r: Option<&HttpResponse>)
        ensures
            match r {
                Some(x) => shown_response(self@) == Some(x@),
                None => shown_response(self@) is None,
            },
    {
        if self.sidebar_focused && self.selected_tab == 0 && self.history_selected < self.requests_history.len() {
            return Some(&self.requests_history[self.history_selected].response);
        }
        match &self.response {
            Some(r) => Some(r),
            None => None,
        }
    }

    /// The text of the response pane: the response headers as `key: value`
    /// lines, or the body as pretty-printed JSON.
    pub fn response_text(&self) -> (r: String)
        ensures
            r@ == response_text_of(self@),
    {
        match self.shown() {
            None => String::new(),
            Some(resp) => response_display(resp, self.show_response_headers),
        }
    }

    /// Recomputes the URL suggestions for the URL being typed: the URLs of the
    /// history (newest first) and of the saved requests whose lowercase holds
    /// the lowercased input, each once; none when the only one is the input itself.
    pub fn update_suggestions(&mut self)
        ensures
            final(self)@ == suggested(old(self)@),
    {
        let query = to_lowercase(self.url_input.value());
        if query.as_str().is_empty() {
            self.url_suggestions.clear();
            self.show_suggestions = false;
            proof {
                assert(strings_view(self.url_suggestions@) =~= Seq::<Seq<char>>::empty());
            }
            return;
        }
        let ghost m = self@;
        let ghost q = query@;
        let ghost cands = candidate_urls(m);
        let qchars = to_chars(query.as_str());
        let mut suggestions: Vec<String> = Vec::new();
        let n = self.requests_history.len();
        let mut i: usize = 0;
        while i < n
            invariant
                m == self@,
                q == query@,
                qchars@ == q,
                cands == candidate_urls(m),
                n == self.requests_history@.len(),
                i <= n,
                strings_view(suggestions@) == first_matches(cands.take(i as int), q),
            decreases n - i,
        {
            let url = &self.requests_history[n - 1 - i].url;
            proof {
                assert(cands.take(i + 1).drop_last() =~= cands.take(i as int));
                assert(cands.take(i + 1).last() == url@);
            }
            let low = to_lowercase(url.as_str());
            if contains_chars(&to_chars(low.as_str()), &qchars) && !has_string(&suggestions, url.as_str()) {
                let ghost before = suggestions@;
                suggestions.push(url.clone());
                proof {
                    assert(strings_view(suggestions@) =~= strings_view(before).push(url@));
                }
            }
            i = i + 1;
        }
        let k = self.saved_requests.len();
        let mut j: usize = 0;
        while j < k
            invariant
                m == self@,
                q == query@,
                qchars@ == q,
                cands == candidate_urls(m),
                n == self.requests_history@.len(),
                k == self.saved_requests@.len(),
                j <= k,
                strings_view(suggestions@) == first_matches(cands.take(n + j), q),
            decreases k - j,
        {
            let url = &self.saved_requests[j].url;
            proof {
                assert(cands.take(n + j + 1).drop_last() =~= cands.take(n + j));
                assert(cands.take(n + j + 1).last() == url@);
            }
            let low = to_lowercase(url.as_str());
            if contains_chars(&to_chars(low.as_str()), &qchars) && !has_string(&suggestions, url.as_str()) {
                let ghost before = suggestions@;
                suggestions.push(url.clone());
                proof {
                    assert(strings_view(suggestions@) =~= strings_view(before).push(url@));
                }
            }
            j = j + 1;
        }
        proof {
            assert(cands.take(n + k) =~= cands);
        }
        if suggestions.len() == 1 && same_text(suggestions[0].as_str(), self.url_input.value()) {
            suggestions.clear();
            proof {
                assert(strings_view(suggestions@) =~= Seq::<Seq<char>>::empty());
            }
        }
        self.show_suggestions = suggestions.len() > 0;
        self.url_suggestion_selected = 0;
        self.url_suggestions = suggestions;
    }

    /// Puts the highlighted suggestion into the URL editor, focused, with the
    /// cursor at its length in bytes, and drops the suggestions.
    pub fn accept_suggestion(&mut self)
        ensures
            final(self)@ == suggestion_accepted(old(self)@),
    {
        if self.url_suggestion_selected < self.url_suggestions.len() {
            let url = self.url_suggestions[self.url_suggestion_selected].clone();
            let n = url.as_str().len();
            self.url_input = TextInput::new(url);
            self.url_input.focus();
            self.url_input.cursor = n;
            self.url_suggestions.clear();
            self.show_suggestions = false;
            proof {
                assert(strings_view(self.url_suggestions@) =~= Seq::<Seq<char>>::empty());
            }
        }
    }

    /// Moves to the next (or previous) method, wrapping around.
    pub fn switch_method(&mut self, forwards: bool)
        requires
            forwards || old(self).method_i <= 5,
        ensures
            final(self)@ == method_switched(old(self)@, forwards),
    {
        if forwards {
            if self.method_i < 4 {
                self.method_i = self.method_i + 1;
            } else {
                self.method_i = 0;
            }
        } else {
            if self.method_i > 0 {
                self.method_i = self.method_i - 1;
            } else {
                self.method_i = 4;
            }
        }
        self.method = method_from_str(method_literal(self.method_i));
    }

    /// Loads the highlighted history entry into the editors, with its
    /// response, and leaves the sidebar.
    pub fn load_from_history(&mut self)
        ensures
            final(self)@ == history_loaded(old(self)@),
    {
        if self.history_selected < self.requests_history.len() {
            let h = &self.requests_history[self.history_selected];
            let url_input = TextInput::new(h.url.clone());
            let body_input = TextInput::new_multiline(h.body.clone());
            let method = method_from_str(h.response.method_str.as_str());
            let method_i = method_index(h.response.method_str.as_str());
            let headers = header_editors(&h.headers);
            let response = h.response.duplicate();
            self.url_input = url_input;
            self.request_body_input = body_input;
            self.method = method;
            self.method_i = method_i;
            self.request_headers = headers;
            self.response = Some(response);
            self.body_scroll = 0;
            self.response_scroll = 0;
            self.sidebar_focused = false;
        }
    }

    /// Loads the highlighted saved request into the editors, without a
    /// response, and leaves the sidebar.
    pub fn load_from_saved(&mut self)
        ensures
            final(self)@ == saved_loaded(old(self)@),
    {
        if self.saved_selected < self.saved_requests.len() {
            let s = &self.saved_requests[self.saved_selected];
            let url_input = TextInput::new(s.url.clone());
            let body_input = TextInput::new_multiline(s.body.clone());
            let method = method_from_str(s.method_str.as_str());
            let method_i = method_index(s.method_str.as_str());
            let headers = header_editors(&s.headers);
            self.url_input = url_input;
            self.request_body_input = body_input;
            self.method = method;
            self.method_i = method_i;
            self.request_headers = headers;
            self.response = None;
            self.body_scroll = 0;
            self.response_scroll = 0;
            self.sidebar_focused = false;
        }
    }

    /// Saves the current request under its method and short URL, when it has
    /// a URL, and shows the saved tab.
    pub fn save_current_request(&mut self) -> (e: Effect)
        ensures
            (final(self)@, e@) == current_saved(old(self)@),
    {
        let url = self.url_input.value().to_owned();
        if url.as_str().is_empty() {
            return Effect::Nothing;
        }
        proof {
            reveal_strlit(" ");
        }
        let mut name = self.method.clone();
        push_str(&mut name, " ");
        let short = format_short_url(url.as_str());
        push_str(&mut name, short.as_str());
        assert(name@ =~= self.method@ + seq![' '] + short_url(url@));
        let headers = named_header_pairs(&self.request_headers);
        let saved = SavedRequest {
            name,
            url,
            method_str: self.method.clone(),
            body: self.request_body_input.value().to_owned(),
            headers,
        };
        let ghost before = self.saved_requests@;
        self.saved_requests.push(saved);
        proof {
            assert(saved_view(self.saved_requests@) =~= saved_view(before).push(saved@));
        }
        self.selected_tab = 1;
        Effect::PersistSaved
    }

    /// The body of the shown response as pretty-printed JSON, to be written to
    /// a file; nothing when no response is shown.
    pub fn save_response(&self) -> (e: Effect)
        ensures
            e@ == response_saved(self@),
    {
        match self.shown() {
            Some(resp) => Effect::SaveResponse(pretty_json(resp.body.as_str())),
            None => Effect::Nothing,
        }
    }

    /// Adds the sample requests to the saved ones and shows the saved tab.
    pub fn load_sample_requests(&mut self) -> (e: Effect)
        ensures
            (final(self)@, e@) == samples_loaded(old(self)@),
    {
        let mut samples = sample_saved_requests();
        let ghost before = self.saved_requests@;
        let ghost added = samples@;
        self.saved_requests.append(&mut samples);
        proof {
            assert(saved_view(self.saved_requests@) =~= saved_view(before) + saved_view(added));
        }
        self.selected_tab = 1;
        Effect::PersistSaved
    }

    pub fn exit(&mut self)
        ensures
            final(self)@ == (AppModel { exit: true, ..old(self)@ }),
    {
        self.exit = true;
    }
}

} // verus!
