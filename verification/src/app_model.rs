//! The client's state as mathematical values, and what each key press does to it.
use vstd::prelude::*;
use crate::chars::{take_upto, skip_from, newlines, line_begin, next_newline, contains_text, str_lowercase};
use crate::keys::{KeyCode, KeyInput};
use crate::text_input::{InputModel, key_step};
use crate::request::{
    ResponseView, SavedView, PlanView, method_or_get, method_name, method_position, short_url,
    json_display,
};

verus! {

/// A request that was sent, with the response it got.
pub struct HistoryView {
    pub url: Seq<char>,
    pub body: Seq<char>,
    pub response: ResponseView,
    pub time: Seq<char>,
    pub headers: Seq<(Seq<char>, Seq<char>)>,
}

/// What the surrounding program is asked to do after a key press.
pub enum EffectView {
    Nothing,
    Send(PlanView),
    PersistSaved,
    SaveResponse(Seq<char>),
    CopyText(Seq<char>),
}

/// The item highlighted in the sidebar, shown instead of the current request.
pub struct PreviewView {
    pub url: Seq<char>,
    pub method: Seq<char>,
    pub body: Seq<char>,
    pub response: Option<ResponseView>,
    pub headers: Seq<(Seq<char>, Seq<char>)>,
}

/// The abstract state of the client.
pub struct AppModel {
    pub exit: bool,
    pub left_section_w: u16,
    pub top_section_h: u16,
    pub help_window: bool,
    pub url_input: InputModel,
    pub method: Seq<char>,
    pub method_i: usize,
    pub request_body_input: InputModel,
    pub response: Option<ResponseView>,
    pub loading: bool,
    pub body_scroll: u16,
    pub response_scroll: u16,
    pub requests_history: Seq<HistoryView>,
    pub selected_tab: usize,
    pub sidebar_focused: bool,
    pub history_selected: usize,
    pub saved_requests: Seq<SavedView>,
    pub saved_selected: usize,
    pub show_response_headers: bool,
    pub response_focused: bool,
    pub response_cursor: usize,
    pub response_selection_anchor: Option<usize>,
    pub request_headers: Seq<(InputModel, InputModel)>,
    pub headers_focused: bool,
    pub headers_selected: usize,
    pub header_field: usize,
    pub url_suggestions: Seq<Seq<char>>,
    pub url_suggestion_selected: usize,
    pub show_suggestions: bool,
}

pub open spec fn sat_add(a: u16, b: u16) -> u16 {
    if a + b <= u16::MAX { (a + b) as u16 } else { u16::MAX }
}

pub open spec fn sat_sub(a: u16, b: u16) -> u16 {
    if a >= b { (a - b) as u16 } else { 0 }
}

pub open spec fn dec(a: usize) -> usize {
    if a > 0 { (a - 1) as usize } else { 0 }
}

pub open spec fn min_int(a: int, b: int) -> int {
    if a < b { a } else { b }
}

/// A fresh editor holding `text`.
pub open spec fn fresh_input(text: Seq<char>, multiline: bool) -> InputModel {
    InputModel { text, cursor: 0, focused: false, multiline, anchor: None }
}

/// The header pairs whose key is not empty, as text.
pub open spec fn named_headers(hs: Seq<(InputModel, InputModel)>) -> Seq<(Seq<char>, Seq<char>)>
    decreases hs.len(),
{
    if hs.len() == 0 {
        Seq::empty()
    } else {
        let rest = named_headers(hs.drop_last());
        if hs.last().0.text.len() > 0 {
            rest.push((hs.last().0.text, hs.last().1.text))
        } else {
            rest
        }
    }
}

/// Header pairs turned into fresh key and value editors.
pub open spec fn header_inputs(hs: Seq<(Seq<char>, Seq<char>)>) -> Seq<(InputModel, InputModel)> {
    hs.map_values(|p: (Seq<char>, Seq<char>)| (fresh_input(p.0, false), fresh_input(p.1, false)))
}

/// The sidebar item being previewed, when the sidebar has the focus.
pub open spec fn preview_of(m: AppModel) -> Option<PreviewView> {
    if !m.sidebar_focused {
        None
    } else if m.selected_tab == 0 {
        if m.history_selected < m.requests_history.len() {
            let h = m.requests_history[m.history_selected as int];
            Some(PreviewView {
                url: h.url,
                method: h.response.method,
                body: h.body,
                response: Some(h.response),
                headers: h.headers,
            })
        } else {
            None
        }
    } else if m.selected_tab == 1 {
        if m.saved_selected < m.saved_requests.len() {
            let s = m.saved_requests[m.saved_selected as int];
            Some(PreviewView { url: s.url, method: s.method, body: s.body, response: None, headers: s.headers })
        } else {
            None
        }
    } else {
        None
    }
}

/// The response the response pane reads: the previewed one if it has one,
/// else the current one.
pub open spec fn shown_response(m: AppModel) -> Option<ResponseView> {
    match preview_of(m) {
        Some(p) => match p.response {
            Some(r) => Some(r),
            None => m.response,
        },
        None => m.response,
    }
}

/// `key: value` lines, one per header pair.
pub open spec fn header_lines_text(hs: Seq<(Seq<char>, Seq<char>)>) -> Seq<char>
    decreases hs.len(),
{
    if hs.len() == 0 {
        Seq::empty()
    } else if hs.len() == 1 {
        hs[0].0 + seq![':', ' '] + hs[0].1
    } else {
        header_lines_text(hs.drop_last()) + seq!['\n'] + hs.last().0 + seq![':', ' '] + hs.last().1
    }
}

/// The text a response is shown as: its headers as `key: value` lines, or its
/// body as JSON.
pub open spec fn response_pane_text(r: ResponseView, show_headers: bool) -> Seq<char> {
    if show_headers {
        header_lines_text(r.headers)
    } else {
        json_display(r.body)
    }
}

/// The text of the response pane: the headers, or the body as JSON.
pub open spec fn response_text_of(m: AppModel) -> Seq<char> {
    match shown_response(m) {
        None => Seq::empty(),
        Some(r) => response_pane_text(r, m.show_response_headers),
    }
}

/// The request sent for `url`: a body (as JSON) only for methods other than
/// GET and only when there is one, and the named headers.
pub open spec fn plan_for(m: AppModel, url: Seq<char>) -> PlanView {
    PlanView {
        method: m.method,
        url,
        body: if m.method != "GET"@ && m.request_body_input.text.len() > 0 {
            Some(m.request_body_input.text)
        } else {
            None
        },
        headers: named_headers(m.request_headers),
    }
}

/// Sending a request: the client waits, without a response.
pub open spec fn send(m: AppModel, url: Seq<char>) -> (AppModel, EffectView) {
    (AppModel { loading: true, response: None, ..m }, EffectView::Send(plan_for(m, url)))
}

/// A finished request: its response is shown from the top, and the request
/// goes into the history.
pub open spec fn completed(m: AppModel, resp: ResponseView, time: Seq<char>) -> AppModel {
    AppModel {
        response_scroll: 0,
        response_focused: false,
        response_cursor: 0,
        response_selection_anchor: None,
        response: Some(resp),
        requests_history: m.requests_history.push(HistoryView {
            url: m.url_input.text,
            body: m.request_body_input.text,
            response: resp,
            time,
            headers: named_headers(m.request_headers),
        }),
        loading: false,
        ..m
    }
}

/// The URLs of the history, newest first, then those of the saved requests.
pub open spec fn candidate_urls(m: AppModel) -> Seq<Seq<char>> {
    Seq::new(m.requests_history.len(), |i: int| m.requests_history[m.requests_history.len() - 1 - i].url)
        + m.saved_requests.map_values(|s: SavedView| s.url)
}

/// The URLs whose lowercase holds `q`, each only at its first occurrence.
pub open spec fn first_matches(urls: Seq<Seq<char>>, q: Seq<char>) -> Seq<Seq<char>>
    decreases urls.len(),
{
    if urls.len() == 0 {
        Seq::empty()
    } else {
        let d = first_matches(urls.drop_last(), q);
        let u = urls.last();
        if contains_text(str_lowercase(u), q) && !d.contains(u) { d.push(u) } else { d }
    }
}

/// The suggestions for the URL being typed.
pub open spec fn suggested(m: AppModel) -> AppModel {
    let q = str_lowercase(m.url_input.text);
    if q.len() == 0 {
        AppModel { url_suggestions: Seq::empty(), show_suggestions: false, ..m }
    } else {
        let s0 = first_matches(candidate_urls(m), q);
        let s = if s0.len() == 1 && s0[0] == m.url_input.text { Seq::empty() } else { s0 };
        AppModel { show_suggestions: s.len() > 0, url_suggestion_selected: 0, url_suggestions: s, ..m }
    }
}

/// Taking the highlighted suggestion into the URL editor.
pub open spec fn suggestion_accepted(m: AppModel) -> AppModel {
    if m.url_suggestion_selected < m.url_suggestions.len() {
        let u = m.url_suggestions[m.url_suggestion_selected as int];
        AppModel {
            url_input: InputModel {
                text: u,
                cursor: vstd::utf8::encode_utf8(u).len() as usize,
                focused: true,
                multiline: false,
                anchor: None,
            },
            url_suggestions: Seq::empty(),
            show_suggestions: false,
            ..m
        }
    } else {
        m
    }
}

/// The method index after moving forwards or backwards through the methods.
pub open spec fn next_method_index(i: usize, forwards: bool) -> usize {
    if forwards {
        if i < 4 { (i + 1) as usize } else { 0 }
    } else {
        if i > 0 { (i - 1) as usize } else { 4 }
    }
}

pub open spec fn method_switched(m: AppModel, forwards: bool) -> AppModel {
    let i = next_method_index(m.method_i, forwards);
    AppModel { method_i: i, method: method_or_get(method_name(i as int)), ..m }
}

/// Loading the highlighted history entry into the editors, with its response.
pub open spec fn history_loaded(m: AppModel) -> AppModel {
    if m.history_selected < m.requests_history.len() {
        let h = m.requests_history[m.history_selected as int];
        AppModel {
            url_input: fresh_input(h.url, false),
            request_body_input: fresh_input(h.body, true),
            method: method_or_get(h.response.method),
            method_i: method_position(h.response.method),
            request_headers: header_inputs(h.headers),
            response: Some(h.response),
            body_scroll: 0,
            response_scroll: 0,
            sidebar_focused: false,
            ..m
        }
    } else {
        m
    }
}

/// Loading the highlighted saved request into the editors.
pub open spec fn saved_loaded(m: AppModel) -> AppModel {
    if m.saved_selected < m.saved_requests.len() {
        let s = m.saved_requests[m.saved_selected as int];
        AppModel {
            url_input: fresh_input(s.url, false),
            request_body_input: fresh_input(s.body, true),
            method: method_or_get(s.method),
            method_i: method_position(s.method),
            request_headers: header_inputs(s.headers),
            response: None,
            body_scroll: 0,
            response_scroll: 0,
            sidebar_focused: false,
            ..m
        }
    } else {
        m
    }
}

/// Saving the current request, named by its method and short URL, when it has a URL.
pub open spec fn current_saved(m: AppModel) -> (AppModel, EffectView) {
    let url = m.url_input.text;
    if url.len() == 0 {
        (m, EffectView::Nothing)
    } else {
        (AppModel {
            saved_requests: m.saved_requests.push(SavedView {
                name: m.method + seq![' '] + short_url(url),
                url,
                method: m.method,
                body: m.request_body_input.text,
                headers: named_headers(m.request_headers),
            }),
            selected_tab: 1,
            ..m
        }, EffectView::PersistSaved)
    }
}

/// Writing the shown response's body, as JSON, to a file.
pub open spec fn response_saved(m: AppModel) -> EffectView {
    match shown_response(m) {
        Some(r) => EffectView::SaveResponse(json_display(r.body)),
        None => EffectView::Nothing,
    }
}

pub open spec fn sample(name: Seq<char>, url: Seq<char>, method: Seq<char>, body: Seq<char>) -> SavedView {
    SavedView { name, url, method, body, headers: Seq::empty() }
}

/// The sample requests offered in the settings tab.
pub open spec fn sample_requests() -> Seq<SavedView> {
    seq![
        sample("GET dogs"@, "https://dogapi.dog/api/v2/breeds"@, "GET"@, Seq::empty()),
        sample("GET random dog fact"@, "https://dogapi.dog/api/v2/facts?limit=1"@, "GET"@, Seq::empty()),
        sample("GET todos"@, "https://jsonplaceholder.typicode.com/todos/1"@, "GET"@, Seq::empty()),
        sample("POST create post"@, "https://jsonplaceholder.typicode.com/posts"@, "POST"@,
            "{\n  \"title\": \"hello\",\n  \"body\": \"world\",\n  \"userId\": 1\n}"@),
        sample("PUT update post"@, "https://jsonplaceholder.typicode.com/posts/1"@, "PUT"@,
            "{\n  \"id\": 1,\n  \"title\": \"updated\",\n  \"body\": \"new body\",\n  \"userId\": 1\n}"@),
        sample("DELETE post"@, "https://jsonplaceholder.typicode.com/posts/1"@, "DELETE"@, Seq::empty()),
        sample("GET IP info"@, "https://httpbin.org/ip"@, "GET"@, Seq::empty()),
        sample("GET headers echo"@, "https://httpbin.org/headers"@, "GET"@, Seq::empty()),
    ]
}

pub open spec fn samples_loaded(m: AppModel) -> (AppModel, EffectView) {
    (AppModel { saved_requests: m.saved_requests + sample_requests(), selected_tab: 1, ..m },
        EffectView::PersistSaved)
}

/// The number of characters before position `n` on its line (counting at most
/// the whole text).
pub open spec fn back_run(text: Seq<char>, n: int) -> int {
    take_upto(text, n).len() - line_begin(text, n)
}

/// The number of characters from position `n` to the end of its line.
pub open spec fn forward_run(text: Seq<char>, n: int) -> int {
    if n < text.len() { next_newline(text, n) - n } else { 0 }
}

/// The response cursor after moving up a line.
pub open spec fn response_cursor_above(text: Seq<char>, cursor: usize) -> int {
    let col = back_run(text, cursor as int);
    let line_start = cursor - col;
    if line_start > 0 {
        let prev_end = line_start - 1;
        let prev_col = back_run(text, prev_end);
        prev_end - prev_col + min_int(col, prev_col)
    } else {
        cursor as int
    }
}

/// The response cursor after moving down a line.
pub open spec fn response_cursor_below(text: Seq<char>, cursor: usize) -> int {
    let col = back_run(text, cursor as int);
    let line_end = cursor + forward_run(text, cursor as int);
    if line_end < text.len() {
        let next_start = line_end + 1;
        next_start + min_int(col, forward_run(text, next_start))
    } else {
        cursor as int
    }
}

/// The response scroll after a key, before it follows the cursor.
pub open spec fn response_scroll_after(scroll: u16, k: KeyInput) -> u16 {
    match k.code {
        KeyCode::PageDown => sat_add(scroll, 2),
        KeyCode::PageUp => sat_sub(scroll, 2),
        _ => scroll,
    }
}

/// A scroll position that follows a cursor on line `row`, keeping it among
/// `window` visible lines.
pub open spec fn follow(scroll: u16, row: u16, window: u16) -> u16 {
    let s1 = if row < scroll { row } else { scroll };
    if row >= s1 + window { sat_sub(row, (window - 1) as u16) } else { s1 }
}

/// The anchor after a move: kept or set while shift is held, dropped otherwise.
pub open spec fn moved_anchor(anchor: Option<usize>, cursor: usize, shift: bool) -> Option<usize> {
    if shift && anchor is None {
        Some(cursor)
    } else if !shift {
        None
    } else {
        anchor
    }
}

/// What a key does while the response pane has the focus, before scrolling.
pub open spec fn response_move(m: AppModel, k: KeyInput) -> (AppModel, EffectView) {
    let text = response_text_of(m);
    let n = text.len() as usize;
    let c = m.response_cursor;
    let anchor = moved_anchor(m.response_selection_anchor, c, k.shift);
    match k.code {
        KeyCode::Esc => (AppModel { response_focused: false, response_selection_anchor: None, ..m }, EffectView::Nothing),
        KeyCode::Left => (AppModel { response_selection_anchor: anchor, response_cursor: dec(c), ..m }, EffectView::Nothing),
        KeyCode::Right => (AppModel {
            response_selection_anchor: anchor,
            response_cursor: if c + 1 < n { (c + 1) as usize } else { n },
            ..m
        }, EffectView::Nothing),
        KeyCode::Up => (AppModel {
            response_selection_anchor: anchor,
            response_cursor: response_cursor_above(text, c) as usize,
            ..m
        }, EffectView::Nothing),
        KeyCode::Down => (AppModel {
            response_selection_anchor: anchor,
            response_cursor: response_cursor_below(text, c) as usize,
            ..m
        }, EffectView::Nothing),
        KeyCode::PageDown => (AppModel { response_scroll: sat_add(m.response_scroll, 2), ..m }, EffectView::Nothing),
        KeyCode::PageUp => (AppModel { response_scroll: sat_sub(m.response_scroll, 2), ..m }, EffectView::Nothing),
        KeyCode::Home => (AppModel { response_selection_anchor: anchor, response_cursor: 0, ..m }, EffectView::Nothing),
        KeyCode::End => (AppModel { response_selection_anchor: anchor, response_cursor: n, ..m }, EffectView::Nothing),
        KeyCode::Char(ch) => if ch == 'c' && k.ctrl {
            match m.response_selection_anchor {
                Some(a) => {
                    let start = if a <= c { a } else { c };
                    let end = if a <= c { c } else { a };
                    if start != end {
                        (m, EffectView::CopyText(take_upto(skip_from(text, start as int), end - start)))
                    } else {
                        (m, EffectView::Nothing)
                    }
                },
                None => (m, EffectView::Nothing),
            }
        } else if ch == 'a' && k.ctrl {
            (AppModel { response_selection_anchor: Some(0), response_cursor: n, ..m }, EffectView::Nothing)
        } else {
            (m, EffectView::Nothing)
        },
        _ => (m, EffectView::Nothing),
    }
}

/// What a key does while the response pane has the focus: the move, then the
/// scroll follows the cursor within 20 lines.
pub open spec fn response_key(m: AppModel, k: KeyInput) -> (AppModel, EffectView) {
    let (m1, e) = response_move(m, k);
    let row = newlines(take_upto(response_text_of(m1), m1.response_cursor as int)) as u16;
    (AppModel { response_scroll: follow(m1.response_scroll, row, 20), ..m1 }, e)
}

/// What a key does while the URL editor has the focus.
pub open spec fn url_key(m: AppModel, k: KeyInput) -> (AppModel, EffectView) {
    match k.code {
        KeyCode::Esc => if m.show_suggestions {
            (AppModel { show_suggestions: false, ..m }, EffectView::Nothing)
        } else {
            (AppModel { url_input: InputModel { focused: false, ..m.url_input }, ..m }, EffectView::Nothing)
        },
        KeyCode::Tab if m.show_suggestions => (suggestion_accepted(m), EffectView::Nothing),
        KeyCode::Down if m.show_suggestions && m.url_suggestions.len() > 0 => {
            let next = m.url_suggestion_selected + 1;
            let last = m.url_suggestions.len() - 1;
            (AppModel { url_suggestion_selected: (if next < last { next } else { last }) as usize, ..m }, EffectView::Nothing)
        },
        KeyCode::Up if m.show_suggestions => (AppModel { url_suggestion_selected: dec(m.url_suggestion_selected), ..m }, EffectView::Nothing),
        _ => {
            let (u, submitted) = key_step(m.url_input, k);
            let m1 = AppModel { url_input: u, ..m };
            if submitted {
                let m2 = AppModel { show_suggestions: false, ..m1 };
                if u.text.len() > 0 { send(m2, u.text) } else { (m2, EffectView::Nothing) }
            } else {
                (suggested(m1), EffectView::Nothing)
            }
        },
    }
}

/// The body editor after a key other than Esc and the page keys.
pub open spec fn body_edited(m: AppModel, k: KeyInput) -> AppModel {
    let b = key_step(m.request_body_input, k).0;
    let row = newlines(take_upto(b.text, b.cursor as int)) as u16;
    AppModel { request_body_input: b, body_scroll: follow(m.body_scroll, row, 10), ..m }
}

/// What a key does while the body editor has the focus.
pub open spec fn body_key(m: AppModel, k: KeyInput) -> (AppModel, EffectView) {
    match k.code {
        KeyCode::Esc => (AppModel { request_body_input: InputModel { focused: false, ..m.request_body_input }, ..m }, EffectView::Nothing),
        KeyCode::PageDown => (AppModel { body_scroll: sat_add(m.body_scroll, 2), ..m }, EffectView::Nothing),
        KeyCode::PageUp => (AppModel { body_scroll: sat_sub(m.body_scroll, 2), ..m }, EffectView::Nothing),
        _ => (body_edited(m, k), EffectView::Nothing),
    }
}

pub open spec fn blurred(i: InputModel) -> InputModel {
    InputModel { focused: false, ..i }
}

pub open spec fn focused(i: InputModel) -> InputModel {
    InputModel { focused: true, ..i }
}

/// Whether the highlighted header pair has an editor with the focus.
pub open spec fn header_editing(m: AppModel) -> bool {
    m.headers_selected < m.request_headers.len() && {
        let p = m.request_headers[m.headers_selected as int];
        p.0.focused || p.1.focused
    }
}

/// The header pairs with the highlighted pair's editors blurred.
pub open spec fn selected_blurred(m: AppModel) -> Seq<(InputModel, InputModel)> {
    if m.headers_selected < m.request_headers.len() {
        let p = m.request_headers[m.headers_selected as int];
        m.request_headers.update(m.headers_selected as int, (blurred(p.0), blurred(p.1)))
    } else {
        m.request_headers
    }
}

/// Switching between the key and the value of the highlighted header pair.
pub open spec fn header_field_switched(m: AppModel) -> AppModel {
    let hs = m.request_headers;
    let i = m.headers_selected;
    if i < hs.len() {
        let p = hs[i as int];
        if m.header_field == 0 {
            AppModel { request_headers: hs.update(i as int, (blurred(p.0), focused(p.1))), header_field: 1, ..m }
        } else {
            AppModel { request_headers: hs.update(i as int, (focused(p.0), blurred(p.1))), header_field: 0, ..m }
        }
    } else {
        m
    }
}

/// A new, empty header pair, highlighted, its key editor focused.
pub open spec fn header_added(m: AppModel) -> AppModel {
    AppModel {
        request_headers: m.request_headers.push((focused(fresh_input(Seq::empty(), false)), fresh_input(Seq::empty(), false))),
        headers_selected: m.request_headers.len() as usize,
        header_field: 0,
        ..m
    }
}

/// The highlighted header pair removed.
pub open spec fn header_deleted(m: AppModel) -> AppModel {
    let i = m.headers_selected;
    if m.request_headers.len() > 0 {
        let left = m.request_headers.remove(i as int);
        AppModel {
            request_headers: left,
            headers_selected: if i > 0 && i >= left.len() { (i - 1) as usize } else { i },
            ..m
        }
    } else {
        m
    }
}

/// Focusing the selected field of the highlighted header pair, when neither
/// of its editors has the focus.
pub open spec fn header_entered(m: AppModel) -> AppModel {
    let hs = m.request_headers;
    let i = m.headers_selected;
    if i < hs.len() && !hs[i as int].0.focused && !hs[i as int].1.focused {
        let p = hs[i as int];
        if m.header_field == 0 {
            AppModel { request_headers: hs.update(i as int, (focused(p.0), p.1)), ..m }
        } else {
            AppModel { request_headers: hs.update(i as int, (p.0, focused(p.1))), ..m }
        }
    } else {
        m
    }
}

/// A key passed on to the focused editor of the highlighted header pair.
pub open spec fn header_typed(m: AppModel, k: KeyInput) -> AppModel {
    let hs = m.request_headers;
    let i = m.headers_selected;
    if i < hs.len() {
        let p = hs[i as int];
        if p.0.focused {
            AppModel { request_headers: hs.update(i as int, (key_step(p.0, k).0, p.1)), ..m }
        } else if p.1.focused {
            AppModel { request_headers: hs.update(i as int, (p.0, key_step(p.1, k).0)), ..m }
        } else {
            m
        }
    } else {
        m
    }
}

/// What a key does while the headers are being edited.
pub open spec fn headers_key(m: AppModel, k: KeyInput) -> (AppModel, EffectView) {
    let n = m.request_headers.len();
    let i = m.headers_selected;
    let next = match k.code {
        KeyCode::Esc => AppModel {
            request_headers: m.request_headers.map_values(|p: (InputModel, InputModel)| (blurred(p.0), blurred(p.1))),
            headers_focused: false,
            ..m
        },
        KeyCode::Up => AppModel { request_headers: selected_blurred(m), headers_selected: dec(i), ..m },
        KeyCode::Down => AppModel {
            request_headers: selected_blurred(m),
            headers_selected: if n > 0 { (if i + 1 < n - 1 { i + 1 } else { n - 1 }) as usize } else { i },
            ..m
        },
        KeyCode::Tab => header_field_switched(m),
        KeyCode::Char(c) if c == 'a' && !header_editing(m) => header_added(m),
        KeyCode::Char(c) if c == 'd' && !header_editing(m) => header_deleted(m),
        KeyCode::Enter => header_entered(m),
        _ => header_typed(m, k),
    };
    (next, EffectView::Nothing)
}

/// The highlighted index after the entry at `sel` is removed from a list that
/// now has `len` entries.
pub open spec fn after_removal(sel: usize, len: nat) -> usize {
    if sel > 0 && sel >= len { (sel - 1) as usize } else { sel }
}

/// What a key does while the sidebar has the focus.
pub open spec fn sidebar_key(m: AppModel, k: KeyInput) -> (AppModel, EffectView) {
    let tab = m.selected_tab;
    match k.code {
        KeyCode::Esc => (AppModel { sidebar_focused: false, ..m }, EffectView::Nothing),
        KeyCode::Tab => (AppModel { selected_tab: ((tab + 1) % 3) as usize, ..m }, EffectView::Nothing),
        KeyCode::BackTab => (AppModel { selected_tab: ((tab + 2) % 3) as usize, ..m }, EffectView::Nothing),
        KeyCode::Up => if tab == 0 {
            (AppModel { history_selected: dec(m.history_selected), ..m }, EffectView::Nothing)
        } else if tab == 1 {
            (AppModel { saved_selected: dec(m.saved_selected), ..m }, EffectView::Nothing)
        } else {
            (m, EffectView::Nothing)
        },
        KeyCode::Down => if tab == 0 {
            let n = m.requests_history.len();
            if n > 0 {
                let next = m.history_selected + 1;
                (AppModel { history_selected: (if next < n - 1 { next } else { n - 1 }) as usize, ..m }, EffectView::Nothing)
            } else {
                (m, EffectView::Nothing)
            }
        } else if tab == 1 {
            let n = m.saved_requests.len();
            if n > 0 {
                let next = m.saved_selected + 1;
                (AppModel { saved_selected: (if next < n - 1 { next } else { n - 1 }) as usize, ..m }, EffectView::Nothing)
            } else {
                (m, EffectView::Nothing)
            }
        } else {
            (m, EffectView::Nothing)
        },
        KeyCode::Enter => if tab == 0 {
            (history_loaded(m), EffectView::Nothing)
        } else if tab == 1 {
            (saved_loaded(m), EffectView::Nothing)
        } else if tab == 2 {
            samples_loaded(m)
        } else {
            (m, EffectView::Nothing)
        },
        KeyCode::Char('r') => (m, response_saved(m)),
        KeyCode::Char('q') => (AppModel { exit: true, ..m }, EffectView::Nothing),
        KeyCode::Delete | KeyCode::Char('d') => if tab == 0 {
            if m.requests_history.len() > 0 {
                let left = m.requests_history.remove(m.history_selected as int);
                (AppModel { requests_history: left, history_selected: after_removal(m.history_selected, left.len()), ..m }, EffectView::Nothing)
            } else {
                (m, EffectView::Nothing)
            }
        } else if tab == 1 {
            if m.saved_requests.len() > 0 {
                let left = m.saved_requests.remove(m.saved_selected as int);
                (AppModel { saved_requests: left, saved_selected: after_removal(m.saved_selected, left.len()), ..m }, EffectView::PersistSaved)
            } else {
                (m, EffectView::Nothing)
            }
        } else {
            (m, EffectView::Nothing)
        },
        _ => (m, EffectView::Nothing),
    }
}

/// What a key does when no pane has the focus.
pub open spec fn normal_key(m: AppModel, k: KeyInput) -> (AppModel, EffectView) {
    match k.code {
        KeyCode::Char('q') => (AppModel { exit: true, ..m }, EffectView::Nothing),
        KeyCode::Char('u') => (AppModel {
            request_body_input: blurred(m.request_body_input),
            url_input: focused(m.url_input),
            ..m
        }, EffectView::Nothing),
        KeyCode::Char('b') => (AppModel {
            url_input: blurred(m.url_input),
            request_body_input: focused(m.request_body_input),
            ..m
        }, EffectView::Nothing),
        KeyCode::Char('r') => (m, response_saved(m)),
        KeyCode::Char('t') => (AppModel { show_response_headers: !m.show_response_headers, response_scroll: 0, ..m }, EffectView::Nothing),
        KeyCode::Char('f') => if m.response is Some {
            (AppModel { response_focused: true, response_cursor: 0, response_selection_anchor: None, ..m }, EffectView::Nothing)
        } else {
            (m, EffectView::Nothing)
        },
        KeyCode::Char('e') => if m.request_headers.len() == 0 {
            (AppModel {
                headers_focused: true,
                request_headers: seq![(focused(fresh_input(Seq::empty(), false)), fresh_input(Seq::empty(), false))],
                headers_selected: 0,
                header_field: 0,
                ..m
            }, EffectView::Nothing)
        } else {
            (AppModel { headers_focused: true, ..m }, EffectView::Nothing)
        },
        KeyCode::Char('s') => (AppModel { sidebar_focused: true, ..m }, EffectView::Nothing),
        KeyCode::Char('w') => current_saved(m),
        KeyCode::Tab => (AppModel { selected_tab: ((m.selected_tab + 1) % 3) as usize, ..m }, EffectView::Nothing),
        KeyCode::BackTab => (AppModel { selected_tab: ((m.selected_tab + 2) % 3) as usize, ..m }, EffectView::Nothing),
        KeyCode::Char('m') => (method_switched(m, true), EffectView::Nothing),
        KeyCode::Char('n') => (method_switched(m, false), EffectView::Nothing),
        KeyCode::Char('h') => (AppModel { help_window: !m.help_window, ..m }, EffectView::Nothing),
        KeyCode::Char('c') => if m.selected_tab == 0 {
            (AppModel { requests_history: Seq::empty(), history_selected: 0, ..m }, EffectView::Nothing)
        } else {
            (m, EffectView::Nothing)
        },
        KeyCode::Right => if m.left_section_w < 100 {
            (AppModel { left_section_w: (m.left_section_w + 1) as u16, ..m }, EffectView::Nothing)
        } else {
            (m, EffectView::Nothing)
        },
        KeyCode::Left => if m.left_section_w > 0 {
            (AppModel { left_section_w: (m.left_section_w - 1) as u16, ..m }, EffectView::Nothing)
        } else {
            (m, EffectView::Nothing)
        },
        KeyCode::Down => if m.top_section_h < 100 {
            (AppModel { top_section_h: (m.top_section_h + 5) as u16, ..m }, EffectView::Nothing)
        } else {
            (m, EffectView::Nothing)
        },
        KeyCode::Up => if m.top_section_h > 0 {
            (AppModel { top_section_h: (m.top_section_h - 5) as u16, ..m }, EffectView::Nothing)
        } else {
            (m, EffectView::Nothing)
        },
        KeyCode::PageDown => (AppModel { response_scroll: sat_add(m.response_scroll, 2), ..m }, EffectView::Nothing),
        KeyCode::PageUp => (AppModel { response_scroll: sat_sub(m.response_scroll, 2), ..m }, EffectView::Nothing),
        KeyCode::Enter => if m.url_input.text.len() > 0 {
            send(m, m.url_input.text)
        } else {
            (m, EffectView::Nothing)
        },
        _ => (m, EffectView::Nothing),
    }
}

/// What a key press does to the client, by which part has the focus.
pub open spec fn app_step(m: AppModel, k: KeyInput) -> (AppModel, EffectView) {
    if m.response_focused {
        response_key(m, k)
    } else if m.url_input.focused {
        url_key(m, k)
    } else if m.request_body_input.focused {
        body_key(m, k)
    } else if m.headers_focused {
        headers_key(m, k)
    } else if m.sidebar_focused {
        sidebar_key(m, k)
    } else {
        normal_key(m, k)
    }
}

/// The keys that the client handles without an arithmetic overflow or an
/// out-of-range removal (on which it would panic).
pub open spec fn step_allowed(m: AppModel, k: KeyInput) -> bool {
    if m.response_focused {
        &&& k.code == KeyCode::Right ==> m.response_cursor < usize::MAX
        &&& {
            let m1 = response_move(m, k).0;
            let row = newlines(take_upto(response_text_of(m1), m1.response_cursor as int)) as u16;
            (if row < m1.response_scroll { row } else { m1.response_scroll }) + 20 <= u16::MAX
        }
    } else if m.url_input.focused {
        &&& (k.code == KeyCode::Down && m.show_suggestions && m.url_suggestions.len() > 0)
            ==> m.url_suggestion_selected < usize::MAX
        &&& k.code == KeyCode::Right ==> m.url_input.cursor < usize::MAX
    } else if m.request_body_input.focused {
        &&& k.code == KeyCode::Right ==> m.request_body_input.cursor < usize::MAX
        &&& (k.code != KeyCode::Esc && k.code != KeyCode::PageDown && k.code != KeyCode::PageUp) ==> {
            let b = key_step(m.request_body_input, k).0;
            let row = newlines(take_upto(b.text, b.cursor as int)) as u16;
            row < m.body_scroll || m.body_scroll + 10 <= u16::MAX
        }
    } else if m.headers_focused {
        &&& (k.code == KeyCode::Down && m.request_headers.len() > 0) ==> m.headers_selected < usize::MAX
        &&& (k.code == KeyCode::Char('d') && !header_editing(m) && m.request_headers.len() > 0)
            ==> m.headers_selected < m.request_headers.len()
        &&& (k.code == KeyCode::Right && m.headers_selected < m.request_headers.len()) ==> {
            let p = m.request_headers[m.headers_selected as int];
            &&& p.0.focused ==> p.0.cursor < usize::MAX
            &&& (!p.0.focused && p.1.focused) ==> p.1.cursor < usize::MAX
        }
    } else if m.sidebar_focused {
        &&& k.code == KeyCode::Tab ==> m.selected_tab < usize::MAX
        &&& k.code == KeyCode::BackTab ==> m.selected_tab < usize::MAX - 1
        &&& (k.code == KeyCode::Down && m.selected_tab == 0 && m.requests_history.len() > 0) ==> m.history_selected < usize::MAX
        &&& (k.code == KeyCode::Down && m.selected_tab == 1 && m.saved_requests.len() > 0) ==> m.saved_selected < usize::MAX
        &&& ((k.code == KeyCode::Delete || k.code == KeyCode::Char('d')) && m.selected_tab == 0 && m.requests_history.len() > 0)
            ==> m.history_selected < m.requests_history.len()
        &&& ((k.code == KeyCode::Delete || k.code == KeyCode::Char('d')) && m.selected_tab == 1 && m.saved_requests.len() > 0)
            ==> m.saved_selected < m.saved_requests.len()
    } else {
        &&& k.code == KeyCode::Tab ==> m.selected_tab < usize::MAX
        &&& k.code == KeyCode::BackTab ==> m.selected_tab < usize::MAX - 1
        &&& (k.code == KeyCode::Up && m.top_section_h > 0) ==> m.top_section_h >= 5
        &&& k.code == KeyCode::Char('n') ==> m.method_i <= 5
    }
}

} // verus!
