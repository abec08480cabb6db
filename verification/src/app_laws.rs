//! Properties of the client that span several operations.
use vstd::prelude::*;
use crate::chars::{
    contains_text,
    str_lowercase,
    take_upto,
    last_index_of,
    lemma_last_index_of_bounds,
};
use crate::keys::{KeyCode, KeyInput};
use crate::request::{
    method_name,
    method_or_get,
    law_cycled_methods_are_valid,
    short_url,
    METHOD_COUNT,
};
use crate::app_model::{
    AppModel,
    app_step,
    method_switched,
    next_method_index,
    first_matches,
    suggested,
    candidate_urls,
    named_headers,
    current_saved,
    saved_loaded,
    plan_for,
    completed,
    sidebar_key,
    normal_key,
    response_key,
    response_move,
    url_key,
    body_key,
    headers_key,
    send,
    response_text_of,
    header_inputs,
    header_editing,
    preview_of,
    EffectView,
};
use crate::chars::skip_from;
use crate::text_input::{InputModel, key_step, lemma_line_begin_at, lemma_next_newline_at};
use crate::request::ResponseView;

verus! {

/// Switching the method forwards and then backwards gives back the method
/// index, and the method is then the one listed at that index.
pub proof fn law_method_switch_round_trip(m: AppModel)
    requires
        m.method_i < METHOD_COUNT,
    ensures
        method_switched(method_switched(m, true), false).method_i == m.method_i,
        method_switched(method_switched(m, false), true).method_i == m.method_i,
        method_switched(method_switched(m, true), false).method == method_name(m.method_i as int),
{
    law_cycled_methods_are_valid(m.method_i as int);
}

/// Switching the method always lands on one of the listed methods.
pub proof fn law_method_switch_lands_on_listed(m: AppModel, forwards: bool)
    requires
        forwards || m.method_i <= 5,
    ensures
        method_switched(m, forwards).method_i < METHOD_COUNT,
        method_switched(m, forwards).method == method_name(method_switched(m, forwards).method_i as int),
{
    law_cycled_methods_are_valid(next_method_index(m.method_i, forwards) as int);
}

/// The highlighted history and saved entries are within their lists (or at 0
/// when a list is empty).
pub open spec fn selections_in_range(m: AppModel) -> bool {
    &&& (m.history_selected < m.requests_history.len() || m.history_selected == 0)
    &&& (m.saved_selected < m.saved_requests.len() || m.saved_selected == 0)
}

proof fn lemma_sidebar_keeps_selections(m: AppModel, k: KeyInput)
    requires
        selections_in_range(m),
    ensures
        selections_in_range(sidebar_key(m, k).0),
{
    match k.code {
        KeyCode::Enter => {
            if m.selected_tab == 2 {
                assert(selections_in_range(sidebar_key(m, k).0));
            }
        },
        _ => {},
    }
}

proof fn lemma_normal_keeps_selections(m: AppModel, k: KeyInput)
    requires
        selections_in_range(m),
    ensures
        selections_in_range(normal_key(m, k).0),
{
}

proof fn lemma_url_keeps_selections(m: AppModel, k: KeyInput)
    requires
        selections_in_range(m),
    ensures
        selections_in_range(url_key(m, k).0),
{
}

proof fn lemma_response_move_frame(m: AppModel, k: KeyInput)
    ensures
        response_move(m, k).0.requests_history == m.requests_history,
        response_move(m, k).0.saved_requests == m.saved_requests,
        response_move(m, k).0.history_selected == m.history_selected,
        response_move(m, k).0.saved_selected == m.saved_selected,
{
}

proof fn lemma_response_keeps_selections(m: AppModel, k: KeyInput)
    requires
        selections_in_range(m),
    ensures
        selections_in_range(response_key(m, k).0),
{
    lemma_response_move_frame(m, k);
}

proof fn lemma_body_keeps_selections(m: AppModel, k: KeyInput)
    requires
        selections_in_range(m),
    ensures
        selections_in_range(body_key(m, k).0),
{
}

proof fn lemma_headers_keeps_selections(m: AppModel, k: KeyInput)
    requires
        selections_in_range(m),
    ensures
        selections_in_range(headers_key(m, k).0),
{
}

/// Every key press keeps the highlighted history and saved entries within their lists.
pub proof fn law_key_keeps_selections_in_range(m: AppModel, k: KeyInput)
    requires
        selections_in_range(m),
    ensures
        selections_in_range(app_step(m, k).0),
{
    if m.response_focused {
        lemma_response_keeps_selections(m, k);
    } else if m.url_input.focused {
        lemma_url_keeps_selections(m, k);
    } else if m.request_body_input.focused {
        lemma_body_keeps_selections(m, k);
    } else if m.headers_focused {
        lemma_headers_keeps_selections(m, k);
    } else if m.sidebar_focused {
        lemma_sidebar_keeps_selections(m, k);
    } else {
        lemma_normal_keeps_selections(m, k);
    }
}

/// A completed request keeps the highlighted entries within their lists.
pub proof fn law_completion_keeps_selections_in_range(m: AppModel, r: ResponseView, time: Seq<char>)
    requires
        selections_in_range(m),
    ensures
        selections_in_range(completed(m, r, time)),
{
}

/// A completed request is shown, and recorded last in the history with the
/// URL, body and named headers that were being edited.
pub proof fn law_completed_request_is_recorded(m: AppModel, r: ResponseView, time: Seq<char>)
    ensures
        completed(m, r, time).response == Some(r),
        !completed(m, r, time).loading,
        completed(m, r, time).requests_history.len() == m.requests_history.len() + 1,
        completed(m, r, time).requests_history.last().url == m.url_input.text,
        completed(m, r, time).requests_history.last().body == m.request_body_input.text,
        completed(m, r, time).requests_history.last().response == r,
        completed(m, r, time).requests_history.last().headers == named_headers(m.request_headers),
{
}

/// Only non-GET requests carry a body, and then only a non-empty one.
pub proof fn law_get_sends_no_body(m: AppModel, url: Seq<char>)
    ensures
        plan_for(m, url).body matches Some(b) ==> m.method != "GET"@ && b.len() > 0,
        m.method == "GET"@ ==> plan_for(m, url).body is None,
{
}

/// Every header that is sent has a non-empty key.
pub proof fn law_sent_headers_have_keys(hs: Seq<(crate::text_input::InputModel, crate::text_input::InputModel)>)
    ensures
        forall|i: int| 0 <= i < named_headers(hs).len() ==> (#[trigger] named_headers(hs)[i]).0.len() > 0,
    decreases hs.len(),
{
    if hs.len() > 0 {
        law_sent_headers_have_keys(hs.drop_last());
        let rest = named_headers(hs.drop_last());
        assert forall|i: int| 0 <= i < named_headers(hs).len() implies (#[trigger] named_headers(hs)[i]).0.len() > 0 by {
            if i < rest.len() {
                assert(named_headers(hs)[i] == rest[i]);
            }
        }
    }
}

proof fn lemma_first_matches(urls: Seq<Seq<char>>, q: Seq<char>)
    ensures
        forall|i: int| 0 <= i < first_matches(urls, q).len() ==> contains_text(str_lowercase(#[trigger] first_matches(urls, q)[i]), q),
        forall|i: int, j: int| 0 <= i < j < first_matches(urls, q).len() ==> first_matches(urls, q)[i] != first_matches(urls, q)[j],
        forall|i: int| 0 <= i < first_matches(urls, q).len() ==> urls.contains(#[trigger] first_matches(urls, q)[i]),
    decreases urls.len(),
{
    if urls.len() > 0 {
        let d = first_matches(urls.drop_last(), q);
        lemma_first_matches(urls.drop_last(), q);
        assert forall|i: int| 0 <= i < d.len() implies urls.contains(#[trigger] d[i]) by {
            let j = choose|j: int| 0 <= j < urls.drop_last().len() && urls.drop_last()[j] == d[i];
            assert(urls[j] == d[i]);
        }
        assert(urls[urls.len() - 1] == urls.last());
    }
}

/// Every URL suggestion holds the lowercased input in its lowercase form,
/// comes from the history or the saved requests, and is offered once.
pub proof fn law_suggestions_match_and_are_distinct(m: AppModel)
    ensures
        ({
            let s = suggested(m).url_suggestions;
            &&& forall|i: int| 0 <= i < s.len() ==> contains_text(str_lowercase(#[trigger] s[i]), str_lowercase(m.url_input.text))
            &&& forall|i: int, j: int| 0 <= i < j < s.len() ==> s[i] != s[j]
            &&& forall|i: int| 0 <= i < s.len() ==> candidate_urls(m).contains(#[trigger] s[i])
            &&& suggested(m).show_suggestions == (s.len() > 0)
        }),
{
    lemma_first_matches(candidate_urls(m), str_lowercase(m.url_input.text));
}

/// A request that is saved and then loaded from the saved list comes back
/// with the same URL and body, and the method it was saved with.
pub proof fn law_save_then_load_round_trip(m: AppModel)
    requires
        m.url_input.text.len() > 0,
        m.saved_requests.len() < usize::MAX,
    ensures
        ({
            let saved = current_saved(m).0;
            let chosen = AppModel { saved_selected: (saved.saved_requests.len() - 1) as usize, ..saved };
            let loaded = saved_loaded(chosen);
            &&& loaded.url_input.text == m.url_input.text
            &&& loaded.request_body_input.text == m.request_body_input.text
            &&& loaded.method == method_or_get(m.method)
            &&& loaded.response is None
        }),
{
}

/// Tab three times, or Tab then BackTab, comes back to the same sidebar tab.
pub proof fn law_tab_cycle(t: usize)
    requires
        t < 3,
    ensures
        ((((t + 1) % 3) + 1) % 3 + 1) % 3 == t,
        (((t + 1) % 3) + 2) % 3 == t,
{
}

/// The short form of a URL is a suffix of it.
pub proof fn law_short_url_is_suffix(s: Seq<char>)
    ensures
        short_url(s).len() <= s.len(),
        short_url(s) == s.skip(s.len() - short_url(s).len()),
{
    lemma_last_index_of_bounds(s, '/');
    let p = last_index_of(s, '/');
    lemma_last_index_of_bounds(take_upto(s, p), '/');
    let p2 = last_index_of(take_upto(s, p), '/');
    if p >= 0 && p2 >= 0 {
        assert(short_url(s) =~= s.skip(s.len() - short_url(s).len()));
    } else {
        assert(s.skip(0) =~= s);
    }
}

/// Ctrl+C in the response pane, with a non-empty selection, copies exactly the
/// characters between the selection's two ends (as far as the text reaches),
/// and leaves the cursor and the selection where they were.
pub proof fn law_copy_takes_the_selection(m: AppModel, a: usize, k: KeyInput)
    requires
        m.response_focused,
        m.response_selection_anchor == Some(a),
        a != m.response_cursor,
        k.code == KeyCode::Char('c'),
        k.ctrl,
    ensures
        ({
            let t = response_text_of(m);
            let s: int = if a < m.response_cursor { a as int } else { m.response_cursor as int };
            let e: int = if a < m.response_cursor { m.response_cursor as int } else { a as int };
            let lo: int = if s < t.len() { s } else { t.len() as int };
            let hi: int = if e < t.len() { e } else { t.len() as int };
            let r = app_step(m, k);
            &&& r.1 == EffectView::CopyText(t.subrange(lo, hi))
            &&& (e <= t.len() ==> t.subrange(lo, hi).len() == e - s)
            &&& r.0.response_cursor == m.response_cursor
            &&& r.0.response_selection_anchor == Some(a)
            &&& r.0.response_focused
        }),
{
    let t = response_text_of(m);
    let s: int = if a < m.response_cursor { a as int } else { m.response_cursor as int };
    let e: int = if a < m.response_cursor { m.response_cursor as int } else { a as int };
    let lo: int = if s < t.len() { s } else { t.len() as int };
    let hi: int = if e < t.len() { e } else { t.len() as int };
    assert(take_upto(skip_from(t, s), e - s) =~= t.subrange(lo, hi));
}

/// Enter in the URL field sends the request: the chosen method, the URL as
/// typed, and, for every method other than GET, the body when it is not
/// empty; GET, or an empty body, sends no body. The client then waits for
/// the response.
pub proof fn law_enter_sends_method_url_and_body(m: AppModel, k: KeyInput)
    requires
        !m.response_focused,
        m.url_input.focused,
        !m.url_input.multiline,
        m.url_input.text.len() > 0,
        k.code == KeyCode::Enter,
    ensures
        ({
            let r = app_step(m, k);
            let body = m.request_body_input.text;
            &&& r.1 matches EffectView::Send(p) && {
                &&& p.method == m.method
                &&& p.url == m.url_input.text
                &&& (m.method != "GET"@ && body.len() > 0 ==> p.body == Some(body))
                &&& (m.method == "GET"@ || body.len() == 0 ==> p.body is None)
            }
            &&& r.0.loading
            &&& r.0.response is None
        }),
{
}

/// Whatever the URL, a request goes out with the chosen method, that URL, and
/// its body for every method other than GET when the body is not empty.
pub proof fn law_send_carries_the_body(m: AppModel, url: Seq<char>)
    ensures
        send(m, url).1 matches EffectView::Send(p) && {
            &&& p.method == m.method
            &&& p.url == url
            &&& (m.method != "GET"@ && m.request_body_input.text.len() > 0 ==> p.body == Some(m.request_body_input.text))
            &&& (m.method == "GET"@ || m.request_body_input.text.len() == 0 ==> p.body is None)
        },
{
}

/// The headers that are kept of the edited ones: each has a non-empty key and
/// is one of the edited pairs; each edited pair with a non-empty key is among
/// them; and when no key is empty they are all the edited pairs, in order.
proof fn lemma_named_headers(hs: Seq<(InputModel, InputModel)>)
    ensures
        forall|j: int| 0 <= j < named_headers(hs).len() ==> (#[trigger] named_headers(hs)[j]).0.len() > 0,
        forall|j: int| 0 <= j < named_headers(hs).len() ==> exists|i: int| 0 <= i < hs.len()
            && #[trigger] named_headers(hs)[j] == (hs[i].0.text, hs[i].1.text),
        forall|i: int| 0 <= i < hs.len() && (#[trigger] hs[i]).0.text.len() > 0
            ==> named_headers(hs).contains((hs[i].0.text, hs[i].1.text)),
        (forall|i: int| 0 <= i < hs.len() ==> (#[trigger] hs[i]).0.text.len() > 0) ==>
            named_headers(hs) == hs.map_values(|p: (InputModel, InputModel)| (p.0.text, p.1.text)),
    decreases hs.len(),
{
    law_sent_headers_have_keys(hs);
    if hs.len() > 0 {
        let d = hs.drop_last();
        lemma_named_headers(d);
        let rest = named_headers(d);
        let n = named_headers(hs);
        let x = (hs.last().0.text, hs.last().1.text);
        assert forall|j: int| 0 <= j < n.len() implies exists|i: int| 0 <= i < hs.len()
            && #[trigger] n[j] == (hs[i].0.text, hs[i].1.text) by {
            if j < rest.len() {
                assert(n[j] == rest[j]);
                let i = choose|i: int| 0 <= i < d.len() && rest[j] == (d[i].0.text, d[i].1.text);
                assert(hs[i] == d[i]);
            } else {
                assert(n[j] == x);
                assert(hs[hs.len() - 1] == hs.last());
            }
        }
        assert forall|i: int| 0 <= i < hs.len() && (#[trigger] hs[i]).0.text.len() > 0
            implies n.contains((hs[i].0.text, hs[i].1.text)) by {
            if i < hs.len() - 1 {
                assert(d[i] == hs[i]);
                assert(rest.contains((d[i].0.text, d[i].1.text)));
                let j = choose|j: int| 0 <= j < rest.len() && rest[j] == (d[i].0.text, d[i].1.text);
                assert(n[j] == rest[j]);
            } else {
                assert(hs[i] == hs.last());
                assert(n[n.len() - 1] == x);
            }
        }
        if forall|i: int| 0 <= i < hs.len() ==> (#[trigger] hs[i]).0.text.len() > 0 {
            assert forall|i: int| 0 <= i < d.len() implies (#[trigger] d[i]).0.text.len() > 0 by {
                assert(d[i] == hs[i]);
            }
            assert(hs[hs.len() - 1] == hs.last());
            assert(n =~= hs.map_values(|p: (InputModel, InputModel)| (p.0.text, p.1.text)));
        }
    } else {
        assert(named_headers(hs) =~= hs.map_values(|p: (InputModel, InputModel)| (p.0.text, p.1.text)));
    }
}

/// Saving the current request appends one entry to the saved list and keeps
/// the others. The entry holds the URL, method and body being edited, and
/// the edited headers that have a non-empty key: every one of them, nothing
/// else, all of them in order when no key is empty, and the same headers a
/// request sent now would carry. Loading that entry back gives those headers
/// to the header editors.
pub proof fn law_save_keeps_the_headers(m: AppModel)
    requires
        m.url_input.text.len() > 0,
        m.saved_requests.len() < usize::MAX,
    ensures
        ({
            let hs = m.request_headers;
            let saved = current_saved(m).0;
            let list = saved.saved_requests;
            let h = list.last().headers;
            let chosen = AppModel { saved_selected: (list.len() - 1) as usize, ..saved };
            let loaded = saved_loaded(chosen).request_headers;
            &&& list.len() == m.saved_requests.len() + 1
            &&& list.drop_last() == m.saved_requests
            &&& list.last().url == m.url_input.text
            &&& list.last().method == m.method
            &&& list.last().body == m.request_body_input.text
            &&& h == plan_for(m, m.url_input.text).headers
            &&& forall|j: int| 0 <= j < h.len() ==> (#[trigger] h[j]).0.len() > 0
            &&& forall|j: int| 0 <= j < h.len() ==> exists|i: int| 0 <= i < hs.len()
                && #[trigger] h[j] == (hs[i].0.text, hs[i].1.text)
            &&& forall|i: int| 0 <= i < hs.len() && (#[trigger] hs[i]).0.text.len() > 0
                ==> h.contains((hs[i].0.text, hs[i].1.text))
            &&& (forall|i: int| 0 <= i < hs.len() ==> (#[trigger] hs[i]).0.text.len() > 0) ==>
                h == hs.map_values(|p: (InputModel, InputModel)| (p.0.text, p.1.text))
            &&& loaded.len() == h.len()
            &&& forall|j: int| 0 <= j < h.len() ==> (#[trigger] loaded[j]).0.text == h[j].0 && loaded[j].1.text == h[j].1
        }),
{
    lemma_named_headers(m.request_headers);
    let saved = current_saved(m).0;
    assert(saved.saved_requests.drop_last() =~= m.saved_requests);
}

/// Delete (or d) on the history tab removes exactly the highlighted entry:
/// the entries before it stay where they were, those after it move up by
/// one, and the saved list is untouched.
pub proof fn law_delete_removes_the_highlighted_history_entry(m: AppModel, k: KeyInput)
    requires
        !m.response_focused,
        !m.url_input.focused,
        !m.request_body_input.focused,
        !m.headers_focused,
        m.sidebar_focused,
        m.selected_tab == 0,
        m.history_selected < m.requests_history.len(),
        k.code == KeyCode::Delete || k.code == KeyCode::Char('d'),
    ensures
        ({
            let old_h = m.requests_history;
            let h = app_step(m, k).0.requests_history;
            let i = m.history_selected as int;
            &&& h.len() == old_h.len() - 1
            &&& forall|j: int| 0 <= j < i ==> #[trigger] h[j] == old_h[j]
            &&& forall|j: int| i <= j < h.len() ==> #[trigger] h[j] == old_h[j + 1]
            &&& app_step(m, k).0.saved_requests == m.saved_requests
            &&& (h.len() > 0 ==> app_step(m, k).0.history_selected < h.len())
        }),
{
}

/// Delete (or d) on the saved tab removes exactly the highlighted saved
/// request, keeps the others in order, leaves the history alone, and asks
/// for the saved list to be written out.
pub proof fn law_delete_removes_the_highlighted_saved_request(m: AppModel, k: KeyInput)
    requires
        !m.response_focused,
        !m.url_input.focused,
        !m.request_body_input.focused,
        !m.headers_focused,
        m.sidebar_focused,
        m.selected_tab == 1,
        m.saved_selected < m.saved_requests.len(),
        k.code == KeyCode::Delete || k.code == KeyCode::Char('d'),
    ensures
        ({
            let old_s = m.saved_requests;
            let s = app_step(m, k).0.saved_requests;
            let i = m.saved_selected as int;
            &&& s.len() == old_s.len() - 1
            &&& forall|j: int| 0 <= j < i ==> #[trigger] s[j] == old_s[j]
            &&& forall|j: int| i <= j < s.len() ==> #[trigger] s[j] == old_s[j + 1]
            &&& app_step(m, k).0.requests_history == m.requests_history
            &&& app_step(m, k).1 == EffectView::PersistSaved
            &&& (s.len() > 0 ==> app_step(m, k).0.saved_selected < s.len())
        }),
{
}

/// Enter, when no pane has the focus and a URL is typed, sends that URL
/// with the chosen method, and its body for every method other than GET.
pub proof fn law_enter_without_focus_sends(m: AppModel, k: KeyInput)
    requires
        !m.response_focused,
        !m.url_input.focused,
        !m.request_body_input.focused,
        !m.headers_focused,
        !m.sidebar_focused,
        m.url_input.text.len() > 0,
        k.code == KeyCode::Enter,
    ensures
        app_step(m, k).1 matches EffectView::Send(p) && {
            &&& p.method == m.method
            &&& p.url == m.url_input.text
            &&& (m.method != "GET"@ && m.request_body_input.text.len() > 0 ==> p.body == Some(m.request_body_input.text))
            &&& (m.method == "GET"@ || m.request_body_input.text.len() == 0 ==> p.body is None)
        },
{
}

/// Enter on the history tab loads the highlighted entry into the editors:
/// its URL, its body, its headers (key and value, in order), the method it
/// was sent with when that is a valid method, and its response; the history
/// itself stays as it was.
pub proof fn law_enter_loads_the_highlighted_history_entry(m: AppModel, k: KeyInput)
    requires
        !m.response_focused,
        !m.url_input.focused,
        !m.request_body_input.focused,
        !m.headers_focused,
        m.sidebar_focused,
        m.selected_tab == 0,
        m.history_selected < m.requests_history.len(),
        k.code == KeyCode::Enter,
    ensures
        ({
            let h = m.requests_history[m.history_selected as int];
            let r = app_step(m, k).0;
            &&& r.url_input.text == h.url
            &&& r.request_body_input.text == h.body
            &&& r.request_headers.len() == h.headers.len()
            &&& forall|j: int| 0 <= j < h.headers.len() ==>
                (#[trigger] r.request_headers[j]).0.text == h.headers[j].0 && r.request_headers[j].1.text == h.headers[j].1
            &&& r.method == method_or_get(h.response.method)
            &&& r.response == Some(h.response)
            &&& r.requests_history == m.requests_history
            &&& !r.sidebar_focused
            &&& app_step(m, k).1 == EffectView::Nothing
        }),
{
}

/// Enter on the saved tab loads the highlighted saved request into the
/// editors: its URL, body, headers and method, with no response shown.
pub proof fn law_enter_loads_the_highlighted_saved_request(m: AppModel, k: KeyInput)
    requires
        !m.response_focused,
        !m.url_input.focused,
        !m.request_body_input.focused,
        !m.headers_focused,
        m.sidebar_focused,
        m.selected_tab == 1,
        m.saved_selected < m.saved_requests.len(),
        k.code == KeyCode::Enter,
    ensures
        ({
            let s = m.saved_requests[m.saved_selected as int];
            let r = app_step(m, k).0;
            &&& r.url_input.text == s.url
            &&& r.request_body_input.text == s.body
            &&& r.request_headers.len() == s.headers.len()
            &&& forall|j: int| 0 <= j < s.headers.len() ==>
                (#[trigger] r.request_headers[j]).0.text == s.headers[j].0 && r.request_headers[j].1.text == s.headers[j].1
            &&& r.method == method_or_get(s.method)
            &&& r.response is None
            &&& r.saved_requests == m.saved_requests
            &&& !r.sidebar_focused
        }),
{
}

/// Tab in the URL field, while suggestions are shown, replaces the URL with
/// the highlighted suggestion and closes the list.
pub proof fn law_tab_accepts_the_highlighted_suggestion(m: AppModel, k: KeyInput)
    requires
        !m.response_focused,
        m.url_input.focused,
        m.show_suggestions,
        m.url_suggestion_selected < m.url_suggestions.len(),
        k.code == KeyCode::Tab,
    ensures
        ({
            let r = app_step(m, k).0;
            &&& r.url_input.text == m.url_suggestions[m.url_suggestion_selected as int]
            &&& r.url_input.focused
            &&& r.url_input.anchor is None
            &&& !r.show_suggestions
            &&& r.url_suggestions.len() == 0
        }),
{
}

/// In the header list, with no header being edited, `a` appends an empty
/// header pair, highlights it and puts the focus on its key, keeping the
/// others; `d` removes exactly the highlighted pair and keeps the others in
/// order.
pub proof fn law_header_list_add_and_delete(m: AppModel, k: KeyInput)
    requires
        !m.response_focused,
        !m.url_input.focused,
        !m.request_body_input.focused,
        m.headers_focused,
        !header_editing(m),
        m.request_headers.len() <= usize::MAX,
        k.code == KeyCode::Char('a') || k.code == KeyCode::Char('d'),
    ensures
        ({
            let hs = m.request_headers;
            let r = app_step(m, k).0;
            let h = r.request_headers;
            let i = m.headers_selected as int;
            &&& k.code == KeyCode::Char('a') ==> {
                &&& h.len() == hs.len() + 1
                &&& forall|j: int| 0 <= j < hs.len() ==> #[trigger] h[j] == hs[j]
                &&& h.last().0.text.len() == 0 && h.last().1.text.len() == 0
                &&& h.last().0.focused && !h.last().1.focused
                &&& r.headers_selected == hs.len()
            }
            &&& (k.code == KeyCode::Char('d') && i < hs.len()) ==> {
                &&& h.len() == hs.len() - 1
                &&& forall|j: int| 0 <= j < i ==> #[trigger] h[j] == hs[j]
                &&& forall|j: int| i <= j < h.len() ==> #[trigger] h[j] == hs[j + 1]
            }
        }),
{
}

/// A key typed while a header's key or value has the focus goes to that
/// editor alone: the other editor of the pair and every other pair stay as
/// they were.
pub proof fn law_header_keys_reach_only_the_focused_editor(m: AppModel, k: KeyInput)
    requires
        !m.response_focused,
        !m.url_input.focused,
        !m.request_body_input.focused,
        m.headers_focused,
        header_editing(m),
        k.code != KeyCode::Esc,
        k.code != KeyCode::Up,
        k.code != KeyCode::Down,
        k.code != KeyCode::Tab,
        k.code != KeyCode::Enter,
    ensures
        ({
            let hs = m.request_headers;
            let i = m.headers_selected as int;
            let h = app_step(m, k).0.request_headers;
            &&& h.len() == hs.len()
            &&& forall|j: int| 0 <= j < hs.len() && j != i ==> #[trigger] h[j] == hs[j]
            &&& hs[i].0.focused ==> h[i] == (key_step(hs[i].0, k).0, hs[i].1)
            &&& !hs[i].0.focused ==> h[i] == (hs[i].0, key_step(hs[i].1, k).0)
        }),
{
}

/// `c` on the history tab, with no pane focused, empties the history.
pub proof fn law_clear_empties_the_history(m: AppModel, k: KeyInput)
    requires
        !m.response_focused,
        !m.url_input.focused,
        !m.request_body_input.focused,
        !m.headers_focused,
        !m.sidebar_focused,
        m.selected_tab == 0,
        k.code == KeyCode::Char('c'),
    ensures
        app_step(m, k).0.requests_history.len() == 0,
        app_step(m, k).0.saved_requests == m.saved_requests,
{
}

/// Saving with an empty URL saves nothing.
pub proof fn law_save_needs_a_url(m: AppModel)
    requires
        m.url_input.text.len() == 0,
    ensures
        current_saved(m).0 == m,
        current_saved(m).1 == EffectView::Nothing,
{
}

/// In the response pane, Left and Right move the cursor by one character
/// within the text, Home and End to its start and end, and Ctrl+A selects
/// the whole text. With shift held a move keeps the selection's other end,
/// starting it at the old cursor when there was none; without shift it drops
/// the selection. PageUp and PageDown leave the cursor alone.
pub proof fn law_response_sideways_moves(m: AppModel, k: KeyInput)
    requires
        m.response_focused,
        m.response_cursor <= response_text_of(m).len(),
        response_text_of(m).len() <= usize::MAX,
    ensures
        ({
            let n = response_text_of(m).len() as int;
            let c = m.response_cursor as int;
            let r = app_step(m, k).0;
            let moved = k.code == KeyCode::Left || k.code == KeyCode::Right
                || k.code == KeyCode::Home || k.code == KeyCode::End;
            &&& k.code == KeyCode::Left ==> r.response_cursor == if c > 0 { c - 1 } else { 0 }
            &&& k.code == KeyCode::Right ==> r.response_cursor == if c < n { c + 1 } else { n }
            &&& k.code == KeyCode::Home ==> r.response_cursor == 0
            &&& k.code == KeyCode::End ==> r.response_cursor == n
            &&& (moved && k.shift && m.response_selection_anchor is None) ==> r.response_selection_anchor == Some(m.response_cursor)
            &&& (moved && k.shift && m.response_selection_anchor is Some) ==> r.response_selection_anchor == m.response_selection_anchor
            &&& (moved && !k.shift) ==> r.response_selection_anchor is None
            &&& (k.code == KeyCode::Char('a') && k.ctrl) ==> r.response_selection_anchor == Some(0usize) && r.response_cursor == n
            &&& (k.code == KeyCode::PageUp || k.code == KeyCode::PageDown) ==> r.response_cursor == m.response_cursor
            &&& moved ==> r.response_focused
            &&& r.response == m.response
        }),
{
}

/// In the response pane, Up moves the cursor to the line above, at the same
/// column or at the end of that line when it is shorter, and stays on the
/// first line; Down moves it likewise to the line below and stays on the
/// last line. Here `b` is where the cursor's line starts, `p` where the line
/// above starts, `q` where the cursor's line ends (its line break, or the end
/// of the text) and `e` where the line below ends.
pub proof fn law_response_up_and_down(m: AppModel, k: KeyInput, b: int, p: int, q: int, e: int)
    requires
        m.response_focused,
        m.response_cursor <= response_text_of(m).len(),
        response_text_of(m).len() <= usize::MAX,
        k.code == KeyCode::Up || k.code == KeyCode::Down,
        ({
            let t = response_text_of(m);
            let c = m.response_cursor as int;
            &&& 0 <= b <= c
            &&& b > 0 ==> t[b - 1] == '\n'
            &&& forall|j: int| b <= j < c ==> t[j] != '\n'
            &&& b > 0 ==> 0 <= p < b
            &&& b > 0 && p > 0 ==> t[p - 1] == '\n'
            &&& forall|j: int| p <= j < b - 1 ==> t[j] != '\n'
            &&& c <= q <= t.len()
            &&& q < t.len() ==> t[q] == '\n'
            &&& forall|j: int| c <= j < q ==> t[j] != '\n'
            &&& q < t.len() ==> q + 1 <= e <= t.len()
            &&& e < t.len() ==> t[e] == '\n'
            &&& forall|j: int| q + 1 <= j < e ==> t[j] != '\n'
        }),
    ensures
        ({
            let t = response_text_of(m);
            let c = m.response_cursor as int;
            let r = app_step(m, k).0.response_cursor;
            &&& (k.code == KeyCode::Up && b == 0) ==> r == c
            &&& (k.code == KeyCode::Up && b > 0) ==> r == p + if c - b < b - 1 - p { c - b } else { b - 1 - p }
            &&& (k.code == KeyCode::Down && q == t.len()) ==> r == c
            &&& (k.code == KeyCode::Down && q < t.len()) ==> r == q + 1 + if c - b < e - (q + 1) { c - b } else { e - (q + 1) }
        }),
{
    let t = response_text_of(m);
    let c = m.response_cursor as int;
    lemma_line_begin_at(t, c, b);
    if b > 0 {
        lemma_line_begin_at(t, b - 1, p);
    }
    lemma_next_newline_at(t, c, q);
    if q < t.len() {
        lemma_next_newline_at(t, q + 1, e);
    }
}

/// `p` is the last position of `c` in `s` when `s[p]` is `c` and no `c`
/// follows; -1 when there is no `c` at all.
proof fn lemma_last_index_of_at(s: Seq<char>, c: char, p: int)
    requires
        -1 <= p < s.len(),
        p >= 0 ==> s[p] == c,
        forall|j: int| p < j < s.len() ==> s[j] != c,
    ensures
        last_index_of(s, c) == p,
    decreases s.len(),
{
    if s.len() > 0 && s.len() - 1 != p {
        let d = s.drop_last();
        assert forall|j: int| p < j < d.len() implies d[j] != c by {
            assert(d[j] == s[j]);
        }
        if p >= 0 {
            assert(d[p] == s[p]);
        }
        assert(s.last() == s[s.len() - 1]);
        lemma_last_index_of_at(d, c, p);
    }
}

/// The short form of a URL with two or more `/` is what follows its
/// second-to-last `/`: its last two `/`-separated parts. Here `p2` and `p`
/// are the positions of the last two `/`.
pub proof fn law_short_url_keeps_the_last_two_parts(s: Seq<char>, p2: int, p: int)
    requires
        0 <= p2 < p < s.len(),
        s[p2] == '/',
        s[p] == '/',
        forall|j: int| p2 < j < s.len() && j != p ==> s[j] != '/',
    ensures
        short_url(s) == s.subrange(p2 + 1, s.len() as int),
{
    lemma_last_index_of_at(s, '/', p);
    let t = take_upto(s, p);
    assert forall|j: int| p2 < j < t.len() implies t[j] != '/' by {
        assert(t[j] == s[j]);
    }
    assert(t[p2] == s[p2]);
    lemma_last_index_of_at(t, '/', p2);
    assert(s.skip(p2 + 1) =~= s.subrange(p2 + 1, s.len() as int));
}

/// A URL with fewer than two `/` is its own short form.
pub proof fn law_short_url_keeps_urls_with_one_slash(s: Seq<char>)
    requires
        forall|i: int, j: int| 0 <= i < j < s.len() ==> !(s[i] == '/' && s[j] == '/'),
    ensures
        short_url(s) == s,
{
    lemma_last_index_of_bounds(s, '/');
    let p = last_index_of(s, '/');
    if p >= 0 {
        let t = take_upto(s, p);
        lemma_last_index_of_bounds(t, '/');
        let p2 = last_index_of(t, '/');
        if p2 >= 0 {
            assert(t[p2] == s[p2]);
            assert(!(s[p2] == '/' && s[p] == '/'));
        }
    }
}

/// While the sidebar has the focus, the highlighted history entry (or saved
/// request) is what is previewed: its URL, body, headers and, for the
/// history, its response and method. Without the sidebar nothing is.
pub proof fn law_preview_shows_the_highlighted_entry(m: AppModel)
    ensures
        !m.sidebar_focused ==> preview_of(m) is None,
        (m.sidebar_focused && m.selected_tab == 0 && m.history_selected < m.requests_history.len()) ==> {
            let h = m.requests_history[m.history_selected as int];
            preview_of(m) matches Some(p) && p.url == h.url && p.body == h.body && p.headers == h.headers
                && p.response == Some(h.response) && p.method == h.response.method
        },
        (m.sidebar_focused && m.selected_tab == 1 && m.saved_selected < m.saved_requests.len()) ==> {
            let s = m.saved_requests[m.saved_selected as int];
            preview_of(m) matches Some(p) && p.url == s.url && p.body == s.body && p.headers == s.headers
                && p.response is None && p.method == s.method
        },
{
}

} // verus!
