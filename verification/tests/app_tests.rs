use std::time::Duration;

use curlrs::app::{AppState, Effect};
use curlrs::keys::{KeyCode, KeyInput};
use curlrs::request::{HttpResponse, SavedRequest};

fn key(code: KeyCode) -> KeyInput {
    KeyInput::plain(code)
}

fn ch(c: char) -> KeyInput {
    KeyInput::plain(KeyCode::Char(c))
}

fn ctrl(c: char) -> KeyInput {
    KeyInput::with_modifiers(KeyCode::Char(c), false, true)
}

fn response(status: u16, body: &str, method: &str) -> HttpResponse {
    HttpResponse {
        status,
        body: body.to_string(),
        headers: vec![(String::from("content-type"), String::from("application/json"))],
        elapsed: Duration::from_millis(12),
        method_str: method.to_string(),
    }
}

fn saved(url: &str, method: &str, body: &str) -> SavedRequest {
    SavedRequest {
        name: format!("{} {}", method, url),
        url: url.to_string(),
        method_str: method.to_string(),
        body: body.to_string(),
        headers: vec![(String::from("X-Key"), String::from("v"))],
    }
}

fn type_text(app: &mut AppState, s: &str) {
    for c in s.chars() {
        app.handle_key(ch(c));
    }
}

#[test]
fn starts_with_defaults() {
    let app = AppState::new(None, None, Vec::new());
    assert_eq!(app.method, "GET");
    assert_eq!(app.method_i, 0);
    assert_eq!(app.left_section_w, 40);
    assert_eq!(app.top_section_h, 40);
    assert!(app.help_window);
    assert_eq!(app.url_input.value(), "");
    assert!(app.request_body_input.multiline);
    assert!(!app.exit);
}

#[test]
fn starts_with_command_line_url_and_method() {
    let app = AppState::new(Some(String::from("https://héllo.io")), Some(String::from("patch")), Vec::new());
    assert_eq!(app.method, "PATCH");
    assert_eq!(app.method_i, 3);
    assert_eq!(app.url_input.value(), "https://héllo.io");
    assert_eq!(app.url_input.cursor, "https://héllo.io".len());
    let odd = AppState::new(None, Some(String::from("head")), Vec::new());
    assert_eq!(odd.method, "HEAD");
    assert_eq!(odd.method_i, 0);
    let bad = AppState::new(None, Some(String::from("no way")), Vec::new());
    assert_eq!(bad.method, "GET");
}

#[test]
fn method_switching_wraps() {
    let mut app = AppState::new(None, None, Vec::new());
    app.handle_key(ch('n'));
    assert_eq!(app.method, "DELETE");
    assert_eq!(app.method_i, 4);
    app.handle_key(ch('m'));
    assert_eq!(app.method, "GET");
    app.handle_key(ch('m'));
    app.handle_key(ch('m'));
    assert_eq!(app.method, "PUT");
    assert_eq!(app.method_i, 2);
}

#[test]
fn enter_in_url_sends_request() {
    let mut app = AppState::new(None, None, Vec::new());
    app.handle_key(ch('u'));
    assert!(app.url_input.focused);
    type_text(&mut app, "http://x/y");
    assert_eq!(app.url_input.value(), "http://x/y");
    match app.handle_key(key(KeyCode::Enter)) {
        Effect::Send(plan) => {
            assert_eq!(plan.method, "GET");
            assert_eq!(plan.url, "http://x/y");
            assert!(plan.body.is_none());
            assert!(plan.headers.is_empty());
        }
        _ => panic!("expected a request"),
    }
    assert!(app.loading);
    assert!(app.response.is_none());
}

#[test]
fn empty_url_sends_nothing() {
    let mut app = AppState::new(None, None, Vec::new());
    assert!(matches!(app.handle_key(key(KeyCode::Enter)), Effect::Nothing));
    assert!(!app.loading);
}

#[test]
fn post_body_and_named_headers_are_sent() {
    let mut app = AppState::new(Some(String::from("http://h/p")), Some(String::from("POST")), Vec::new());
    app.handle_key(ch('b'));
    type_text(&mut app, "{}");
    app.handle_key(key(KeyCode::Esc));
    app.handle_key(ch('e'));
    assert!(app.headers_focused);
    assert_eq!(app.request_headers.len(), 1);
    type_text(&mut app, "K");
    app.handle_key(key(KeyCode::Tab));
    type_text(&mut app, "V");
    app.handle_key(key(KeyCode::Esc));
    assert!(!app.headers_focused);
    match app.handle_key(key(KeyCode::Enter)) {
        Effect::Send(plan) => {
            assert_eq!(plan.method, "POST");
            assert_eq!(plan.body, Some(String::from("{}")));
            assert_eq!(plan.headers, vec![(String::from("K"), String::from("V"))]);
        }
        _ => panic!("expected a request"),
    }
}

#[test]
fn completed_request_goes_into_history() {
    let mut app = AppState::new(Some(String::from("http://h/a")), None, Vec::new());
    app.send_request(String::from("http://h/a"));
    app.complete_request(response(200, "{\"ok\":true}", "GET"), String::from("12:00"));
    assert!(!app.loading);
    assert_eq!(app.requests_history.len(), 1);
    assert_eq!(app.requests_history[0].url, "http://h/a");
    assert_eq!(app.requests_history[0].time, "12:00");
    assert_eq!(app.response.as_ref().map(|r| r.status), Some(200));
    assert_eq!(app.response_text(), "{\n  \"ok\": true\n}");
    app.handle_key(ch('t'));
    assert_eq!(app.response_text(), "content-type: application/json");
}

#[test]
fn save_and_load_round_trip() {
    let mut app = AppState::new(Some(String::from("https://api.io/v1/users")), Some(String::from("PUT")), Vec::new());
    app.handle_key(ch('b'));
    type_text(&mut app, "x");
    app.handle_key(key(KeyCode::Esc));
    assert!(matches!(app.handle_key(ch('w')), Effect::PersistSaved));
    assert_eq!(app.saved_requests.len(), 1);
    assert_eq!(app.saved_requests[0].name, "PUT v1/users");
    assert_eq!(app.selected_tab, 1);
    let mut other = AppState::new(None, None, app.saved_requests.clone());
    other.handle_key(ch('s'));
    other.handle_key(key(KeyCode::Tab));
    assert_eq!(other.selected_tab, 1);
    other.handle_key(key(KeyCode::Enter));
    assert_eq!(other.url_input.value(), "https://api.io/v1/users");
    assert_eq!(other.request_body_input.value(), "x");
    assert_eq!(other.method, "PUT");
    assert_eq!(other.method_i, 2);
    assert!(!other.sidebar_focused);
}

#[test]
fn sidebar_delete_and_selection() {
    let mut app = AppState::new(None, None, vec![saved("a", "GET", ""), saved("b", "POST", "")]);
    app.handle_key(ch('s'));
    app.handle_key(key(KeyCode::Tab));
    app.handle_key(key(KeyCode::Down));
    assert_eq!(app.saved_selected, 1);
    app.handle_key(key(KeyCode::Down));
    assert_eq!(app.saved_selected, 1);
    assert!(matches!(app.handle_key(ch('d')), Effect::PersistSaved));
    assert_eq!(app.saved_requests.len(), 1);
    assert_eq!(app.saved_selected, 0);
    assert_eq!(app.saved_requests[0].url, "a");
}

#[test]
fn samples_are_added() {
    let mut app = AppState::new(None, None, Vec::new());
    app.handle_key(ch('s'));
    app.handle_key(key(KeyCode::BackTab));
    assert_eq!(app.selected_tab, 2);
    assert!(matches!(app.handle_key(key(KeyCode::Enter)), Effect::PersistSaved));
    assert_eq!(app.saved_requests.len(), 8);
    assert_eq!(app.saved_requests[3].method_str, "POST");
    assert_eq!(app.saved_requests[7].url, "https://httpbin.org/headers");
    assert_eq!(app.selected_tab, 1);
}

#[test]
fn suggestions_from_history_and_saved() {
    let mut app = AppState::new(None, None, vec![saved("https://Example.com/b", "GET", "")]);
    app.url_input = curlrs::text_input::TextInput::new(String::from("https://example.com/a"));
    app.complete_request(response(200, "", "GET"), String::from("t"));
    app.url_input = curlrs::text_input::TextInput::new(String::new());
    app.handle_key(ch('u'));
    type_text(&mut app, "EXAM");
    assert!(app.show_suggestions);
    assert_eq!(
        app.url_suggestions,
        vec![String::from("https://example.com/a"), String::from("https://Example.com/b")]
    );
    app.handle_key(key(KeyCode::Down));
    assert_eq!(app.url_suggestion_selected, 1);
    app.handle_key(key(KeyCode::Tab));
    assert_eq!(app.url_input.value(), "https://Example.com/b");
    assert!(!app.show_suggestions);
    assert!(app.url_suggestions.is_empty());
}

#[test]
fn response_focus_select_and_copy() {
    let mut app = AppState::new(None, None, Vec::new());
    app.complete_request(response(200, "not json", "GET"), String::from("t"));
    app.handle_key(ch('f'));
    assert!(app.response_focused);
    app.handle_key(KeyInput::with_modifiers(KeyCode::Right, true, false));
    app.handle_key(KeyInput::with_modifiers(KeyCode::Right, true, false));
    assert_eq!(app.response_cursor, 2);
    match app.handle_key(ctrl('c')) {
        Effect::CopyText(t) => assert_eq!(t, "\"n"),
        _ => panic!("expected a copy"),
    }
    app.handle_key(ctrl('a'));
    assert_eq!(app.response_selection_anchor, Some(0));
    assert_eq!(app.response_cursor, 10);
    app.handle_key(key(KeyCode::Esc));
    assert!(!app.response_focused);
    assert_eq!(app.response_selection_anchor, None);
}

#[test]
fn response_lines_navigation() {
    let mut app = AppState::new(None, None, Vec::new());
    app.complete_request(response(200, "{\"a\":1,\"bb\":2}", "GET"), String::from("t"));
    assert_eq!(app.response_text(), "{\n  \"a\": 1,\n  \"bb\": 2\n}");
    app.handle_key(ch('f'));
    app.handle_key(key(KeyCode::Down));
    assert_eq!(app.response_cursor, 2);
    app.handle_key(key(KeyCode::End));
    assert_eq!(app.response_cursor, 23);
    app.handle_key(key(KeyCode::Up));
    assert_eq!(app.response_cursor, 13);
    app.handle_key(key(KeyCode::Home));
    assert_eq!(app.response_cursor, 0);
}

#[test]
fn save_response_uses_pretty_json() {
    let mut app = AppState::new(None, None, Vec::new());
    assert!(matches!(app.save_response(), Effect::Nothing));
    app.complete_request(response(200, "[1]", "GET"), String::from("t"));
    match app.handle_key(ch('r')) {
        Effect::SaveResponse(t) => assert_eq!(t, "[\n  1\n]"),
        _ => panic!("expected a save"),
    }
}

#[test]
fn layout_keys_resize_and_quit() {
    let mut app = AppState::new(None, None, Vec::new());
    app.handle_key(key(KeyCode::Right));
    assert_eq!(app.left_section_w, 41);
    app.handle_key(key(KeyCode::Up));
    assert_eq!(app.top_section_h, 35);
    app.handle_key(key(KeyCode::Down));
    app.handle_key(key(KeyCode::Down));
    assert_eq!(app.top_section_h, 45);
    app.handle_key(ch('h'));
    assert!(!app.help_window);
    app.handle_key(ch('q'));
    assert!(app.exit);
}

#[test]
fn clear_history() {
    let mut app = AppState::new(None, None, Vec::new());
    app.complete_request(response(500, "", "GET"), String::from("t"));
    app.complete_request(response(404, "", "GET"), String::from("t"));
    assert_eq!(app.requests_history.len(), 2);
    app.handle_key(ch('c'));
    assert!(app.requests_history.is_empty());
    assert_eq!(app.history_selected, 0);
}

#[test]
fn history_preview_and_load() {
    let mut app = AppState::new(Some(String::from("http://one")), Some(String::from("DELETE")), Vec::new());
    app.complete_request(response(204, "", "DELETE"), String::from("t"));
    app.url_input = curlrs::text_input::TextInput::new(String::from("http://two"));
    app.response = None;
    app.handle_key(ch('s'));
    let p = app.preview_data().expect("a preview");
    assert_eq!(p.url, "http://one");
    assert_eq!(p.method, "DELETE");
    assert_eq!(p.response.map(|r| r.status), Some(204));
    app.handle_key(key(KeyCode::Enter));
    assert_eq!(app.url_input.value(), "http://one");
    assert_eq!(app.method, "DELETE");
    assert_eq!(app.method_i, 4);
    assert_eq!(app.response.as_ref().map(|r| r.status), Some(204));
    assert!(app.preview_data().is_none());
}

#[test]
fn response_keys_allowed_near_scroll_limit() {
    let mut app = AppState::new(None, None, Vec::new());
    app.complete_request(response(200, "{\"a\":1}", "GET"), String::from("t"));
    app.handle_key(ch('f'));
    app.response_scroll = u16::MAX - 5;
    // The cursor sits on the first line, so the view jumps back to it.
    assert!(app.key_allowed(key(KeyCode::Left)));
    app.handle_key(key(KeyCode::Left));
    assert_eq!(app.response_scroll, 0);
    app.response_cursor = usize::MAX;
    assert!(!app.key_allowed(key(KeyCode::Right)));
    assert!(app.key_allowed(key(KeyCode::Home)));
}

#[test]
fn response_view_past_the_scroll_limit_is_refused() {
    let mut body = String::from("[");
    for _ in 0..65519 {
        body.push_str("0,");
    }
    body.push_str("0]");
    let mut app = AppState::new(None, None, Vec::new());
    app.complete_request(response(200, &body, "GET"), String::from("t"));
    app.handle_key(ch('f'));
    app.response_scroll = 65530;
    // End puts the cursor on line 65521: following it would need line 65541.
    assert!(!app.key_allowed(key(KeyCode::End)));
    // Home brings the cursor back to the first line.
    assert!(app.key_allowed(key(KeyCode::Home)));
    app.handle_key(key(KeyCode::Home));
    assert_eq!(app.response_scroll, 0);
}
