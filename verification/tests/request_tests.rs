use curlrs::request::{
    empty_response, format_short_url, method_from_str, method_index, method_literal,
    status_color, HttpResponse, StatusColor,
};
use curlrs::highlight::{response_highlight, HighlightKind};
use curlrs::app::{headers_height, response_display};
use std::time::Duration;

#[test]
fn status_colors_by_class() {
    assert_eq!(status_color(200), StatusColor::Green);
    assert_eq!(status_color(299), StatusColor::Green);
    assert_eq!(status_color(301), StatusColor::Yellow);
    assert_eq!(status_color(404), StatusColor::LightRed);
    assert_eq!(status_color(500), StatusColor::Red);
    assert_eq!(status_color(599), StatusColor::Red);
    assert_eq!(status_color(0), StatusColor::Red);
    assert_eq!(status_color(1), StatusColor::White);
    assert_eq!(status_color(199), StatusColor::White);
    assert_eq!(status_color(600), StatusColor::White);
}

#[test]
fn method_names_parse_or_fall_back() {
    assert_eq!(method_from_str("POST"), "POST");
    assert_eq!(method_from_str("HEAD"), "HEAD");
    assert_eq!(method_from_str("get"), "get");
    assert_eq!(method_from_str(""), "GET");
    assert_eq!(method_from_str("BAD METHOD"), "GET");
    assert_eq!(method_from_str("ÜBER"), "GET");
}

#[test]
fn method_positions() {
    assert_eq!(method_index("GET"), 0);
    assert_eq!(method_index("POST"), 1);
    assert_eq!(method_index("PUT"), 2);
    assert_eq!(method_index("PATCH"), 3);
    assert_eq!(method_index("DELETE"), 4);
    assert_eq!(method_index("HEAD"), 0);
    assert_eq!(method_index("post"), 0);
    assert_eq!(method_literal(3), "PATCH");
}

#[test]
fn short_urls() {
    assert_eq!(format_short_url("https://example.com/api/users"), "api/users");
    assert_eq!(format_short_url("https://example.com"), "/example.com");
    assert_eq!(format_short_url("a/b"), "a/b");
    assert_eq!(format_short_url("plain"), "plain");
    assert_eq!(format_short_url("a/b/c"), "b/c");
    assert_eq!(format_short_url("x/"), "x/");
    assert_eq!(format_short_url("//"), "/");
}

fn sample_response(body: &str) -> HttpResponse {
    HttpResponse {
        status: 200,
        body: body.to_string(),
        headers: vec![
            (String::from("content-type"), String::from("application/json")),
            (String::from("x-id"), String::from("7")),
        ],
        elapsed: Duration::from_millis(3),
        method_str: String::from("GET"),
    }
}

#[test]
fn json_is_pretty_printed() {
    assert_eq!(response_display(&sample_response("{\"a\":1}"), false), "{\n  \"a\": 1\n}");
    assert_eq!(response_display(&sample_response("[1,2]"), false), "[\n  1,\n  2\n]");
    assert_eq!(response_display(&sample_response("not json"), false), "\"not json\"");
    assert_eq!(response_display(&sample_response(""), false), "\"\"");
}

#[test]
fn headers_are_shown_as_lines() {
    assert_eq!(
        response_display(&sample_response("{}"), true),
        "content-type: application/json\nx-id: 7"
    );
    let mut r = sample_response("{}");
    r.headers.clear();
    assert_eq!(response_display(&r, true), "");
}

#[test]
fn placeholder_response() {
    let r = empty_response();
    assert_eq!(r.status, 1);
    assert!(r.body.is_empty());
    assert!(r.headers.is_empty());
    assert!(r.method_str.is_empty());
}

#[test]
fn highlight_cursor_and_selection() {
    let lines = response_highlight("abc\nde", 1, Some(4));
    assert_eq!(lines.len(), 2);
    assert_eq!(
        lines[0],
        vec![
            (String::from("a"), HighlightKind::Normal),
            (String::from("b"), HighlightKind::Cursor),
            (String::from("c"), HighlightKind::Selected),
        ]
    );
    assert_eq!(lines[1], vec![(String::from("de"), HighlightKind::Normal)]);
}

#[test]
fn highlight_cursor_at_end() {
    let lines = response_highlight("ab", 2, None);
    assert_eq!(lines.len(), 1);
    assert_eq!(
        lines[0],
        vec![(String::from("ab"), HighlightKind::Normal), (String::from(" "), HighlightKind::Cursor)]
    );
    let trailing = response_highlight("ab\n", 0, None);
    assert_eq!(trailing.len(), 1);
    assert_eq!(
        trailing[0],
        vec![(String::from("a"), HighlightKind::Cursor), (String::from("b"), HighlightKind::Normal)]
    );
    assert!(response_highlight("", 5, None).is_empty());
}

#[test]
fn header_area_height() {
    assert_eq!(headers_height(0), 0);
    assert_eq!(headers_height(1), 3);
    assert_eq!(headers_height(5), 7);
    assert_eq!(headers_height(6), 8);
    assert_eq!(headers_height(40), 8);
}
