use esp_gpio_viewer::http::{parse_request_target, response_header};

#[test]
fn response_header_ok_json_exact_bytes() {
    let header = response_header("200 OK", "application/json", 42);
    assert_eq!(
        header.as_str(),
        "HTTP/1.1 200 OK\r\n\
         Content-Type: application/json\r\n\
         Content-Length: 42\r\n\
         Connection: close\r\n\r\n"
    );
}

#[test]
fn response_header_html_and_404_forms() {
    let html = response_header("200 OK", "text/html", 1024);
    assert_eq!(
        html.as_str(),
        "HTTP/1.1 200 OK\r\nContent-Type: text/html\r\nContent-Length: 1024\r\nConnection: close\r\n\r\n"
    );
    let not_found = response_header("404 Not Found", "text/plain", 9);
    assert_eq!(
        not_found.as_str(),
        "HTTP/1.1 404 Not Found\r\nContent-Type: text/plain\r\nContent-Length: 9\r\nConnection: close\r\n\r\n"
    );
}

#[test]
fn parse_target_root() {
    assert_eq!(
        parse_request_target("GET / HTTP/1.1\r\nHost: 192.168.0.5:8080\r\n\r\n"),
        Some("/")
    );
}

#[test]
fn parse_target_strips_query() {
    assert_eq!(
        parse_request_target("GET /events?client=3 HTTP/1.1\r\n\r\n"),
        Some("/events")
    );
    assert_eq!(
        parse_request_target("GET /pinmodes HTTP/1.1\r\n\r\n"),
        Some("/pinmodes")
    );
}

#[test]
fn parse_target_accepts_request_line_without_crlf_yet() {
    assert_eq!(
        parse_request_target("GET /release HTTP/1.1"),
        Some("/release")
    );
}

#[test]
fn parse_target_rejects_non_get() {
    assert_eq!(parse_request_target("POST /release HTTP/1.1\r\n\r\n"), None);
    assert_eq!(parse_request_target("HEAD / HTTP/1.1\r\n\r\n"), None);
}

#[test]
fn parse_target_rejects_malformed() {
    assert_eq!(parse_request_target(""), None);
    assert_eq!(parse_request_target("GARBAGE"), None);
    assert_eq!(parse_request_target("GET"), None);
    assert_eq!(parse_request_target("GET \r\n"), None);
}

#[test]
fn header_leaves_out_what_does_not_fit() {
    let long = "x".repeat(130);
    assert_eq!(
        response_header("200 OK", &long, 1).as_str(),
        "HTTP/1.1 200 OK\r\nContent-Type: \r\nContent-Length: 1\r\nConnection: close\r\n\r\n"
    );
    // With this content type the buffer is full up to the last line.
    let type_only = "y".repeat(100);
    assert_eq!(
        response_header("200 OK", &type_only, 1).as_str(),
        format!("HTTP/1.1 200 OK\r\nContent-Type: {}\r\nContent-Length: 1", type_only)
    );
}

#[test]
fn header_holds_the_largest_length() {
    let header = response_header("404 Not Found", "application/json", usize::MAX);
    assert!(header.as_str().ends_with("\r\nConnection: close\r\n\r\n"));
    assert!(header.as_str().contains(&format!("Content-Length: {}\r\n", usize::MAX)));
}

#[test]
fn target_ends_with_the_line() {
    assert_eq!(parse_request_target("GET /a\r\nGET /b HTTP/1.1"), Some("/a"));
    assert_eq!(parse_request_target("GET /a\nb"), Some("/a\nb"));
    assert_eq!(parse_request_target("GET /a\rb c"), Some("/a\rb"));
    assert_eq!(parse_request_target("\r\nGET /a"), None);
}

#[test]
fn target_may_be_a_query_alone() {
    assert_eq!(parse_request_target("GET ?x HTTP/1.1"), Some(""));
    assert_eq!(parse_request_target("GET /a?b?c"), Some("/a"));
    assert_eq!(parse_request_target("GET  /a"), None);
    assert_eq!(parse_request_target("get /a"), None);
    assert_eq!(parse_request_target("GETS /a"), None);
}

#[test]
fn target_may_hold_any_character() {
    assert_eq!(parse_request_target("GET /ä€?ö HTTP/1.1\r\n"), Some("/ä€"));
}
