use hello_server::route::{
    handle_request, request_delay_secs, HELLO_PAGE, HTTP_200, HTTP_404, NOT_FOUND_PAGE,
    ROOT_REQUEST, SLEEP_REQUEST, SLEEP_SECS,
};
use hello_server::text::same_text;

#[test]
fn get_request_works_correctly() {
    let test_cases = [
        ("GET /", HTTP_200, "html/hello.html"),
        ("GET /sleep", HTTP_200, "html/hello.html"),
        (
            "GET /not-implemented",
            "HTTP/1.1 404 NOT FOUND",
            "html/404.html",
        ),
    ];

    for (req_line, expected_status, expected_filename) in test_cases.iter() {
        let req = format!("{} HTTP/1.1", req_line);
        let (status, filename) = handle_request(&req);
        println!(
            "Request: {}, Status: {}, File: {}",
            req_line, status, filename
        );
        assert_eq!(&status, expected_status);
        assert_eq!(&filename, expected_filename);
    }
}

#[test]
fn root_route_serves_hello() {
    assert_eq!(
        handle_request("GET / HTTP/1.1"),
        ("HTTP/1.1 200 OK", "html/hello.html")
    );
    assert_eq!(request_delay_secs("GET / HTTP/1.1"), 0);
}

#[test]
fn sleep_route_serves_hello_after_five_seconds() {
    assert_eq!(
        handle_request("GET /sleep HTTP/1.1"),
        ("HTTP/1.1 200 OK", "html/hello.html")
    );
    assert_eq!(request_delay_secs("GET /sleep HTTP/1.1"), 5);
    assert_eq!(SLEEP_SECS, 5);
}

#[test]
fn other_lines_get_not_found() {
    let lines = [
        "GET /foo HTTP/1.1",
        "POST / HTTP/1.1",
        "",
        "GET / HTTP/1.1 ",
        "GET / HTTP/1.0",
        "get / http/1.1",
        "GET /sleep HTTP/1.1\r",
        "GET /",
        "GET / HTTP/1.1\r\n",
    ];
    for line in lines.iter() {
        assert_eq!(
            handle_request(line),
            ("HTTP/1.1 404 NOT FOUND", "html/404.html"),
            "line {:?}",
            line
        );
        assert_eq!(request_delay_secs(line), 0, "line {:?}", line);
    }
}

#[test]
fn route_constants_hold_the_literal_table() {
    assert_eq!(ROOT_REQUEST, "GET / HTTP/1.1");
    assert_eq!(SLEEP_REQUEST, "GET /sleep HTTP/1.1");
    assert_eq!(HTTP_200, "HTTP/1.1 200 OK");
    assert_eq!(HTTP_404, "HTTP/1.1 404 NOT FOUND");
    assert_eq!(HELLO_PAGE, "html/hello.html");
    assert_eq!(NOT_FOUND_PAGE, "html/404.html");
}

#[test]
fn same_text_compares_exactly() {
    assert!(same_text("", ""));
    assert!(same_text("GET / HTTP/1.1", "GET / HTTP/1.1"));
    assert!(same_text("héllo", "héllo"));
    assert!(!same_text("GET / HTTP/1.1", "GET / HTTP/1.0"));
    assert!(!same_text("abc", "ab"));
    assert!(!same_text("", "a"));
    assert!(!same_text("é", "e"));
}
