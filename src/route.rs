//! The request router: an exact match of the request line against a fixed table.
use vstd::prelude::*;

use crate::text::same_text;

verus! {

/// Status line of a served page.
pub const HTTP_200: &'static str = "HTTP/1.1 200 OK";

/// Status line of every request that matches no route.
pub const HTTP_404: &'static str = "HTTP/1.1 404 NOT FOUND";

/// The request line of the root route.
pub const ROOT_REQUEST: &'static str = "GET / HTTP/1.1";

/// The request line of the route that waits before answering.
pub const SLEEP_REQUEST: &'static str = "GET /sleep HTTP/1.1";

/// The page served on both known routes.
pub const HELLO_PAGE: &'static str = "html/hello.html";

/// The page served on every other request line.
pub const NOT_FOUND_PAGE: &'static str = "html/404.html";

/// Seconds that the server waits before answering the sleep route.
pub const SLEEP_SECS: u64 = 5;

/// Whether the request line names one of the two known routes.
pub open spec fn is_known_route(line: Seq<char>) -> bool {
    line == ROOT_REQUEST@ || line == SLEEP_REQUEST@
}

/// The status line chosen for a request line.
pub open spec fn status_for(line: Seq<char>) -> Seq<char> {
    if is_known_route(line) {
        HTTP_200@
    } else {
        HTTP_404@
    }
}

/// The page file chosen for a request line.
pub open spec fn page_for(line: Seq<char>) -> Seq<char> {
    if is_known_route(line) {
        HELLO_PAGE@
    } else {
        NOT_FOUND_PAGE@
    }
}

/// The wait, in seconds, before a request line is answered.
pub open spec fn delay_for(line: Seq<char>) -> u64 {
    if line == SLEEP_REQUEST@ {
        SLEEP_SECS
    } else {
        0
    }
}

/// Chooses the status line and the page file for a request line, by exact
/// equality with the two known request lines.
pub fn handle_request(request_line: &str) -> (r: (&'static str, &'static str))
    ensures
        r.0@ == status_for(request_line@),
        r.1@ == page_for(request_line@),
        request_line@ == ROOT_REQUEST@ ==> r.0@ == HTTP_200@ && r.1@ == HELLO_PAGE@,
        request_line@ == SLEEP_REQUEST@ ==> r.0@ == HTTP_200@ && r.1@ == HELLO_PAGE@,
        request_line@ != ROOT_REQUEST@ && request_line@ != SLEEP_REQUEST@ ==> r.0@ == HTTP_404@
            && r.1@ == NOT_FOUND_PAGE@,
{
    if same_text(request_line, ROOT_REQUEST) || same_text(request_line, SLEEP_REQUEST) {
        (HTTP_200, HELLO_PAGE)
    } else {
        (HTTP_404, NOT_FOUND_PAGE)
    }
}

/// The number of seconds to wait before answering a request line: the sleep
/// route waits, every other line is answered at once.
pub fn request_delay_secs(request_line: &str) -> (r: u64)
    ensures
        r == delay_for(request_line@),
        request_line@ == SLEEP_REQUEST@ ==> r == SLEEP_SECS,
        request_line@ != SLEEP_REQUEST@ ==> r == 0,
{
    if same_text(request_line, SLEEP_REQUEST) {
        SLEEP_SECS
    } else {
        0
    }
}

} // verus!
