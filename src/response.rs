//! The response layout: status line, a `Content-Length` header giving the
//! page's size in bytes, a blank line, then the page verbatim.
use vstd::prelude::*;
use vstd::string::StringExecFns;
use vstd::string::StringSliceAdditionalSpecFns;
use vstd::utf8::encode_utf8;

use crate::route::status_for;
use crate::text::{
    append_decimal, decimal, digit_run, digits_value, lemma_decimal_round_trip,
    lemma_digit_run_stops,
};

verus! {

/// What follows the status line up to the header's value.
pub const LENGTH_HEADER_START: &'static str = "\r\nContent-Length: ";

/// Ends the header line and the header block.
pub const HEADER_END: &'static str = "\r\n\r\n";

/// The number of bytes of a text in UTF-8.
pub open spec fn byte_len(s: Seq<char>) -> nat {
    encode_utf8(s).len()
}

/// The part of a response that follows the status line, for a page with the
/// given contents.
pub open spec fn body_of(contents: Seq<char>) -> Seq<char> {
    LENGTH_HEADER_START@ + decimal(byte_len(contents)) + HEADER_END@ + contents
}

/// The whole response to a request line, for the contents of the page that
/// the router chose for it.
pub open spec fn response_for(request_line: Seq<char>, contents: Seq<char>) -> Seq<char> {
    status_for(request_line) + body_of(contents)
}

/// The value of the `Content-Length` header, read from a response body: the
/// run of digits that follows the header's name.
pub open spec fn content_length_of(body: Seq<char>) -> nat {
    digits_value(digit_run(body.skip(LENGTH_HEADER_START@.len() as int)))
}

/// Builds what follows the status line for a page: the `Content-Length`
/// header with the page's size in bytes, a blank line and the page itself.
pub fn generate_html_content(contents: &str) -> (r: String)
    ensures
        r@ == body_of(contents@),
{
    let length = contents.as_bytes().len();
    let mut out = String::from_str(LENGTH_HEADER_START);
    append_decimal(&mut out, length);
    out.append(HEADER_END);
    out.append(contents);
    out
}

/// Builds the full response: the status line followed by the body for the
/// page's contents.
pub fn build_response(status_line: &str, contents: &str) -> (r: String)
    ensures
        r@ == status_line@ + body_of(contents@),
{
    let mut out = String::from_str(status_line);
    let body = generate_html_content(contents);
    out.append(body.as_str());
    out
}

/// Reading the `Content-Length` header back from a built body gives the
/// byte length of the contents, for every contents, the empty one included.
pub proof fn lemma_content_length_round_trip(contents: Seq<char>)
    ensures
        body_of(contents).subrange(0, LENGTH_HEADER_START@.len() as int) == LENGTH_HEADER_START@,
        content_length_of(body_of(contents)) == byte_len(contents),
{
    let n = byte_len(contents);
    let start = LENGTH_HEADER_START@;
    let rest = HEADER_END@ + contents;
    reveal_strlit("\r\n\r\n");
    lemma_decimal_round_trip(n);
    lemma_digit_run_stops(decimal(n), rest);
    assert(body_of(contents) =~= start + (decimal(n) + rest));
    assert(body_of(contents).skip(start.len() as int) =~= decimal(n) + rest);
    assert(body_of(contents).subrange(0, start.len() as int) =~= start);
}

/// Answering the same request line with the same page contents gives the
/// same response, character for character.
pub proof fn lemma_response_repeatable(
    line1: Seq<char>,
    line2: Seq<char>,
    page1: Seq<char>,
    page2: Seq<char>,
)
    requires
        line1 == line2,
        page1 == page2,
    ensures
        response_for(line1, page1) == response_for(line2, page2),
{
}

} // verus!
