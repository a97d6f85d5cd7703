//! The little of HTTP that the collectors speak.
use crate::text::scan::{
    after_separator, contains_text, law_nothing_follows_a_missing_separator,
    law_rest_follows_the_first_separator, occurs_at, split_after,
};
use vstd::prelude::*;
use vstd::string::*;

verus! {

/// What separates the head of a response from its body.
pub const BLANK_LINE: &'static str = "\r\n\r\n";

/// A request for `path` from the server at `addr`, on a connection of its own.
pub open spec fn request_text(addr: Seq<char>, path: Seq<char>) -> Seq<char> {
    "GET "@ + path + " HTTP/1.1\r\nHost: "@ + addr
        + "\r\nConnection: close\r\nAccept: application/json\r\n\r\n"@
}

/// A request for `path` from the server at `addr`.
pub fn request(addr: &str, path: &str) -> (r: String)
    ensures
        r@ == request_text(addr@, path@),
{
    let mut out = "GET ".to_owned();
    out.append(path);
    out.append(" HTTP/1.1\r\nHost: ");
    out.append(addr);
    out.append("\r\nConnection: close\r\nAccept: application/json\r\n\r\n");
    out
}

/// The body of a response that has a head; otherwise the whole of it.
pub open spec fn payload_of(response: Seq<char>) -> Seq<char> {
    match after_separator(response, BLANK_LINE@) {
        Some(body) => body,
        None => response,
    }
}

/// The body of a response that has a head; otherwise the whole of it.
pub fn payload(response: &str) -> (r: String)
    ensures
        r@ == payload_of(response@),
{
    match split_after(response, BLANK_LINE) {
        Some(body) => body,
        None => response.to_owned(),
    }
}

/// A response that was read; a server that sends nothing gives none.
pub fn received(response: String) -> (r: Option<String>)
    ensures
        r == (if response@.len() == 0 {
            None
        } else {
            Some(response)
        }),
{
    if response.as_str().is_empty() {
        None
    } else {
        Some(response)
    }
}

/// The body of a response that has a head.
pub fn extract_body(raw: &str) -> (r: Option<String>)
    ensures
        match r {
            Some(body) => after_separator(raw@, BLANK_LINE@) == Some(body@),
            None => after_separator(raw@, BLANK_LINE@) is None,
        },
{
    split_after(raw, BLANK_LINE)
}

/// A response is split at its first blank line; one without any is taken whole.
pub proof fn law_response_is_split_at_the_blank_line(head: Seq<char>, body: Seq<char>, whole: Seq<char>)
    requires
        forall|i: int|
            0 <= i < head.len() ==> !#[trigger] occurs_at(
                head + "\r\n\r\n"@ + body,
                "\r\n\r\n"@,
                i,
            ),
        !contains_text(whole, "\r\n\r\n"@),
    ensures
        payload_of(head + "\r\n\r\n"@ + body) == body,
        payload_of(whole) == whole,
{
    law_rest_follows_the_first_separator(head, "\r\n\r\n"@, body);
    law_nothing_follows_a_missing_separator(whole, "\r\n\r\n"@);
}

/// A request names its path and its server, asks for JSON and closes the connection.
pub proof fn law_request_names_path_and_server(addr: Seq<char>, path: Seq<char>)
    ensures
        request_text(addr, path) == "GET "@ + path + " HTTP/1.1\r\nHost: "@ + addr
            + "\r\nConnection: close\r\nAccept: application/json\r\n\r\n"@,
{
}

} // verus!
