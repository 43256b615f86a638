//! How requests are read and routed, and how a connection goes on.

use crate::fixed::FixedString;
use crate::http;
use crate::server;
use crate::server::{ConnectionAction, ConnectionEvent, HeadStep, Route};
use crate::text;
use vstd::prelude::*;
use vstd::string::*;
use vstd::utf8::*;

verus! {

/// Whether a line break, carriage return and line feed, stands at a position.
pub open spec fn breaks_at(request: Seq<char>, at: int) -> bool {
    0 <= at && at + 1 < request.len() && request[at] == '\r' && request[at + 1] == '\n'
}

/// Whether a request asks with `GET` for something: behind the method and a space stands neither
/// a space nor the end of the line.
pub open spec fn asks_for_something(request: Seq<char>) -> bool {
    &&& request.len() > 4
    &&& request[0] == 'G'
    &&& request[1] == 'E'
    &&& request[2] == 'T'
    &&& request[3] == ' '
    &&& request[4] != ' '
    &&& !breaks_at(request, 4)
}

/// Whether a path stands behind the method of a request, up to the next space, query, line break
/// or the end.
pub open spec fn is_path_of(request: Seq<char>, path: Seq<char>) -> bool {
    let end = 4 + path.len() as int;
    &&& end <= request.len()
    &&& path == request.subrange(4, end)
    &&& forall|i: int|
        4 <= i < end ==> #[trigger] request[i] != ' ' && request[i] != '?' && !breaks_at(request, i)
    &&& end == request.len() || request[end] == ' ' || request[end] == '?' || breaks_at(
        request,
        end,
    )
}

/// The path is what stands behind the method, and is there if the request asks for something.
proof fn lemma_request_path(request: Seq<char>)
    ensures
        http::request_path(request) is Some <==> asks_for_something(request),
        http::request_path(request) matches Some(path) ==> is_path_of(request, path),
{
    let end = http::line_end(request);
    http::lemma_line_end_from(request, 0);
    if request.len() > 4 && request[0] == 'G' && request[1] == 'E' && request[2] == 'T'
        && request[3] == ' ' {
        assert(end >= 4);
        assert(end == 4 <==> breaks_at(request, 4));
        http::lemma_first_at(request, ' ', 4, end);
        let target = http::target_end(request);
        http::lemma_first_at(request, '?', 4, target);
        if http::request_path(request) is Some {
            let path = http::request_path(request)->0;
            let stop = http::first_at(request, '?', 4, target);
            assert(path.len() == stop - 4);
            assert forall|i: int| 4 <= i < stop implies #[trigger] request[i] != ' ' && request[i]
                != '?' && !breaks_at(request, i) by {}
        }
    }
}

/// A path is found if a request asks with `GET` for something, and it is what stands behind the
/// method, up to the next space, query or line break.
pub proof fn paths_stand_behind_the_method(request: &str, r: Option<&str>)
    requires
        call_ensures(http::parse_request_target, (request,), r),
    ensures
        r is Some <==> asks_for_something(request@),
        r matches Some(path) ==> is_path_of(request@, path@),
{
    lemma_request_path(request@);
}

/// The path of each route.
pub open spec fn path_to(route: Route) -> Option<Seq<char>> {
    match route {
        Route::Index => Some("/"@),
        Route::Release => Some("/release"@),
        Route::Sampling => Some("/sampling"@),
        Route::FreePsram => Some("/free_psram"@),
        Route::PinModes => Some("/pinmodes"@),
        Route::PinFunctions => Some("/pinfunctions"@),
        Route::EspInfo => Some("/espinfo"@),
        Route::Partition => Some("/partition"@),
        Route::Events => Some("/events"@),
        Route::NotFound => None,
    }
}

/// No two routes have the same path.
proof fn lemma_paths_differ(one: Route, other: Route)
    requires
        one != other,
        path_to(one) is Some,
    ensures
        path_to(one) != path_to(other),
{
    reveal_strlit("/");
    reveal_strlit("/release");
    reveal_strlit("/sampling");
    reveal_strlit("/free_psram");
    reveal_strlit("/pinmodes");
    reveal_strlit("/pinfunctions");
    reveal_strlit("/espinfo");
    reveal_strlit("/partition");
    reveal_strlit("/events");
    if let Some(a) = path_to(one) {
        if let Some(b) = path_to(other) {
            if a.len() > 2 && b.len() > 2 && a.len() == b.len() {
                assert(a[1] != b[1] || a[2] != b[2] || a[3] != b[3] || a[4] != b[4]);
            }
        }
    }
}

/// A route is found by its path and by no other, and a path that leads to none is not found.
pub proof fn routes_are_found_by_their_paths(path: Option<&str>, route: Route, r: Route)
    requires
        call_ensures(server::route_of, (path,), r),
        route != Route::NotFound,
    ensures
        r == route <==> (path matches Some(path) && Some(path@) == path_to(route)),
        r == Route::NotFound <==> (path matches Some(path) ==> forall|known: Route|
            known != Route::NotFound ==> Some(path@) != #[trigger] path_to(known)),
{
    if let Some(path) = path {
        lemma_routes(path@, route);
        lemma_routes(path@, r);
        if r == Route::NotFound {
            assert forall|known: Route| known != Route::NotFound implies Some(path@)
                != #[trigger] path_to(known) by {
                lemma_routes(path@, known);
            }
        }
    }
}

/// A path leads to the route whose path it is.
proof fn lemma_routes(path: Seq<char>, route: Route)
    ensures
        route != Route::NotFound ==> (server::path_route(Some(path)) == route <==> Some(path)
            == path_to(route)),
{
    let found = server::path_route(Some(path));
    if found != Route::NotFound {
        assert(Some(path) == path_to(found));
    }
    if route != Route::NotFound && Some(path) == path_to(route) && found != route {
        lemma_paths_differ(route, found);
    }
}

/// A request that is UTF-8 is routed by the path that stands behind its method.
pub proof fn requests_are_routed_by_their_paths(request: &[u8], route: Route, r: Route)
    requires
        call_ensures(server::route_request, (request,), r),
        valid_utf8(request@),
        route != Route::NotFound,
    ensures
        r == route <==> asks_for_something(decode_utf8(request@)) && exists|path: Seq<char>|
            #[trigger] is_path_of(decode_utf8(request@), path) && Some(path) == path_to(route),
{
    let decoded = decode_utf8(request@);
    lemma_request_path(decoded);
    if let Some(path) = http::request_path(decoded) {
        lemma_routes(path, route);
        assert forall|other: Seq<char>| #[trigger] is_path_of(decoded, other) implies other
            == path by {
            lemma_one_path(decoded, path, other);
        }
    }
}

/// A request has one path.
proof fn lemma_one_path(request: Seq<char>, one: Seq<char>, other: Seq<char>)
    requires
        is_path_of(request, one),
        is_path_of(request, other),
    ensures
        one == other,
{
    let a = 4 + one.len() as int;
    let b = 4 + other.len() as int;
    if a < b {
        assert(request[a] != ' ' && request[a] != '?' && !breaks_at(request, a));
    } else if b < a {
        assert(request[b] != ' ' && request[b] != '?' && !breaks_at(request, b));
    }
}

/// Whether the bytes that mark the end of the headers stand at a position.
pub open spec fn headers_end_at(bytes: Seq<u8>, at: int) -> bool {
    0 <= at && at + 3 < bytes.len() && bytes[at] == 13 && bytes[at + 1] == 10 && bytes[at + 2] == 13
        && bytes[at + 3] == 10
}

/// The end of the headers is there if its bytes stand anywhere.
proof fn lemma_headers_end(bytes: Seq<u8>)
    ensures
        server::contains_part(bytes, server::HEAD_END@) <==> exists|at: int| #[trigger]
            headers_end_at(bytes, at),
{
    let mark = server::HEAD_END@;
    if server::contains_part(bytes, mark) {
        let at = choose|start: int|
            0 <= start <= bytes.len() - mark.len() && #[trigger] bytes.subrange(
                start,
                start + mark.len(),
            ) == mark;
        let found = bytes.subrange(at, at + mark.len());
        assert(found[0] == 13 && found[1] == 10 && found[2] == 13 && found[3] == 10);
        assert(headers_end_at(bytes, at));
    }
    if exists|at: int| #[trigger] headers_end_at(bytes, at) {
        let at = choose|at: int| #[trigger] headers_end_at(bytes, at);
        assert(bytes.subrange(at, at + mark.len()) =~= mark);
    }
}

/// The first bytes of a character, but not all of them.
pub open spec fn cut_character(c: char, kept: int) -> Seq<u8> {
    encode_utf8(seq![c]).take(kept)
}

/// Whether bytes are the first bytes of a character, but not all of them.
pub open spec fn is_cut_character(bytes: Seq<u8>) -> bool {
    exists|c: char, kept: int|
        0 < kept < encode_utf8(seq![c]).len() && bytes == #[trigger] cut_character(c, kept)
}

/// An unfinished character is one that was cut.
pub proof fn lemma_unfinished_is_cut(bytes: Seq<u8>)
    ensures
        text::is_unfinished(bytes) <==> is_cut_character(bytes),
{
    if text::is_unfinished(bytes) {
        let missing = choose|missing: Seq<u8>|
            {
                &&& missing.len() > 0
                &&& valid_first_scalar(#[trigger] (bytes + missing))
                &&& length_of_first_scalar(bytes + missing) == bytes.len() + missing.len()
            };
        let whole = bytes + missing;
        reveal_with_fuel(valid_utf8, 2);
        reveal_with_fuel(decode_utf8, 2);
        assert(pop_first_scalar(whole).len() == 0);
        assert(valid_utf8(whole));
        let c = decode_utf8(whole)[0];
        assert(decode_utf8(whole) =~= seq![c]);
        decode_utf8_encode_utf8(whole);
        assert(bytes =~= cut_character(c, bytes.len() as int));
    }
    if is_cut_character(bytes) {
        let (c, kept) = choose|c: char, kept: int|
            0 < kept < encode_utf8(seq![c]).len() && bytes == #[trigger] cut_character(c, kept);
        let whole = encode_utf8(seq![c]);
        encode_utf8_first_scalar(seq![c]);
        reveal_with_fuel(encode_utf8, 2);
        assert(whole =~= encode_scalar(c as u32));
        let missing = whole.skip(kept);
        assert(bytes + missing =~= whole);
        assert(text::is_unfinished(bytes));
    }
}

/// A request that is not UTF-8 is not found, unless it lacks the end of its headers, its request
/// line is whole and only its last character is cut. It is then routed as if that character were
/// not there.
pub proof fn malformed_requests_are_not_found(request: &[u8], r: Route)
    requires
        call_ensures(server::route_request, (request,), r),
        !valid_utf8(request@),
    ensures
        (exists|at: int| #[trigger] headers_end_at(request@, at)) ==> r == Route::NotFound,
        (forall|whole: Seq<u8>, cut: Seq<u8>| #[trigger]
            (whole + cut) == request@ && is_cut_character(cut) ==> !valid_utf8(whole)) ==> r
            == Route::NotFound,
        r != Route::NotFound ==> exists|whole: Seq<u8>, cut: Seq<u8>|
            {
                &&& #[trigger] (whole + cut) == request@
                &&& is_cut_character(cut)
                &&& valid_utf8(whole)
                &&& exists|at: int| #[trigger] breaks_at(decode_utf8(whole), at)
                &&& asks_for_something(decode_utf8(whole))
                &&& exists|path: Seq<char>| #[trigger]
                    is_path_of(decode_utf8(whole), path) && Some(path) == path_to(r)
            },
{
    lemma_headers_end(request@);
    let whole = text::without_unfinished(request@);
    if valid_utf8(whole) {
        let cut = request@.skip(whole.len() as int);
        assert(whole + cut =~= request@);
        assert(text::is_unfinished(cut));
        lemma_unfinished_is_cut(cut);
        lemma_request_path(decode_utf8(whole));
        if let Some(path) = http::request_path(decode_utf8(whole)) {
            lemma_routes(path, r);
            http::lemma_line_end_from(decode_utf8(whole), 0);
            if r != Route::NotFound {
                assert(breaks_at(decode_utf8(whole), http::line_end(decode_utf8(whole))));
            }
            assert(is_path_of(decode_utf8(whole), path));
        }
    }
}

/// Headers that were cut before their end, within a character, are routed as if that character
/// were not there, if the request line is whole.
pub proof fn cut_headers_do_not_change_the_route(
    request: &[u8],
    whole: &[u8],
    line: Seq<char>,
    rest: Seq<char>,
    cut: Seq<u8>,
    r: Route,
    whole_route: Route,
)
    requires
        call_ensures(server::route_request, (request,), r),
        call_ensures(server::route_request, (whole,), whole_route),
        forall|at: int| !#[trigger] breaks_at(line, at),
        whole@ == encode_utf8(line + seq!['\r', '\n'] + rest),
        is_cut_character(cut),
        request@ == whole@ + cut,
        forall|at: int| !#[trigger] headers_end_at(request@, at),
    ensures
        r == whole_route,
{
    let decoded = line + seq!['\r', '\n'] + rest;
    encode_utf8_valid_utf8(decoded);
    encode_utf8_decode_utf8(decoded);
    lemma_headers_end(request@);
    lemma_unfinished_is_cut(cut);
    http::lemma_line_end_from(line, 0);
    assert(!breaks_at(line, http::line_end(line)));
    text::unfinished_character_is_dropped(whole@, cut);
    text::lemma_unfinished_shape(cut);
    assert(request@.subrange(0, whole@.len() as int) =~= whole@);
    assert(request@.subrange(whole@.len() as int, request@.len() as int) =~= cut);
    partial_valid_partial_invalid_utf8(request@, whole@.len() as int);
    http::line_ends_at_the_first_break(line, rest);
}

/// A slice holds another if the other stands in it byte for byte, and none holds an empty one.
pub proof fn slices_are_found_byte_for_byte(haystack: &[u8], needle: &[u8], r: bool)
    requires
        call_ensures(server::contains_subslice, (haystack, needle), r),
    ensures
        r ==> needle@.len() > 0 && exists|before: Seq<u8>, after: Seq<u8>|
            haystack@ == #[trigger] (before + needle@ + after),
        forall|before: Seq<u8>, after: Seq<u8>|
            needle@.len() > 0 && haystack@ == #[trigger] (before + needle@ + after) ==> r,
{
    if r {
        let start = choose|start: int|
            0 <= start <= haystack@.len() - needle@.len() && #[trigger] haystack@.subrange(
                start,
                start + needle@.len(),
            ) == needle@;
        let before = haystack@.take(start);
        let after = haystack@.skip(start + needle@.len());
        assert(haystack@ =~= before + needle@ + after);
    }
    assert forall|before: Seq<u8>, after: Seq<u8>|
        needle@.len() > 0 && haystack@ == #[trigger] (before + needle@ + after) implies r by {
        let start = before.len() as int;
        assert(haystack@.subrange(start, start + needle@.len()) =~= needle@);
    }
}

/// Reading goes on behind all bytes read until now, while there is room and the end of the headers
/// is not among them. It fails on an error, or if nothing comes at all.
pub proof fn requests_are_read_to_the_end_of_their_headers(
    buffer: &[u8],
    filled: usize,
    read: Result<usize, ()>,
    r: HeadStep,
)
    requires
        filled < buffer@.len() <= usize::MAX,
        read matches Ok(count) ==> filled + count <= buffer@.len(),
        call_ensures(server::after_read, (buffer, filled, read), r),
    ensures
        read is Err ==> r == HeadStep::Failed,
        read matches Ok(count) ==> {
            let total = filled + count;
            let ended = exists|at: int| #[trigger] headers_end_at(buffer@.take(total), at);
            &&& count == 0 && filled == 0 ==> r == HeadStep::Failed
            &&& count == 0 && filled > 0 ==> r == HeadStep::Complete(filled)
            &&& count > 0 && (ended || total == buffer@.len()) ==> (
            r matches HeadStep::Complete(length) && length == total)
            &&& count > 0 && !ended && total < buffer@.len() ==> (r matches HeadStep::More(length)
                && length == total)
        },
{
    if let Ok(count) = read {
        lemma_headers_end(buffer@.take(filled + count));
    }
}

/// A client is served if it was accepted, its connection is then closed and drained until the
/// client closes its side or fails, and only then, or after a reset, the next one is awaited.
pub proof fn connections_are_drained_before_the_next(
    event: ConnectionEvent,
    r: ConnectionAction,
)
    requires
        call_ensures(server::next_action, (event,), r),
    ensures
        r == ConnectionAction::Serve <==> event == ConnectionEvent::Accepted,
        r == ConnectionAction::Abort <==> event == ConnectionEvent::AcceptFailed,
        r == ConnectionAction::Close <==> event == ConnectionEvent::Served,
        r == ConnectionAction::Drain <==> event == ConnectionEvent::Closed || (
        event matches ConnectionEvent::Drained(count) && count > 0),
        r == ConnectionAction::Accept <==> event == ConnectionEvent::Aborted || event
            == ConnectionEvent::DrainFailed || event == ConnectionEvent::Drained(0),
{
}

/// A header consists of four lines and an empty one: the status, and the type and the length of
/// the body, in decimal digits.
pub proof fn headers_give_status_type_and_length(
    status: &str,
    content_type: &str,
    content_length: usize,
    r: FixedString<160>,
)
    requires
        call_ensures(http::response_header, (status, content_type, content_length), r),
        text::utf8_len(status@) + text::utf8_len(content_type@) <= 74,
    ensures
        exists|digits: Seq<char>|
            {
                &&& #[trigger] crate::laws::texts::is_number(digits, 10, content_length as int)
                &&& r@ == "HTTP/1.1 "@ + status@ + "\r\nContent-Type: "@ + content_type@
                    + "\r\nContent-Length: "@ + digits + "\r\nConnection: close\r\n\r\n"@
            },
{
    http::response_header_fits(status@, content_type@, content_length);
    crate::laws::texts::decimal_digits_are_the_number(content_length as nat);
}

/// A content type that is longer than a header is left out of it, and nothing else is.
pub proof fn overlong_types_are_left_out(
    status: &str,
    content_type: &str,
    content_length: usize,
    r: FixedString<160>,
)
    requires
        call_ensures(http::response_header, (status, content_type, content_length), r),
        text::utf8_len(status@) <= 74,
        text::utf8_len(content_type@) > 160,
    ensures
        exists|digits: Seq<char>|
            {
                &&& #[trigger] crate::laws::texts::is_number(digits, 10, content_length as int)
                &&& r@ == "HTTP/1.1 "@ + status@ + "\r\nContent-Type: "@
                    + "\r\nContent-Length: "@ + digits + "\r\nConnection: close\r\n\r\n"@
            },
{
    let none = Seq::<char>::empty();
    assert(text::utf8_len(none) == 0);
    http::response_header_fits(status@, none, content_length);
    crate::laws::texts::decimal_digits_are_the_number(content_length as nat);
    assert(forall|held: Seq<char>| #[trigger] (held + none) =~= held);
    assert(http::response_header_within(status@, content_type@, content_length as nat)
        == http::response_header_within(status@, none, content_length as nat));
}

} // verus!
