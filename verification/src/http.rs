//! The request line and the response header of HTTP/1.1.

use crate::fixed;
use crate::fixed::FixedString;
use crate::text;
use crate::writer::BodyWriter;
use vstd::prelude::*;
use vstd::string::*;

verus! {

/// Capacity of a response header, in bytes.
pub const HEADER_CAP: usize = 160;

/// The status line and headers of a response with a body of `content_length` bytes.
pub open spec fn response_header_text(
    status: Seq<char>,
    content_type: Seq<char>,
    content_length: nat,
) -> Seq<char> {
    "HTTP/1.1 "@ + status + "\r\nContent-Type: "@ + content_type + "\r\nContent-Length: "@
        + text::decimal(content_length) + "\r\nConnection: close\r\n\r\n"@
}

/// What a buffer of [`HEADER_CAP`] bytes holds of such a header. It is put together of seven
/// pieces, and a piece that does not fit is left out.
pub open spec fn response_header_within(
    status: Seq<char>,
    content_type: Seq<char>,
    content_length: nat,
) -> Seq<char> {
    let cap = HEADER_CAP as nat;
    let held = fixed::with_whole(Seq::empty(), "HTTP/1.1 "@, cap);
    let held = fixed::with_whole(held, status, cap);
    let held = fixed::with_whole(held, "\r\nContent-Type: "@, cap);
    let held = fixed::with_whole(held, content_type, cap);
    let held = fixed::with_whole(held, "\r\nContent-Length: "@, cap);
    let held = fixed::with_whole(held, text::decimal(content_length), cap);
    fixed::with_whole(held, "\r\nConnection: close\r\n\r\n"@, cap)
}

/// Build the status line and headers of a response. The body is sent behind them.
///
/// `status` is the code with its reason phrase, such as `"200 OK"`. A status or content type that
/// is too long for the buffer is left out.
pub fn response_header(status: &str, content_type: &str, content_length: usize) -> (r: FixedString<
    HEADER_CAP,
>)
    ensures
        r@ == response_header_within(status@, content_type@, content_length as nat),
{
    let mut number: BodyWriter<20> = BodyWriter::new();
    number.put_decimal(content_length as u64);
    proof {
        text::lemma_decimal_sizes(content_length as nat);
        assert(number.written() =~= text::decimal(content_length as nat));
    }
    let number = number.finish();
    let mut out = FixedString::new();
    out.push_whole("HTTP/1.1 ");
    out.push_whole(status);
    out.push_whole("\r\nContent-Type: ");
    out.push_whole(content_type);
    out.push_whole("\r\nContent-Length: ");
    out.push_whole(number.as_str());
    out.push_whole("\r\nConnection: close\r\n\r\n");
    out
}

/// The first index in `from..limit` at which `c` stands, or `limit`.
pub open spec fn first_at(request: Seq<char>, c: char, from: int, limit: int) -> int
    decreases limit - from,
{
    if from >= limit {
        limit
    } else if request[from] == c {
        from
    } else {
        first_at(request, c, from + 1, limit)
    }
}

/// The first index from `from` on at which a carriage return with a line feed behind it stands,
/// or the length of the request.
pub open spec fn line_end_from(request: Seq<char>, from: int) -> int
    decreases request.len() - from,
{
    if from + 1 >= request.len() {
        request.len() as int
    } else if request[from] == '\r' && request[from + 1] == '\n' {
        from
    } else {
        line_end_from(request, from + 1)
    }
}

/// Where the request line ends.
pub open spec fn line_end(request: Seq<char>) -> int {
    line_end_from(request, 0)
}

/// Whether the request line begins with the method `GET` and a space.
pub open spec fn is_get(request: Seq<char>) -> bool {
    &&& line_end(request) >= 4
    &&& request[0] == 'G'
    &&& request[1] == 'E'
    &&& request[2] == 'T'
    &&& request[3] == ' '
}

/// Where the target of a `GET` request ends: at the next space, or with the line.
pub open spec fn target_end(request: Seq<char>) -> int {
    first_at(request, ' ', 4, line_end(request))
}

/// The path of a `GET` request: its target up to the query, if the target is not empty.
pub open spec fn request_path(request: Seq<char>) -> Option<Seq<char>> {
    if is_get(request) && target_end(request) > 4 {
        Some(request.subrange(4, first_at(request, '?', 4, target_end(request))))
    } else {
        None
    }
}

/// The result of [`first_at`] lies in its range, and nothing in front of it is the character.
pub proof fn lemma_first_at(request: Seq<char>, c: char, from: int, limit: int)
    requires
        0 <= from <= limit <= request.len(),
    ensures
        from <= first_at(request, c, from, limit) <= limit,
        first_at(request, c, from, limit) < limit ==> request[first_at(request, c, from, limit)]
            == c,
        forall|i: int| from <= i < first_at(request, c, from, limit) ==> request[i] != c,
    decreases limit - from,
{
    if from < limit && request[from] != c {
        lemma_first_at(request, c, from + 1, limit);
    }
}

/// Any index with what [`lemma_first_at`] says is the result of [`first_at`].
proof fn lemma_first_at_unique(request: Seq<char>, c: char, from: int, limit: int, at: int)
    requires
        0 <= from <= at <= limit <= request.len(),
        at < limit ==> request[at] == c,
        forall|i: int| from <= i < at ==> request[i] != c,
    ensures
        first_at(request, c, from, limit) == at,
    decreases limit - from,
{
    if from < at {
        lemma_first_at_unique(request, c, from + 1, limit, at);
    }
}

/// The result of [`line_end_from`] lies in its range, and no line ends in front of it.
pub proof fn lemma_line_end_from(request: Seq<char>, from: int)
    requires
        0 <= from <= request.len(),
    ensures
        from <= line_end_from(request, from) <= request.len(),
        line_end_from(request, from) < request.len() ==> {
            &&& line_end_from(request, from) + 1 < request.len()
            &&& request[line_end_from(request, from)] == '\r'
            &&& request[line_end_from(request, from) + 1] == '\n'
        },
        forall|i: int|
            from <= i < line_end_from(request, from) && i + 1 < request.len() ==> !(
            #[trigger] request[i] == '\r' && request[i + 1] == '\n'),
    decreases request.len() - from,
{
    if from + 1 < request.len() && !(request[from] == '\r' && request[from + 1] == '\n') {
        lemma_line_end_from(request, from + 1);
    }
}

/// Any index with what [`lemma_line_end_from`] says is the result of [`line_end_from`].
proof fn lemma_line_end_unique(request: Seq<char>, from: int, at: int)
    requires
        0 <= from <= at <= request.len(),
        at < request.len() ==> at + 1 < request.len() && request[at] == '\r' && request[at + 1]
            == '\n',
        forall|i: int|
            from <= i < at && i + 1 < request.len() ==> !(#[trigger] request[i] == '\r'
                && request[i + 1] == '\n'),
    ensures
        line_end_from(request, from) == at,
    decreases request.len() - from,
{
    if from < at && from + 1 < request.len() {
        assert(!(request[from] == '\r' && request[from + 1] == '\n'));
        lemma_line_end_unique(request, from + 1, at);
    }
}

/// Find the end of the request line.
fn find_line_end(request: &str) -> (r: usize)
    ensures
        r == line_end(request@),
{
    let length: usize = request.unicode_len();
    let mut index: usize = 0;
    let mut found: Option<usize> = None;
    let mut after_return: bool = false;
    for c in iter: request.chars()
        invariant
            iter.seq() == request@,
            index == iter.index(),
            request@.len() == length,
            after_return == (iter.index() > 0 && request@[iter.index() - 1] == '\r'),
            found matches Some(at) ==> {
                &&& at + 1 < iter.index()
                &&& request@[at as int] == '\r'
                &&& request@[at + 1] == '\n'
                &&& forall|i: int|
                    0 <= i < at ==> !(#[trigger] request@[i] == '\r' && request@[i + 1] == '\n')
            },
            found is None ==> forall|i: int|
                0 <= i < iter.index() - 1 ==> !(#[trigger] request@[i] == '\r' && request@[i + 1]
                    == '\n'),
    {
        if after_return && c == '\n' && found.is_none() {
            found = Some(index - 1);
        }
        after_return = c == '\r';
        index = index + 1;
    }
    let at: usize = match found {
        Some(at) => at,
        None => index,
    };
    proof {
        lemma_line_end_unique(request@, 0, at as int);
    }
    at
}

/// Whether the request line is there in full, with its line break.
pub open spec fn has_whole_line(request: Seq<char>) -> bool {
    line_end(request) < request.len()
}

/// Whether the request line is there in full, with its line break.
pub fn line_is_whole(request: &str) -> (r: bool)
    ensures
        r == has_whole_line(request@),
{
    find_line_end(request) < request.unicode_len()
}

/// Find the first `c` in `from..limit`.
fn find(request: &str, c: char, from: usize, limit: usize) -> (r: usize)
    requires
        from <= limit <= request@.len(),
    ensures
        r == first_at(request@, c, from as int, limit as int),
{
    let mut index: usize = 0;
    let mut at: usize = limit;
    for current in iter: request.chars()
        invariant
            iter.seq() == request@,
            index <= limit,
            from <= at <= limit <= request@.len(),
            index == iter.index() || index == limit <= iter.index(),
            at < limit ==> at < iter.index() && request@[at as int] == c,
            forall|i: int| from <= i < at && i < iter.index() ==> request@[i] != c,
    {
        if index < limit {
            if index >= from && at == limit && current == c {
                at = index;
            }
            index = index + 1;
        }
    }
    proof {
        lemma_first_at_unique(request@, c, from as int, limit as int, at as int);
    }
    at
}

/// The path that a request asks for, without its query.
///
/// Only `GET` is served: for anything else, and for a request line without a target, the result
/// is `None`. Only the request line is looked at, so a request that was read in part is enough.
pub fn parse_request_target(request: &str) -> (r: Option<&str>)
    ensures
        r is Some <==> request_path(request@) is Some,
        r matches Some(path) ==> Some(path@) == request_path(request@),
{
    let end: usize = find_line_end(request);
    proof {
        lemma_line_end_from(request@, 0);
    }
    if end < 4 {
        return None;
    }
    if request.get_char(0) != 'G' || request.get_char(1) != 'E' || request.get_char(2) != 'T'
        || request.get_char(3) != ' ' {
        return None;
    }
    let target: usize = find(request, ' ', 4, end);
    proof {
        lemma_first_at(request@, ' ', 4, end as int);
    }
    if target == 4 {
        return None;
    }
    let query: usize = find(request, '?', 4, target);
    proof {
        lemma_first_at(request@, '?', 4, target as int);
    }
    Some(request.substring_char(4, query))
}

/// A header is complete if its status and content type take no more than 74 bytes together.
pub proof fn response_header_fits(status: Seq<char>, content_type: Seq<char>, content_length: usize)
    requires
        text::utf8_len(status) + text::utf8_len(content_type) <= 74,
    ensures
        response_header_within(status, content_type, content_length as nat)
            == response_header_text(status, content_type, content_length as nat),
{
    reveal_strlit("HTTP/1.1 ");
    reveal_strlit("\r\nContent-Type: ");
    reveal_strlit("\r\nContent-Length: ");
    reveal_strlit("\r\nConnection: close\r\n\r\n");
    let a = "HTTP/1.1 "@;
    let b = "\r\nContent-Type: "@;
    let c = "\r\nContent-Length: "@;
    let d = "\r\nConnection: close\r\n\r\n"@;
    let number = text::decimal(content_length as nat);
    text::lemma_utf8_len_ascii(a);
    text::lemma_utf8_len_ascii(b);
    text::lemma_utf8_len_ascii(c);
    text::lemma_utf8_len_ascii(d);
    assert(content_length < text::power_of_ten(20)) by {
        reveal_with_fuel(text::power_of_ten, 21);
    }
    text::lemma_decimal_len(content_length as nat, 20);
    assert(text::utf8_len(Seq::empty()) == 0);
    assert(Seq::empty() + a =~= a);
    text::lemma_utf8_len_concat(a, status);
    text::lemma_utf8_len_concat(a + status, b);
    text::lemma_utf8_len_concat(a + status + b, content_type);
    text::lemma_utf8_len_concat(a + status + b + content_type, c);
    text::lemma_utf8_len_concat(a + status + b + content_type + c, number);
    text::lemma_utf8_len_concat(a + status + b + content_type + c + number, d);
}

/// The request line ends where the first line break stands.
pub proof fn line_ends_at_the_first_break(line: Seq<char>, rest: Seq<char>)
    requires
        line_end(line) == line.len(),
    ensures
        line_end(line + seq!['\r', '\n'] + rest) == line.len(),
        has_whole_line(line + seq!['\r', '\n'] + rest),
{
    let request = line + seq!['\r', '\n'] + rest;
    let end = line.len() as int;
    lemma_line_end_from(line, 0);
    assert forall|i: int| 0 <= i < end && i + 1 < request.len() implies !(#[trigger] request[i]
        == '\r' && request[i + 1] == '\n') by {
        assert(request[i] == line[i]);
        if i + 1 < end {
            assert(request[i + 1] == line[i + 1]);
        } else {
            assert(request[i + 1] == '\r');
        }
    }
    assert(request[end] == '\r' && request[end + 1] == '\n');
    lemma_line_end_unique(request, 0, end);
}

/// Only the request line counts: what follows it in the request changes nothing.
pub proof fn only_the_request_line_counts(line: Seq<char>, rest: Seq<char>)
    requires
        line_end(line) == line.len(),
    ensures
        request_path(line + seq!['\r', '\n'] + rest) == request_path(line),
{
    let request = line + seq!['\r', '\n'] + rest;
    let end = line.len() as int;
    line_ends_at_the_first_break(line, rest);
    if is_get(line) {
        let target = target_end(line);
        lemma_first_at(line, ' ', 4, end);
        lemma_first_at_unique(request, ' ', 4, end, target);
        let query = first_at(line, '?', 4, target);
        lemma_first_at(line, '?', 4, target);
        lemma_first_at_unique(request, '?', 4, target, query);
        assert(request.subrange(4, query) =~= line.subrange(4, query));
    }
}

/// A `GET` request for a path without space, `?` or line break is read as that path, whether a
/// query follows it or not.
pub proof fn get_request_is_read_back(path: Seq<char>, query: Option<Seq<char>>, rest: Seq<char>)
    requires
        path.len() > 0 || query is Some,
        forall|i: int| 0 <= i < path.len() ==> path[i] != ' ' && path[i] != '?' && path[i] != '\r',
        query matches Some(q) ==> forall|i: int| 0 <= i < q.len() ==> q[i] != ' ' && q[i] != '\r',
    ensures
        request_path(
            "GET "@ + path + (match query {
                Some(q) => seq!['?'] + q,
                None => Seq::empty(),
            }) + seq![' '] + rest,
        ) == Some(path),
{
    reveal_strlit("GET ");
    let tail: Seq<char> = match query {
        Some(q) => seq!['?'] + q,
        None => Seq::empty(),
    };
    let request = "GET "@ + path + tail + seq![' '] + rest;
    let path_end: int = 4 + path.len() as int;
    let space: int = path_end + tail.len();
    assert(request[0] == 'G' && request[1] == 'E' && request[2] == 'T' && request[3] == ' ');
    assert(forall|i: int| 4 <= i < path_end ==> request[i] == path[i - 4]);
    assert(forall|i: int| path_end <= i < space ==> request[i] == tail[i - path_end]);
    assert(request[space] == ' ');
    let end = line_end(request);
    lemma_line_end_from(request, 0);
    assert(end > space);
    lemma_first_at_unique(request, ' ', 4, end, space);
    lemma_first_at_unique(request, '?', 4, space, path_end);
    assert(request.subrange(4, path_end) =~= path);
}

/// A path holds neither a space nor a `?`, nor a line break.
pub proof fn path_is_clean(request: Seq<char>)
    ensures
        request_path(request) matches Some(path) ==> {
            &&& forall|i: int| 0 <= i < path.len() ==> path[i] != ' ' && path[i] != '?'
            &&& forall|i: int|
                0 <= i < path.len() - 1 ==> !(#[trigger] path[i] == '\r' && path[i + 1] == '\n')
        },
{
    if let Some(path) = request_path(request) {
        let end = line_end(request);
        let target = target_end(request);
        lemma_line_end_from(request, 0);
        lemma_first_at(request, ' ', 4, end);
        lemma_first_at(request, '?', 4, target);
        assert(forall|i: int| 0 <= i < path.len() ==> path[i] == request[i + 4]);
    }
}

} // verus!
