//! Incoming HTTP requests: reading them from the bytes a client sent,
//! tagging forwarded requests with an identifier, deciding whether the client
//! takes gzip-compressed responses, and a Lamport clock for numbering them.

use vstd::prelude::*;
use vstd::utf8::{decode_utf8, encode_utf8, is_ascii_chars, is_ascii_chars_encode_utf8, valid_utf8};
use crate::http_calls::{
    blank_request, header_map_room, header_value_byte, insert_header, is_random_uuid, parse_header_value,
    plain_header_name, random_uuid, request_body, request_extension_count, request_headers, request_method,
    request_uri, request_version, uuid_digit, uuid_hyphenated, uuid_text,
};
use crate::http_types::{method_in, method_name, HttpMethod};
use crate::std_text::{
    ascii_lower, ascii_lower_char, ascii_upper, decode_utf8_text, i64_text, integer_text, str_to_lowercase,
    str_to_uppercase, string_from_chars, to_lowercase,
};
use crate::text::{
    char_seqs, chars_equal, chars_of, contains, contains_chars, lines, lines_of, split_on, split_on_chars,
    split_whitespace, split_whitespace_chars, subrange_chars, trim, trim_chars,
};

verus! {

broadcast use vstd::string::group_string_axioms;

/// A Lamport clock: a counter that each event reads and then advances.
#[derive(Debug)]
pub struct Clock {
    lamport_timestamp: i64,
}

impl View for Clock {
    type V = int;

    /// The clock's current time.
    closed spec fn view(&self) -> int {
        self.lamport_timestamp as int
    }
}

impl Clock {
    /// A clock at time 0.
    pub fn new() -> (c: Clock)
        ensures
            c@ == 0,
    {
        return Clock { lamport_timestamp: 0 };
    }

    /// Returns the current time and advances the clock by one.
    pub fn increment_time(&mut self) -> (t: i64)
        requires
            old(self)@ < i64::MAX,
        ensures
            t == old(self)@,
            final(self)@ == old(self)@ + 1,
    {
        let temp: i64 = self.lamport_timestamp;
        self.lamport_timestamp += 1;
        return temp;
    }
}

/// Two successive readings of a clock differ: the second is the first plus one.
pub proof fn lemma_clock_readings_increase(start: Clock, middle: Clock, end: Clock, first: i64, second: i64)
    requires
        first == start@,
        middle@ == start@ + 1,
        second == middle@,
        end@ == middle@ + 1,
    ensures
        first < second,
        second == first + 1,
        end@ == start@ + 2,
{
}

/// A request as the balancer reads it from a client.
pub struct HttpRequest {
    pub request_id: i64,
    pub client_ip: String,
    pub headers: Vec<String>,
    pub body: String,
    pub method: HttpMethod,
    pub uri: String,
}

/// The character sequences held by a list of strings.
pub open spec fn string_seqs(ss: Seq<String>) -> Seq<Seq<char>> {
    ss.map_values(|s: String| s@)
}

/// The lines of the text that a buffer encodes.
pub open spec fn request_lines(buffer: Seq<u8>) -> Seq<Seq<char>> {
    lines(decode_utf8(buffer))
}

/// The whitespace-separated tokens of the first line.
pub open spec fn request_line_tokens(buffer: Seq<u8>) -> Seq<Seq<char>> {
    split_whitespace(request_lines(buffer)[0])
}

/// A buffer that `HttpRequest::new` accepts: valid UTF-8, and, when it has
/// three lines or more, a first line with at least a method and a URI (the
/// first two tokens are read from it).
pub open spec fn readable_request(buffer: Seq<u8>) -> bool {
    &&& valid_utf8(buffer)
    &&& request_lines(buffer).len() >= 3 ==> request_line_tokens(buffer).len() >= 2
}

/// The URI that requests for the site icon are redirected to the root.
pub open spec fn normalized_uri(uri: Seq<char>) -> Seq<char> {
    if uri == "/favicon.ico"@ {
        "/"@
    } else {
        uri
    }
}

/// Only the site icon's URI is changed, to the root; every other URI is
/// kept exactly as it was sent, query string and all.
pub proof fn lemma_uri_kept_unless_icon(uri: Seq<char>)
    ensures
        uri != "/favicon.ico"@ ==> normalized_uri(uri) == uri,
        normalized_uri("/favicon.ico"@) == "/"@,
{
}

/// The index of the first empty line, or the number of lines if none is empty.
pub open spec fn first_blank(ls: Seq<Seq<char>>) -> int
    decreases ls.len(),
{
    if ls.len() == 0 {
        0
    } else if ls[0].len() == 0 {
        0
    } else {
        1 + first_blank(ls.drop_first())
    }
}

/// Lines joined together, with nothing between them.
pub open spec fn joined(ls: Seq<Seq<char>>) -> Seq<char>
    decreases ls.len(),
{
    if ls.len() == 0 {
        seq![]
    } else {
        joined(ls.drop_last()) + ls.last()
    }
}

/// The header lines of a request: the lines after the first, up to the
/// first empty one.
pub open spec fn header_lines(buffer: Seq<u8>) -> Seq<Seq<char>> {
    let rest = request_lines(buffer).drop_first();
    rest.take(first_blank(rest))
}

/// The body of a request: the lines after the first empty one, joined.
pub open spec fn body_text(buffer: Seq<u8>) -> Seq<char> {
    let rest = request_lines(buffer).drop_first();
    joined(rest.skip(first_blank(rest)))
}

/// `first_blank` lies between zero and the number of lines.
proof fn lemma_first_blank_bounds(ls: Seq<Seq<char>>)
    ensures
        0 <= first_blank(ls) <= ls.len(),
    decreases ls.len(),
{
    if ls.len() > 0 && ls[0].len() > 0 {
        lemma_first_blank_bounds(ls.drop_first());
    }
}

/// Joining lines is associative over any cut: the lines before the cut
/// joined, then the lines after it joined.
pub proof fn lemma_joined_split(ls: Seq<Seq<char>>, i: int)
    requires
        0 <= i <= ls.len(),
    ensures
        joined(ls) == joined(ls.take(i)) + joined(ls.skip(i)),
    decreases ls.len() - i,
{
    if i == ls.len() {
        assert(ls.take(i) =~= ls);
        assert(ls.skip(i) =~= Seq::<Seq<char>>::empty());
        assert(joined(ls) + Seq::<char>::empty() =~= joined(ls));
    } else {
        lemma_joined_split(ls, i + 1);
        let tail = ls.skip(i);
        assert(tail.drop_last() =~= ls.subrange(i, ls.len() - 1));
        lemma_joined_split_last(ls, i);
    }
}

/// Joining the lines from `i` on: the line at `i`, then the rest joined.
proof fn lemma_joined_split_last(ls: Seq<Seq<char>>, i: int)
    requires
        0 <= i < ls.len(),
        joined(ls) == joined(ls.take(i + 1)) + joined(ls.skip(i + 1)),
    ensures
        joined(ls) == joined(ls.take(i)) + joined(ls.skip(i)),
{
    assert(ls.take(i + 1).drop_last() =~= ls.take(i));
    assert(ls.take(i + 1).last() == ls[i]);
    lemma_joined_front(ls.skip(i));
    assert(ls.skip(i).drop_first() =~= ls.skip(i + 1));
    assert(joined(ls.take(i)) + ls[i] + joined(ls.skip(i + 1)) =~= joined(ls.take(i)) + (ls[i] + joined(
        ls.skip(i + 1),
    )));
}

/// Joining lines: the first line, then the others joined.
proof fn lemma_joined_front(ls: Seq<Seq<char>>)
    requires
        ls.len() > 0,
    ensures
        joined(ls) == ls[0] + joined(ls.drop_first()),
    decreases ls.len(),
{
    if ls.len() == 1 {
        assert(ls.drop_last() =~= Seq::<Seq<char>>::empty());
        assert(ls.drop_first() =~= Seq::<Seq<char>>::empty());
        assert(joined(ls.drop_first()) == Seq::<char>::empty());
        assert(joined(ls.drop_last()) == Seq::<char>::empty());
        assert(ls[0] + Seq::<char>::empty() =~= ls[0]);
        assert(Seq::<char>::empty() + ls.last() =~= ls.last());
    } else {
        lemma_joined_front(ls.drop_last());
        assert(ls.drop_last().drop_first() =~= ls.drop_first().drop_last());
        assert(ls.drop_first().last() == ls.last());
        assert(ls.drop_last()[0] == ls[0]);
        assert(ls[0] + joined(ls.drop_first().drop_last()) + ls.last() =~= ls[0] + (joined(
            ls.drop_first().drop_last(),
        ) + ls.last()));
    }
}

/// The header lines are the lines after the request line up to, not
/// including, the first empty one; the body is every line after that empty
/// line, joined in order; with no empty line there is no body.
pub proof fn lemma_headers_and_body(buffer: Seq<u8>)
    ensures
        ({
            let rest = request_lines(buffer).drop_first();
            let h = header_lines(buffer);
            &&& h.len() <= rest.len()
            &&& forall|i: int| 0 <= i < h.len() ==> #[trigger] h[i] == rest[i] && h[i].len() > 0
            &&& h.len() < rest.len() ==> rest[h.len() as int].len() == 0
            &&& h.len() == rest.len() ==> body_text(buffer) == Seq::<char>::empty()
            &&& h.len() < rest.len() ==> body_text(buffer) == joined(rest.skip(h.len() + 1int))
        }),
{
    let rest = request_lines(buffer).drop_first();
    let k = first_blank(rest);
    lemma_first_blank_bounds(rest);
    lemma_first_blank_before(rest);
    lemma_first_blank_at(rest);
    if k == rest.len() {
        assert(rest.skip(k) =~= Seq::<Seq<char>>::empty());
    } else {
        lemma_joined_front(rest.skip(k));
        assert(rest.skip(k)[0] == rest[k]);
        assert(rest.skip(k).drop_first() =~= rest.skip(k + 1));
        assert(rest[k] + joined(rest.skip(k + 1)) =~= joined(rest.skip(k + 1)));
    }
}

/// `first_blank`, when it is an index, points at an empty line.
proof fn lemma_first_blank_at(ls: Seq<Seq<char>>)
    ensures
        first_blank(ls) < ls.len() ==> ls[first_blank(ls)].len() == 0,
    decreases ls.len(),
{
    if ls.len() > 0 && ls[0].len() > 0 {
        lemma_first_blank_at(ls.drop_first());
        lemma_first_blank_bounds(ls.drop_first());
        if first_blank(ls) < ls.len() {
            assert(ls[first_blank(ls)] == ls.drop_first()[first_blank(ls.drop_first())]);
        }
    }
}

/// `first_blank` is the index of the first empty line.
proof fn lemma_first_blank(ls: Seq<Seq<char>>, k: int)
    requires
        0 <= k <= ls.len(),
        forall|m: int| 0 <= m < k ==> #[trigger] ls[m].len() > 0,
        k == ls.len() || ls[k].len() == 0,
    ensures
        first_blank(ls) == k,
    decreases ls.len(),
{
    if ls.len() > 0 && k > 0 {
        assert forall|m: int| 0 <= m < k - 1 implies #[trigger] ls.drop_first()[m].len() > 0 by {
            assert(ls.drop_first()[m] == ls[m + 1]);
        }
        lemma_first_blank(ls.drop_first(), k - 1);
    }
}

/// No header line of a request is empty: the first empty line ends the
/// headers.
pub proof fn lemma_header_lines_not_empty(buffer: Seq<u8>)
    ensures
        forall|i: int| 0 <= i < header_lines(buffer).len() ==> #[trigger] header_lines(buffer)[i].len() > 0,
{
    let rest = request_lines(buffer).drop_first();
    lemma_first_blank_bounds(rest);
    lemma_first_blank_before(rest);
}

/// Every line before `first_blank` is non-empty.
proof fn lemma_first_blank_before(ls: Seq<Seq<char>>)
    ensures
        forall|m: int| 0 <= m < first_blank(ls) ==> #[trigger] ls[m].len() > 0,
    decreases ls.len(),
{
    lemma_first_blank_bounds(ls);
    if ls.len() > 0 && ls[0].len() > 0 {
        lemma_first_blank_before(ls.drop_first());
        assert forall|m: int| 0 <= m < first_blank(ls) implies #[trigger] ls[m].len() > 0 by {
            if m > 0 {
                assert(ls[m] == ls.drop_first()[m - 1]);
            }
        }
    }
}

impl HttpRequest {
    /// Reads a request from the bytes a client sent.
    ///
    /// The text must have at least three lines, else the result is the error
    /// `Invalid request`. The first line gives the method (its first token,
    /// read by `HttpMethod::new`) and the URI (its second token, with
    /// `/favicon.ico` taken as `/`). The lines after it, up to the first
    /// empty one, are the headers; the lines after that empty one, joined,
    /// are the body.
    pub fn new(buffer: &[u8], client_ip: String, request_id: i64) -> (r: Result<HttpRequest, String>)
        requires
            readable_request(buffer@),
        ensures
            match r {
                Err(e) => request_lines(buffer@).len() < 3 && e@ == "Invalid request"@,
                Ok(req) => {
                    let tokens = request_line_tokens(buffer@);
                    &&& request_lines(buffer@).len() >= 3
                    &&& req.request_id == request_id
                    &&& req.client_ip == client_ip
                    &&& req.method == method_in(str_to_uppercase(tokens[0]))
                    &&& is_ascii_chars(tokens[0]) ==> req.method == method_in(ascii_upper(tokens[0]))
                    &&& req.uri@ == normalized_uri(tokens[1])
                    &&& string_seqs(req.headers@) == header_lines(buffer@)
                    &&& req.body@ == body_text(buffer@)
                }
            },
    {
        let text = decode_utf8_text(buffer).unwrap();
        let chars = chars_of(text.as_str());
        let request = lines_of(&chars);
        if request.len() < 3 {
            return Err("Invalid request".to_string());
        }
        let ghost all = char_seqs(request@);
        let first_line = split_whitespace_chars(&request[0]);
        assert(all[0] == request@[0]@);
        let method = HttpMethod::new(string_from_chars(&first_line[0]).as_str());
        let mut uri = string_from_chars(&first_line[1]);
        if uri == "/favicon.ico".to_string() {
            uri = "/".to_string();
        }
        let mut headers: Vec<String> = Vec::new();
        let mut body = String::new();
        let mut flag = false;
        let ghost rest = all.drop_first();
        let mut i: usize = 1;
        proof {
            lemma_first_blank_bounds(rest);
        }
        while i < request.len()
            invariant
                1 <= i <= request.len(),
                all == char_seqs(request@),
                rest == all.drop_first(),
                rest.len() + 1 == request.len(),
                !flag ==> {
                    &&& forall|m: int| 0 <= m < i - 1 ==> #[trigger] rest[m].len() > 0
                    &&& string_seqs(headers@) == rest.take(i - 1)
                    &&& body@ == Seq::<char>::empty()
                },
                flag ==> {
                    &&& 0 <= first_blank(rest) < i - 1
                    &&& string_seqs(headers@) == rest.take(first_blank(rest))
                    &&& body@ == joined(rest.subrange(first_blank(rest), i - 1))
                },
            decreases request.len() - i,
        {
            let line = &request[i];
            assert(rest[i - 1] == line@);
            if line.len() == 0 {
                if !flag {
                    proof {
                        lemma_first_blank(rest, i - 1);
                        let one = rest.subrange(i - 1, i as int);
                        assert(one.drop_last() =~= Seq::<Seq<char>>::empty());
                        assert(one.last() == rest[i - 1]);
                        assert(joined(one.drop_last()) == Seq::<char>::empty());
                        assert(joined(one) =~= Seq::<char>::empty());
                    }
                } else {
                    proof {
                        let k = first_blank(rest);
                        assert(rest.subrange(k, i as int).drop_last() =~= rest.subrange(k, i - 1));
                        assert(rest.subrange(k, i as int).last() == rest[i - 1]);
                        assert(joined(rest.subrange(k, i as int)) =~= body@);
                    }
                }
                flag = true;
            } else if flag {
                body.append(string_from_chars(line).as_str());
                proof {
                    let k = first_blank(rest);
                    assert(rest.subrange(k, i as int).drop_last() =~= rest.subrange(k, i - 1));
                    assert(rest.subrange(k, i as int).last() == rest[i - 1]);
                    assert(body@ =~= joined(rest.subrange(k, i as int)));
                }
            } else {
                let ghost before = string_seqs(headers@);
                headers.push(string_from_chars(line));
                assert(string_seqs(headers@) =~= before.push(line@));
                assert(rest.take(i as int) =~= rest.take(i - 1).push(line@));
            }
            i = i + 1;
        }
        proof {
            if !flag {
                assert(rest.len() == i - 1);
                lemma_first_blank(rest, rest.len() as int);
                assert(rest.take(i - 1) =~= rest.take(first_blank(rest)));
                assert(rest.skip(first_blank(rest)) =~= Seq::<Seq<char>>::empty());
            } else {
                assert(rest.subrange(first_blank(rest), i - 1) =~= rest.skip(first_blank(rest)));
            }
        }
        return Ok(HttpRequest { request_id, client_ip, headers, body, method, uri });
    }
}


/// What a header line says about gzip-compressed responses, or that no
/// decision comes from it.
#[derive(Debug, PartialEq, Eq, Structural)]
pub enum CompressionVerdict {
    /// The line decides nothing; the next line is read.
    Undecided,
    /// The client takes gzip.
    Supported,
    /// The client must not get compressed responses.
    Unsupported,
    /// An `accept-encoding` line without the second token that is read from
    /// it; `is_compression_supported` requires that no such line decides.
    Malformed,
}

/// The verdict of one header line, given the line mapped to lowercase
/// (`lower`) and that text mapped to lowercase once more (`relower`).
///
/// A line that mentions `firefox` rules compression out. A line that
/// mentions `accept-encoding` and holds a comma is split at `, `, each piece
/// trimmed, the first piece replaced by its second whitespace-separated
/// token; gzip is taken if any piece mentions `gzip`. A line that mentions
/// `accept-encoding` without a comma takes gzip if the second token of
/// `relower` is `gzip`.
pub open spec fn header_verdict(lower: Seq<char>, relower: Seq<char>) -> CompressionVerdict {
    if contains(lower, "firefox"@) {
        CompressionVerdict::Unsupported
    } else if contains(lower, "accept-encoding"@) {
        if contains(lower, ","@) {
            let pieces = split_on(lower, ", "@).map_values(|p: Seq<char>| trim(p));
            let first = split_whitespace(pieces[0]);
            if first.len() < 2 {
                CompressionVerdict::Malformed
            } else {
                let encodings = pieces.update(0, first[1]);
                if exists|k: int| 0 <= k < encodings.len() && contains(#[trigger] encodings[k], "gzip"@) {
                    CompressionVerdict::Supported
                } else {
                    CompressionVerdict::Undecided
                }
            }
        } else {
            let tokens = split_whitespace(relower);
            if tokens.len() < 2 {
                CompressionVerdict::Malformed
            } else if tokens[1] == "gzip"@ {
                CompressionVerdict::Supported
            } else {
                CompressionVerdict::Undecided
            }
        }
    } else {
        CompressionVerdict::Undecided
    }
}

/// The verdict of a list of header lines: that of the first line that
/// decides something, read in order.
pub open spec fn compression_verdict(lowers: Seq<Seq<char>>, relowers: Seq<Seq<char>>) -> CompressionVerdict
    decreases lowers.len(),
{
    if lowers.len() == 0 {
        CompressionVerdict::Undecided
    } else {
        let v = header_verdict(lowers[0], relowers[0]);
        if v is Undecided {
            compression_verdict(lowers.drop_first(), relowers.drop_first())
        } else {
            v
        }
    }
}

/// Each line mapped to lowercase.
pub open spec fn lowered(lines: Seq<Seq<char>>) -> Seq<Seq<char>> {
    lines.map_values(|l: Seq<char>| str_to_lowercase(l))
}

/// The verdict of a request's header lines.
pub open spec fn headers_verdict(headers: Seq<String>) -> CompressionVerdict {
    let lowers = lowered(string_seqs(headers));
    compression_verdict(lowers, lowered(lowers))
}

/// Once a header line decides, the lines after it do not matter: adding
/// lines at the end leaves a decided verdict as it is.
pub proof fn lemma_decided_verdict_ignores_later_lines(
    lowers: Seq<Seq<char>>,
    relowers: Seq<Seq<char>>,
    more_lowers: Seq<Seq<char>>,
    more_relowers: Seq<Seq<char>>,
)
    requires
        lowers.len() == relowers.len(),
        !(compression_verdict(lowers, relowers) is Undecided),
    ensures
        compression_verdict(lowers + more_lowers, relowers + more_relowers) == compression_verdict(
            lowers,
            relowers,
        ),
    decreases lowers.len(),
{
    if lowers.len() > 0 {
        assert((lowers + more_lowers)[0] == lowers[0]);
        assert((relowers + more_relowers)[0] == relowers[0]);
        if header_verdict(lowers[0], relowers[0]) is Undecided {
            assert((lowers + more_lowers).drop_first() =~= lowers.drop_first() + more_lowers);
            assert((relowers + more_relowers).drop_first() =~= relowers.drop_first() + more_relowers);
            lemma_decided_verdict_ignores_later_lines(
                lowers.drop_first(),
                relowers.drop_first(),
                more_lowers,
                more_relowers,
            );
        }
    }
}

/// Whether every line is ASCII text.
pub open spec fn ascii_lines(lines: Seq<Seq<char>>) -> bool {
    forall|i: int| 0 <= i < lines.len() ==> is_ascii_chars(#[trigger] lines[i])
}

/// Each line with its ASCII uppercase letters mapped to lowercase.
pub open spec fn ascii_lowered(lines: Seq<Seq<char>>) -> Seq<Seq<char>> {
    lines.map_values(|l: Seq<char>| ascii_lower(l))
}

/// The verdict of ASCII header lines, whose lowercase forms are their ASCII
/// lowercase forms.
pub open spec fn ascii_headers_verdict(lines: Seq<Seq<char>>) -> CompressionVerdict {
    let lowers = ascii_lowered(lines);
    compression_verdict(lowers, ascii_lowered(lowers))
}

/// ASCII text stays ASCII when mapped to lowercase.
proof fn lemma_ascii_lower_is_ascii(s: Seq<char>)
    requires
        is_ascii_chars(s),
    ensures
        is_ascii_chars(ascii_lower(s)),
{
    assert forall|i: int| 0 <= i < ascii_lower(s).len() implies '\0' <= #[trigger] ascii_lower(s)[i] <= '\u{7f}' by {
        assert(is_ascii_chars(s) ==> '\0' <= s[i] <= '\u{7f}');
    }
}

/// The case of ASCII header lines does not change the gzip answer: header
/// lines that agree once mapped to ASCII lowercase give the same verdict.
/// (With `is_compression_supported`'s contract: two requests whose ASCII
/// header lines differ only in case get the same answer; nothing but the
/// header lines is read.)
pub proof fn lemma_gzip_answer_ignores_ascii_case(lines: Seq<Seq<char>>, others: Seq<Seq<char>>)
    requires
        lines.len() == others.len(),
        forall|i: int| 0 <= i < lines.len() ==> ascii_lower(#[trigger] lines[i]) == ascii_lower(others[i]),
    ensures
        ascii_headers_verdict(lines) == ascii_headers_verdict(others),
{
    assert(ascii_lowered(lines) =~= ascii_lowered(others));
}

/// How one header line decides, case by case: a line mentioning `firefox`
/// rules gzip out; a line not mentioning `accept-encoding` decides nothing;
/// an `accept-encoding` line without a comma takes gzip exactly when its
/// second token is `gzip`; an `accept-encoding` line with commas takes gzip
/// exactly when some entry of its `, `-separated list mentions `gzip`,
/// whatever its position (the first entry read after the header's name).
/// A line missing the token that is read is malformed.
pub proof fn lemma_header_verdict_cases(lower: Seq<char>, relower: Seq<char>)
    ensures
        contains(lower, "firefox"@) ==> header_verdict(lower, relower) is Unsupported,
        !contains(lower, "firefox"@) && !contains(lower, "accept-encoding"@) ==> header_verdict(lower, relower) is Undecided,
        ({
            let tokens = split_whitespace(relower);
            !contains(lower, "firefox"@) && contains(lower, "accept-encoding"@) && !contains(lower, ","@) ==> {
                &&& tokens.len() < 2 ==> header_verdict(lower, relower) is Malformed
                &&& tokens.len() >= 2 && tokens[1] == "gzip"@ ==> header_verdict(lower, relower) is Supported
                &&& tokens.len() >= 2 && tokens[1] != "gzip"@ ==> header_verdict(lower, relower) is Undecided
            }
        }),
        ({
            let pieces = split_on(lower, ", "@);
            let first = split_whitespace(trim(pieces[0]));
            !contains(lower, "firefox"@) && contains(lower, "accept-encoding"@) && contains(lower, ","@) ==> {
                &&& first.len() < 2 ==> header_verdict(lower, relower) is Malformed
                &&& first.len() >= 2 && contains(first[1], "gzip"@) ==> header_verdict(lower, relower) is Supported
                &&& forall|k: int|
                    1 <= k < pieces.len() && first.len() >= 2 && contains(trim(#[trigger] pieces[k]), "gzip"@)
                        ==> header_verdict(lower, relower) is Supported
                &&& first.len() >= 2 && !contains(first[1], "gzip"@) && (forall|k: int|
                    1 <= k < pieces.len() ==> !contains(trim(#[trigger] pieces[k]), "gzip"@))
                    ==> header_verdict(lower, relower) is Undecided
            }
        }),
{
    crate::text::lemma_split_on_nonempty(lower, ", "@);
    let pieces = split_on(lower, ", "@);
    let trimmed = pieces.map_values(|p: Seq<char>| trim(p));
    let first = split_whitespace(trim(pieces[0]));
    if first.len() >= 2 && !contains(lower, "firefox"@) && contains(lower, "accept-encoding"@) && contains(
        lower,
        ","@,
    ) {
        let encodings = trimmed.update(0, first[1]);
        assert(encodings[0] == first[1]);
        assert forall|k: int| 1 <= k < pieces.len() implies #[trigger] encodings[k] == trim(pieces[k]) by {}
        assert forall|k: int|
            1 <= k < pieces.len() && contains(trim(#[trigger] pieces[k]), "gzip"@) implies header_verdict(
                lower,
                relower,
            ) is Supported by {
            assert(contains(encodings[k], "gzip"@));
        }
        if exists|k: int| 0 <= k < encodings.len() && contains(#[trigger] encodings[k], "gzip"@) {
            let k = choose|k: int| 0 <= k < encodings.len() && contains(#[trigger] encodings[k], "gzip"@);
            if k > 0 {
                assert(contains(trim(pieces[k]), "gzip"@));
            }
        }
    }
}

/// Over a list of header lines, the first line that decides something
/// decides; when no line decides, nothing is decided.
pub proof fn lemma_first_deciding_line(lowers: Seq<Seq<char>>, relowers: Seq<Seq<char>>, i: int)
    requires
        lowers.len() == relowers.len(),
        0 <= i <= lowers.len(),
        forall|j: int| 0 <= j < i ==> #[trigger] header_verdict(lowers[j], relowers[j]) is Undecided,
        i == lowers.len() || !(header_verdict(lowers[i], relowers[i]) is Undecided),
    ensures
        i == lowers.len() ==> compression_verdict(lowers, relowers) is Undecided,
        i < lowers.len() ==> compression_verdict(lowers, relowers) == header_verdict(lowers[i], relowers[i]),
    decreases lowers.len(),
{
    if lowers.len() > 0 && i > 0 {
        assert(header_verdict(lowers[0], relowers[0]) is Undecided);
        assert forall|j: int| 0 <= j < i - 1 implies #[trigger] header_verdict(
            lowers.drop_first()[j],
            relowers.drop_first()[j],
        ) is Undecided by {
            assert(lowers.drop_first()[j] == lowers[j + 1]);
            assert(relowers.drop_first()[j] == relowers[j + 1]);
            assert(header_verdict(lowers[j + 1], relowers[j + 1]) is Undecided);
        }
        lemma_first_deciding_line(lowers.drop_first(), relowers.drop_first(), i - 1);
    }
}

/// The verdict of one header line.
#[verifier::loop_isolation(false)]
fn header_verdict_of(lower: &Vec<char>, relower: &Vec<char>) -> (v: CompressionVerdict)
    ensures
        v == header_verdict(lower@, relower@),
{
    if contains_chars(lower, &chars_of("firefox")) {
        return CompressionVerdict::Unsupported;
    }
    if !contains_chars(lower, &chars_of("accept-encoding")) {
        return CompressionVerdict::Undecided;
    }
    let gzip = chars_of("gzip");
    if contains_chars(lower, &chars_of(",")) {
        let separator = chars_of(", ");
        proof {
            reveal_strlit(", ");
        }
        let pieces = split_on_chars(lower, &separator);
        let ghost trimmed = split_on(lower@, ", "@).map_values(|p: Seq<char>| trim(p));
        let mut encodings: Vec<Vec<char>> = Vec::new();
        let mut k: usize = 0;
        while k < pieces.len()
            invariant
                k <= pieces.len(),
                char_seqs(pieces@) == split_on(lower@, ", "@),
                trimmed == split_on(lower@, ", "@).map_values(|p: Seq<char>| trim(p)),
                char_seqs(encodings@) == trimmed.take(k as int),
            decreases pieces.len() - k,
        {
            let ghost before = char_seqs(encodings@);
            let piece = trim_chars(&pieces[k]);
            assert(piece@ == trimmed[k as int]);
            encodings.push(piece);
            assert(char_seqs(encodings@) =~= before.push(trimmed[k as int]));
            assert(trimmed.take(k + 1) =~= trimmed.take(k as int).push(trimmed[k as int]));
            k = k + 1;
        }
        assert(trimmed.take(pieces.len() as int) =~= trimmed);
        proof {
            crate::text::lemma_split_on_nonempty(lower@, ", "@);
        }
        assert(encodings@[0]@ == trimmed[0]);
        let first = split_whitespace_chars(&encodings[0]);
        if first.len() < 2 {
            return CompressionVerdict::Malformed;
        }
        let second = subrange_chars(&first[1], 0, first[1].len());
        assert(second@ =~= first@[1]@);
        let ghost before = char_seqs(encodings@);
        encodings.set(0, second);
        let ghost chosen = trimmed.update(0, split_whitespace(trimmed[0])[1]);
        assert(char_seqs(encodings@) =~= chosen);
        let mut j: usize = 0;
        while j < encodings.len()
            invariant
                j <= encodings.len(),
                char_seqs(encodings@) == chosen,
                gzip@ == "gzip"@,
                forall|m: int| 0 <= m < j ==> !contains(#[trigger] chosen[m], "gzip"@),
            decreases encodings.len() - j,
        {
            assert(encodings@[j as int]@ == chosen[j as int]);
            if contains_chars(&encodings[j], &gzip) {
                assert(contains(chosen[j as int], "gzip"@));
                assert(exists|k: int| 0 <= k < chosen.len() && contains(#[trigger] chosen[k], "gzip"@));
                return CompressionVerdict::Supported;
            }
            j = j + 1;
        }
        CompressionVerdict::Undecided
    } else {
        let tokens = split_whitespace_chars(relower);
        if tokens.len() < 2 {
            return CompressionVerdict::Malformed;
        }
        assert(tokens@[1]@ == split_whitespace(relower@)[1]);
        if chars_equal(&tokens[1], &gzip) {
            CompressionVerdict::Supported
        } else {
            CompressionVerdict::Undecided
        }
    }
}

/// The verdict of a list of header lines, given each line mapped to
/// lowercase and each of those mapped to lowercase once more.
pub fn compression_verdict_of(lowers: &Vec<String>, relowers: &Vec<String>) -> (v: CompressionVerdict)
    requires
        lowers.len() == relowers.len(),
    ensures
        v == compression_verdict(string_seqs(lowers@), string_seqs(relowers@)),
{
    let ghost ls = string_seqs(lowers@);
    let ghost rs = string_seqs(relowers@);
    let mut i: usize = 0;
    assert(ls.skip(0) =~= ls);
    assert(rs.skip(0) =~= rs);
    while i < lowers.len()
        invariant
            lowers.len() == relowers.len(),
            i <= lowers.len(),
            ls == string_seqs(lowers@),
            rs == string_seqs(relowers@),
            compression_verdict(ls, rs) == compression_verdict(ls.skip(i as int), rs.skip(i as int)),
        decreases lowers.len() - i,
    {
        let lower = chars_of(lowers[i].as_str());
        let relower = chars_of(relowers[i].as_str());
        let v = header_verdict_of(&lower, &relower);
        assert(ls.skip(i as int)[0] == ls[i as int]);
        assert(rs.skip(i as int)[0] == rs[i as int]);
        assert(ls.skip(i as int).drop_first() =~= ls.skip(i + 1));
        assert(rs.skip(i as int).drop_first() =~= rs.skip(i + 1));
        match v {
            CompressionVerdict::Undecided => {},
            _ => {
                return v;
            },
        }
        i = i + 1;
    }
    CompressionVerdict::Undecided
}

impl HttpRequest {
    /// Every header line mapped to lowercase, and each of those mapped to
    /// lowercase once more.
    fn lowered_headers(&self) -> (r: (Vec<String>, Vec<String>))
        ensures
            string_seqs(r.0@) == lowered(string_seqs(self.headers@)),
            string_seqs(r.1@) == lowered(lowered(string_seqs(self.headers@))),
            ascii_lines(string_seqs(self.headers@)) ==> string_seqs(r.0@) == ascii_lowered(
                string_seqs(self.headers@),
            ),
            ascii_lines(string_seqs(self.headers@)) ==> string_seqs(r.1@) == ascii_lowered(
                ascii_lowered(string_seqs(self.headers@)),
            ),
    {
        let mut lowers: Vec<String> = Vec::new();
        let mut relowers: Vec<String> = Vec::new();
        let ghost hs = string_seqs(self.headers@);
        let mut i: usize = 0;
        while i < self.headers.len()
            invariant
                i <= self.headers.len(),
                hs == string_seqs(self.headers@),
                string_seqs(lowers@) == lowered(hs).take(i as int),
                string_seqs(relowers@) == lowered(lowered(hs)).take(i as int),
                ascii_lines(hs) ==> string_seqs(lowers@) == ascii_lowered(hs).take(i as int),
                ascii_lines(hs) ==> string_seqs(relowers@) == ascii_lowered(ascii_lowered(hs)).take(i as int),
            decreases self.headers.len() - i,
        {
            let lower = to_lowercase(self.headers[i].as_str());
            proof {
                if ascii_lines(hs) {
                    assert(is_ascii_chars(hs[i as int]));
                    lemma_ascii_lower_is_ascii(hs[i as int]);
                }
            }
            let relower = to_lowercase(lower.as_str());
            let ghost before_l = string_seqs(lowers@);
            let ghost before_r = string_seqs(relowers@);
            let ghost l = lower@;
            let ghost r = relower@;
            lowers.push(lower);
            relowers.push(relower);
            assert(string_seqs(lowers@) =~= before_l.push(l));
            assert(string_seqs(relowers@) =~= before_r.push(r));
            assert(lowered(hs).take(i + 1) =~= lowered(hs).take(i as int).push(l));
            assert(lowered(lowered(hs)).take(i + 1) =~= lowered(lowered(hs)).take(i as int).push(r));
            assert(ascii_lowered(hs).take(i + 1) =~= ascii_lowered(hs).take(i as int).push(ascii_lower(hs[i as int])));
            assert(ascii_lowered(ascii_lowered(hs)).take(i + 1) =~= ascii_lowered(ascii_lowered(hs)).take(
                i as int,
            ).push(ascii_lower(ascii_lower(hs[i as int]))));
            i = i + 1;
        }
        assert(lowered(hs).take(i as int) =~= lowered(hs));
        assert(lowered(lowered(hs)).take(i as int) =~= lowered(lowered(hs)));
        assert(ascii_lowered(hs).take(i as int) =~= ascii_lowered(hs));
        assert(ascii_lowered(ascii_lowered(hs)).take(i as int) =~= ascii_lowered(ascii_lowered(hs)));
        (lowers, relowers)
    }

    /// Whether the client takes gzip-compressed responses, or `None` where a
    /// malformed header line decides (the case that `is_compression_supported`
    /// requires not to arise).
    pub fn try_is_compression_supported(&self) -> (r: Option<bool>)
        ensures
            r is None <==> headers_verdict(self.headers@) is Malformed,
            r matches Some(b) ==> b == (headers_verdict(self.headers@) is Supported),
            ascii_lines(string_seqs(self.headers@)) ==> (r is None <==> ascii_headers_verdict(
                string_seqs(self.headers@),
            ) is Malformed),
            ascii_lines(string_seqs(self.headers@)) ==> (r matches Some(b) ==> b == (ascii_headers_verdict(
                string_seqs(self.headers@),
            ) is Supported)),
    {
        let (lowers, relowers) = self.lowered_headers();
        let v = compression_verdict_of(&lowers, &relowers);
        match v {
            CompressionVerdict::Malformed => None,
            _ => Some(self.is_compression_supported()),
        }
    }

    /// Whether the client takes gzip-compressed responses: the header lines
    /// are read in order, and the first that decides something decides;
    /// when none does, it does not.
    pub fn is_compression_supported(&self) -> (b: bool)
        requires
            !(headers_verdict(self.headers@) is Malformed),
        ensures
            b == (headers_verdict(self.headers@) is Supported),
            ascii_lines(string_seqs(self.headers@)) ==> b == (ascii_headers_verdict(
                string_seqs(self.headers@),
            ) is Supported),
    {
        let (lowers, relowers) = self.lowered_headers();
        match compression_verdict_of(&lowers, &relowers) {
            CompressionVerdict::Supported => true,
            _ => false,
        }
    }
}


/// The one-line summary of a request: its method, path, identifier and client.
pub open spec fn request_summary(r: HttpRequest) -> Seq<char> {
    "Request: {method: "@ + method_name(r.method) + ", path: "@ + r.uri@ + ", request_id: "@
        + integer_text(r.request_id as int) + ",client_ip: "@ + r.client_ip@ + "}"@
}

/// The summary of a request, read piece by piece: after `Request: {method: `
/// stands the request's own method name, after `, path: ` its URI, after
/// `, request_id: ` its identifier in decimal, after `,client_ip: ` the
/// client's address, and a closing `}` ends it.
pub proof fn lemma_request_summary_fields(r: HttpRequest)
    ensures
        ({
            let s = request_summary(r);
            let m = method_name(r.method);
            let u = r.uri@;
            let d = integer_text(r.request_id as int);
            let ip = r.client_ip@;
            let o1: int = 18 + m.len() as int;
            let o2: int = o1 + 8 + u.len();
            let o3: int = o2 + 14 + d.len();
            let o4: int = o3 + 12 + ip.len();
            &&& s.len() == o4 + 1
            &&& s.subrange(0, 18) == "Request: {method: "@
            &&& s.subrange(18, o1) == m
            &&& s.subrange(o1, o1 + 8) == ", path: "@
            &&& s.subrange(o1 + 8, o2) == u
            &&& s.subrange(o2, o2 + 14) == ", request_id: "@
            &&& s.subrange(o2 + 14, o3) == d
            &&& s.subrange(o3, o3 + 12) == ",client_ip: "@
            &&& s.subrange(o3 + 12, o4) == ip
            &&& s[o4] == '}'
        }),
{
    reveal_strlit("Request: {method: ");
    reveal_strlit(", path: ");
    reveal_strlit(", request_id: ");
    reveal_strlit(",client_ip: ");
    reveal_strlit("}");
    let s = request_summary(r);
    let m = method_name(r.method);
    let u = r.uri@;
    let d = integer_text(r.request_id as int);
    let ip = r.client_ip@;
    let p0 = "Request: {method: "@;
    let p1 = p0 + m;
    let p2 = p1 + ", path: "@;
    let p3 = p2 + u;
    let p4 = p3 + ", request_id: "@;
    let p5 = p4 + d;
    let p6 = p5 + ",client_ip: "@;
    let p7 = p6 + ip;
    assert(s == p7 + "}"@);
    assert(s.subrange(0, p7.len() as int) =~= p7);
    assert(p7.subrange(0, p6.len() as int) =~= p6);
    assert(p6.subrange(0, p5.len() as int) =~= p5);
    assert(p5.subrange(0, p4.len() as int) =~= p4);
    assert(p4.subrange(0, p3.len() as int) =~= p3);
    assert(p3.subrange(0, p2.len() as int) =~= p2);
    assert(p2.subrange(0, p1.len() as int) =~= p1);
    assert(p1.subrange(0, 18) =~= p0);
    assert(s.subrange(0, 18) =~= p1.subrange(0, 18));
    assert(s.subrange(18, p1.len() as int) =~= m);
    assert(s.subrange(p1.len() as int, p2.len() as int) =~= ", path: "@);
    assert(s.subrange(p2.len() as int, p3.len() as int) =~= u);
    assert(s.subrange(p3.len() as int, p4.len() as int) =~= ", request_id: "@);
    assert(s.subrange(p4.len() as int, p5.len() as int) =~= d);
    assert(s.subrange(p5.len() as int, p6.len() as int) =~= ",client_ip: "@);
    assert(s.subrange(p6.len() as int, p7.len() as int) =~= ip);
}

/// The first two letters of a method's name tell the methods apart.
proof fn lemma_method_name_prefixes(a: HttpMethod, b: HttpMethod)
    ensures
        method_name(a).len() >= 3,
        method_name(a)[0] == method_name(b)[0] && method_name(a)[1] == method_name(b)[1] ==> a == b,
{
    reveal_strlit("GET");
    reveal_strlit("POST");
    reveal_strlit("PUT");
    reveal_strlit("PATCH");
    reveal_strlit("DELETE");
}

/// Requests with different methods get different summaries: the summary
/// always names the request's own method.
pub proof fn lemma_request_summary_names_method(r1: HttpRequest, r2: HttpRequest)
    requires
        r1.method != r2.method,
    ensures
        request_summary(r1) != request_summary(r2),
{
    lemma_request_summary_fields(r1);
    lemma_request_summary_fields(r2);
    lemma_method_name_prefixes(r1.method, r2.method);
    lemma_method_name_prefixes(r2.method, r1.method);
    let s1 = request_summary(r1);
    let s2 = request_summary(r2);
    let m1 = method_name(r1.method);
    let m2 = method_name(r2.method);
    assert(s1[18] == s1.subrange(18, 18 + m1.len() as int)[0]);
    assert(s1[19] == s1.subrange(18, 18 + m1.len() as int)[1]);
    assert(s2[18] == s2.subrange(18, 18 + m2.len() as int)[0]);
    assert(s2[19] == s2.subrange(18, 18 + m2.len() as int)[1]);
}

impl HttpRequest {
    /// The one-line summary of the request, as it is logged.
    pub fn to_string(&self) -> (s: String)
        ensures
            s@ == request_summary(*self),
    {
        let mut s = "Request: {method: ".to_string();
        s.append(self.method.to_string().as_str());
        s.append(", path: ");
        s.append(self.uri.as_str());
        s.append(", request_id: ");
        s.append(i64_text(self.request_id).as_str());
        s.append(",client_ip: ");
        s.append(self.client_ip.as_str());
        s.append("}");
        s
    }
}

/// A request on its way to a server, tagged with a fresh identifier.
pub struct ForwardedRequest {
    /// The 128-bit value of the request's random UUID.
    pub request_id: u128,
    pub client_ip: String,
    pub uri: String,
    pub request: http::Request<Vec<u8>>,
}

/// The header that carries a request's identifier, as it is stored.
pub open spec fn request_id_header() -> Seq<char> {
    "x-request-id"@
}

/// The bytes of the hyphenated form of a UUID.
pub open spec fn uuid_header_value(v: u128) -> Seq<u8> {
    encode_utf8(uuid_hyphenated(v))
}

/// The header name `X-Request-ID` can be inserted as it is and is stored as
/// `x-request-id`.
proof fn lemma_request_id_header_name()
    ensures
        plain_header_name("X-Request-ID"@),
        ascii_lower("X-Request-ID"@) == request_id_header(),
{
    reveal_strlit("X-Request-ID");
    reveal_strlit("x-request-id");
    let s = "X-Request-ID"@;
    let t = "x-request-id"@;
    assert forall|i: int| 0 <= i < s.len() implies {
        let c = #[trigger] s[i];
        &&& ('a' <= c <= 'z') || ('A' <= c <= 'Z') || ('0' <= c <= '9') || c == '-'
        &&& ascii_lower_char(c) == t[i]
    } by {
        if i == 0 {
        } else if i == 1 {
        } else if i == 2 {
        } else if i == 3 {
        } else if i == 4 {
        } else if i == 5 {
        } else if i == 6 {
        } else if i == 7 {
        } else if i == 8 {
        } else if i == 9 {
        } else if i == 10 {
        } else {
        }
    }
    assert(ascii_lower(s) =~= t);
}

/// Every character of the hyphenated form of a UUID is a hexadecimal digit
/// or `-`, so its bytes may stand in a header value.
proof fn lemma_uuid_text_is_header_safe(v: u128)
    ensures
        is_ascii_chars(uuid_hyphenated(v)),
        forall|i: int|
            0 <= i < encode_utf8(uuid_hyphenated(v)).len() ==> header_value_byte(
                #[trigger] encode_utf8(uuid_hyphenated(v))[i],
            ),
{
    let s = uuid_hyphenated(v);
    assert forall|i: int| 0 <= i < s.len() implies '-' <= #[trigger] s[i] <= 'f' by {
        if !(i == 8 || i == 13 || i == 18 || i == 23) {
            let k = crate::http_calls::digit_at(i);
            let shift = (124 - 4 * k) as u128;
            assert((v >> shift) & 0xfu128 <= 15) by (bit_vector);
            assert(0 <= uuid_digit(v, k) <= 15);
        }
    }
    is_ascii_chars_encode_utf8(s);
}

/// The identifier header of a forwarded request holds 36 ASCII bytes: the
/// hexadecimal digits of the UUID, grouped by hyphens.
pub proof fn lemma_request_id_value_length(v: u128)
    ensures
        uuid_header_value(v).len() == 36,
{
    lemma_uuid_text_is_header_safe(v);
    is_ascii_chars_encode_utf8(uuid_hyphenated(v));
}

impl ForwardedRequest {
    /// Tags a request with a fresh random identifier, in its `X-Request-ID`
    /// header, and keeps the client's address and the URI, with
    /// `/favicon.ico` taken as `/`.
    pub fn new(uri: String, client_ip: String, request: http::Request<Vec<u8>>) -> (r: ForwardedRequest)
        requires
            request_headers(request).dom().finite(),
            request_headers(request).dom().len() <= header_map_room(),
        ensures
            r.uri@ == normalized_uri(uri@),
            r.client_ip == client_ip,
            is_random_uuid(r.request_id),
            request_headers(r.request) == request_headers(request).insert(
                request_id_header(),
                seq![uuid_header_value(r.request_id)],
            ),
            request_method(r.request) == request_method(request),
            request_uri(r.request) == request_uri(request),
            request_body(r.request) == request_body(request),
            request_version(r.request) == request_version(request),
            request_extension_count(r.request) == request_extension_count(request),
    {
        let mut uri = uri;
        let mut request = request;
        if uri == "/favicon.ico".to_string() {
            uri = "/".to_string();
        }
        let request_id = random_uuid();
        proof {
            lemma_uuid_text_is_header_safe(request_id);
            lemma_request_id_header_name();
        }
        let text = uuid_text(request_id);
        let value = parse_header_value(text.as_str()).unwrap();
        insert_header(&mut request, "X-Request-ID", value);
        ForwardedRequest { request_id, client_ip, uri, request }
    }
}

/// Reads a request from the bytes a client sent and, if it is one, answers
/// with a blank `GET /` request with no headers and an empty body; else
/// with the error that `HttpRequest::new` gives.
pub fn buffer_to_request(buffer: Vec<u8>, client_ip: String, request_id: i64) -> (r: Result<http::Request<Vec<u8>>, String>)
    requires
        readable_request(buffer@),
    ensures
        match r {
            Err(e) => request_lines(buffer@).len() < 3 && e@ == "Invalid request"@,
            Ok(req) => {
                &&& request_lines(buffer@).len() >= 3
                &&& request_method(req) == "GET"@
                &&& request_uri(req) == "/"@
                &&& request_headers(req).dom() == Set::<Seq<char>>::empty()
                &&& request_body(req) == Seq::<u8>::empty()
                &&& request_version(req) == "HTTP/1.1"@
                &&& request_extension_count(req) == 0
            },
        },
{
    match HttpRequest::new(buffer.as_slice(), client_ip, request_id) {
        Ok(_) => {},
        Err(e) => {
            return Err(e);
        },
    }
    let body: Vec<u8> = Vec::new();
    return Ok(blank_request(body));
}

} // verus!
