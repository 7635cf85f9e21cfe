//! The small vocabulary of HTTP: methods, status codes, protocol, content
//! types and header lines, each with the text it is shown as.

use vstd::prelude::*;
use vstd::std_specs::cmp::PartialEqSpecImpl;
use vstd::utf8::is_ascii_chars;
use crate::std_text::{ascii_upper, str_to_uppercase, to_uppercase};
use crate::text::{chars_of, contains, contains_chars, occurs_at};

verus! {

broadcast use vstd::string::group_string_axioms;

/// The protocol a response is written in.
#[derive(Debug)]
pub enum Protocol {
    Http,
}

impl Protocol {
    /// The protocol as written in a status line: `HTTP/1.1`.
    pub fn to_string(&self) -> (s: String)
        ensures
            s@ == "HTTP/1.1"@,
    {
        match self {
            Protocol::Http => "HTTP/1.1".to_string(),
        }
    }
}

/// A header line: its title and its value.
#[derive(Debug)]
pub struct Header {
    pub title: String,
    pub value: String,
}

impl Header {
    /// The header as shown: the title, ` : `, then the value.
    pub fn to_string(&self) -> (s: String)
        ensures
            s@ == self.title@ + " : "@ + self.value@,
    {
        let mut s = self.title.clone();
        s.append(" : ");
        s.append(self.value.as_str());
        s
    }
}

/// The type of a response body.
#[derive(Debug)]
pub enum ContentType {
    Text,
    Html,
    Json,
}

impl ContentType {
    /// The media type that names this content type.
    pub fn to_string(&self) -> (s: String)
        ensures
            s@ == match self {
                ContentType::Text => "text/plain"@,
                ContentType::Html => "text/html"@,
                ContentType::Json => "application/json"@,
            },
    {
        match self {
            ContentType::Text => "text/plain".to_string(),
            ContentType::Html => "text/html".to_string(),
            ContentType::Json => "application/json".to_string(),
        }
    }
}


/// The status codes that responses use.
#[derive(Debug)]
pub enum HttpCode {
    OK,
    Created,
    BadRequest,
    Unauthorized,
    NotFound,
    MethodNotAllowed,
    RequestTimeout,
    Teapot,
    InternalServerError,
}

/// The status line text of a code: its number and reason phrase.
pub open spec fn code_text(code: HttpCode) -> Seq<char> {
    match code {
        HttpCode::OK => "200 OK"@,
        HttpCode::Created => "201 Created"@,
        HttpCode::BadRequest => "400 Bad Request"@,
        HttpCode::Unauthorized => "401 Unauthorized"@,
        HttpCode::NotFound => "404 Not Found"@,
        HttpCode::MethodNotAllowed => "405 Method Not Allowed"@,
        HttpCode::RequestTimeout => "408 Request Timeout"@,
        HttpCode::Teapot => "418 I'm a teapot"@,
        HttpCode::InternalServerError => "500 Internal Server Error"@,
    }
}

impl HttpCode {
    /// The code's number and reason phrase, such as `404 Not Found`.
    pub fn to_string(&self) -> (s: String)
        ensures
            s@ == code_text(*self),
    {
        match self {
            HttpCode::OK => "200 OK".to_string(),
            HttpCode::Created => "201 Created".to_string(),
            HttpCode::BadRequest => "400 Bad Request".to_string(),
            HttpCode::Unauthorized => "401 Unauthorized".to_string(),
            HttpCode::NotFound => "404 Not Found".to_string(),
            HttpCode::MethodNotAllowed => "405 Method Not Allowed".to_string(),
            HttpCode::RequestTimeout => "408 Request Timeout".to_string(),
            HttpCode::Teapot => "418 I'm a teapot".to_string(),
            HttpCode::InternalServerError => "500 Internal Server Error".to_string(),
        }
    }
}

impl PartialEq for HttpCode {
    /// Two codes are equal when they are the same code.
    fn eq(&self, other: &Self) -> (r: bool) {
        match self {
            HttpCode::OK => match other {
                HttpCode::OK => true,
                _ => false,
            },
            HttpCode::Created => match other {
                HttpCode::Created => true,
                _ => false,
            },
            HttpCode::BadRequest => match other {
                HttpCode::BadRequest => true,
                _ => false,
            },
            HttpCode::Unauthorized => match other {
                HttpCode::Unauthorized => true,
                _ => false,
            },
            HttpCode::NotFound => match other {
                HttpCode::NotFound => true,
                _ => false,
            },
            HttpCode::MethodNotAllowed => match other {
                HttpCode::MethodNotAllowed => true,
                _ => false,
            },
            HttpCode::RequestTimeout => match other {
                HttpCode::RequestTimeout => true,
                _ => false,
            },
            HttpCode::Teapot => match other {
                HttpCode::Teapot => true,
                _ => false,
            },
            HttpCode::InternalServerError => match other {
                HttpCode::InternalServerError => true,
                _ => false,
            },
        }
    }
}

impl PartialEqSpecImpl for HttpCode {
    open spec fn obeys_eq_spec() -> bool {
        true
    }

    open spec fn eq_spec(&self, other: &HttpCode) -> bool {
        *self == *other
    }
}

/// The request methods that the balancer tells apart.
#[derive(Debug)]
pub enum HttpMethod {
    GET,
    POST,
    PUT,
    PATCH,
    DELETE,
}

/// The method named in uppercase text: the first of `GET`, `POST`, `PUT` and
/// `DELETE` that occurs in it, and `PATCH` when none does.
pub open spec fn method_in(upper: Seq<char>) -> HttpMethod {
    if contains(upper, "GET"@) {
        HttpMethod::GET
    } else if contains(upper, "POST"@) {
        HttpMethod::POST
    } else if contains(upper, "PUT"@) {
        HttpMethod::PUT
    } else if contains(upper, "DELETE"@) {
        HttpMethod::DELETE
    } else {
        HttpMethod::PATCH
    }
}

/// The name of a method.
pub open spec fn method_name(m: HttpMethod) -> Seq<char> {
    match m {
        HttpMethod::GET => "GET"@,
        HttpMethod::POST => "POST"@,
        HttpMethod::PUT => "PUT"@,
        HttpMethod::PATCH => "PATCH"@,
        HttpMethod::DELETE => "DELETE"@,
    }
}

impl HttpMethod {
    /// Reads the method from text already mapped to uppercase.
    pub fn from_upper(upper: &str) -> (m: HttpMethod)
        ensures
            m == method_in(upper@),
    {
        let text = chars_of(upper);
        if contains_chars(&text, &chars_of("GET")) {
            HttpMethod::GET
        } else if contains_chars(&text, &chars_of("POST")) {
            HttpMethod::POST
        } else if contains_chars(&text, &chars_of("PUT")) {
            HttpMethod::PUT
        } else if contains_chars(&text, &chars_of("DELETE")) {
            HttpMethod::DELETE
        } else {
            HttpMethod::PATCH
        }
    }

    /// Reads the method from a request token, whatever its case: the token is
    /// mapped to uppercase and searched for a method name.
    pub fn new(method: &str) -> (m: HttpMethod)
        ensures
            m == method_in(str_to_uppercase(method@)),
            is_ascii_chars(method@) ==> m == method_in(ascii_upper(method@)),
    {
        let upper = to_uppercase(method);
        HttpMethod::from_upper(upper.as_str())
    }

    /// The method's name, such as `GET`.
    pub fn to_string(&self) -> (s: String)
        ensures
            s@ == method_name(*self),
    {
        match self {
            HttpMethod::GET => "GET".to_string(),
            HttpMethod::POST => "POST".to_string(),
            HttpMethod::PUT => "PUT".to_string(),
            HttpMethod::PATCH => "PATCH".to_string(),
            HttpMethod::DELETE => "DELETE".to_string(),
        }
    }
}

impl PartialEq for HttpMethod {
    /// Two methods are equal when they are the same method.
    fn eq(&self, other: &Self) -> (r: bool) {
        match self {
            HttpMethod::GET => match other {
                HttpMethod::GET => true,
                _ => false,
            },
            HttpMethod::POST => match other {
                HttpMethod::POST => true,
                _ => false,
            },
            HttpMethod::PUT => match other {
                HttpMethod::PUT => true,
                _ => false,
            },
            HttpMethod::PATCH => match other {
                HttpMethod::PATCH => true,
                _ => false,
            },
            HttpMethod::DELETE => match other {
                HttpMethod::DELETE => true,
                _ => false,
            },
        }
    }
}

impl PartialEqSpecImpl for HttpMethod {
    open spec fn obeys_eq_spec() -> bool {
        true
    }

    open spec fn eq_spec(&self, other: &HttpMethod) -> bool {
        *self == *other
    }
}


/// How a method is found in uppercase text: `GET` anywhere in it wins;
/// otherwise `POST` anywhere, then `PUT`, then `DELETE`; text with none of
/// them is read as `PATCH`.
pub proof fn lemma_method_search(upper: Seq<char>, i: int)
    ensures
        occurs_at(upper, "GET"@, i) ==> method_in(upper) == HttpMethod::GET,
        occurs_at(upper, "POST"@, i) && !contains(upper, "GET"@) ==> method_in(upper) == HttpMethod::POST,
        occurs_at(upper, "PUT"@, i) && !contains(upper, "GET"@) && !contains(upper, "POST"@) ==> method_in(upper)
            == HttpMethod::PUT,
        occurs_at(upper, "DELETE"@, i) && !contains(upper, "GET"@) && !contains(upper, "POST"@) && !contains(
            upper,
            "PUT"@,
        ) ==> method_in(upper) == HttpMethod::DELETE,
        !contains(upper, "GET"@) && !contains(upper, "POST"@) && !contains(upper, "PUT"@) && !contains(
            upper,
            "DELETE"@,
        ) ==> method_in(upper) == HttpMethod::PATCH,
{
}

/// A short text `s` holds no pair of neighbouring characters that starts
/// `p`.
spec fn no_start_pair(s: Seq<char>, p: Seq<char>, i: int) -> bool {
    i + 1 < s.len() ==> !(s[i] == p[0] && s[i + 1] == p[1])
}

/// Pattern `p` occurs nowhere in a text of at most six characters that holds
/// no neighbouring pair equal to the first two characters of `p`.
proof fn lemma_absent_pair(s: Seq<char>, p: Seq<char>)
    requires
        p.len() >= 2,
        s.len() <= 6,
        no_start_pair(s, p, 0),
        no_start_pair(s, p, 1),
        no_start_pair(s, p, 2),
        no_start_pair(s, p, 3),
        no_start_pair(s, p, 4),
    ensures
        !contains(s, p),
{
    assert forall|i: int| !#[trigger] occurs_at(s, p, i) by {
        if occurs_at(s, p, i) {
            assert(s.subrange(i, i + p.len())[0] == s[i]);
            assert(s.subrange(i, i + p.len())[1] == s[i + 1]);
            assert(no_start_pair(s, p, i));
        }
    }
}

/// A text occurs in itself.
proof fn lemma_occurs_in_itself(s: Seq<char>)
    ensures
        contains(s, s),
{
    assert(s.subrange(0, s.len() as int) =~= s);
    assert(occurs_at(s, s, 0));
}

proof fn lemma_get_read_back()
    ensures
        method_in("GET"@) == HttpMethod::GET,
{
    lemma_occurs_in_itself("GET"@);
}

proof fn lemma_post_read_back()
    ensures
        method_in("POST"@) == HttpMethod::POST,
{
    reveal_strlit("POST");
    reveal_strlit("GET");
    lemma_absent_pair("POST"@, "GET"@);
    lemma_occurs_in_itself("POST"@);
}

proof fn lemma_put_read_back()
    ensures
        method_in("PUT"@) == HttpMethod::PUT,
{
    reveal_strlit("PUT");
    reveal_strlit("GET");
    reveal_strlit("POST");
    lemma_absent_pair("PUT"@, "GET"@);
    lemma_absent_pair("PUT"@, "POST"@);
    lemma_occurs_in_itself("PUT"@);
}

proof fn lemma_delete_read_back()
    ensures
        method_in("DELETE"@) == HttpMethod::DELETE,
{
    reveal_strlit("DELETE");
    reveal_strlit("GET");
    reveal_strlit("POST");
    reveal_strlit("PUT");
    lemma_absent_pair("DELETE"@, "GET"@);
    lemma_absent_pair("DELETE"@, "POST"@);
    lemma_absent_pair("DELETE"@, "PUT"@);
    lemma_occurs_in_itself("DELETE"@);
}

proof fn lemma_patch_read_back()
    ensures
        method_in("PATCH"@) == HttpMethod::PATCH,
{
    reveal_strlit("PATCH");
    reveal_strlit("GET");
    reveal_strlit("POST");
    reveal_strlit("PUT");
    reveal_strlit("DELETE");
    lemma_absent_pair("PATCH"@, "GET"@);
    lemma_absent_pair("PATCH"@, "POST"@);
    lemma_absent_pair("PATCH"@, "PUT"@);
    lemma_absent_pair("PATCH"@, "DELETE"@);
}

/// A text of ASCII uppercase letters is ASCII and its own uppercase form.
proof fn lemma_upper_letters(s: Seq<char>)
    requires
        forall|i: int| 0 <= i < s.len() ==> 'A' <= #[trigger] s[i] <= 'Z',
    ensures
        is_ascii_chars(s),
        ascii_upper(s) == s,
{
    assert(ascii_upper(s) =~= s);
}

/// Every method's name is ASCII uppercase, and reading it back names the
/// same method: `HttpMethod::new(&m.to_string())` is `m` for every `m`.
pub proof fn lemma_method_name_read_back(m: HttpMethod)
    ensures
        is_ascii_chars(method_name(m)),
        ascii_upper(method_name(m)) == method_name(m),
        method_in(method_name(m)) == m,
{
    match m {
        HttpMethod::GET => {
            reveal_strlit("GET");
            lemma_upper_letters("GET"@);
            lemma_get_read_back();
        },
        HttpMethod::POST => {
            reveal_strlit("POST");
            lemma_upper_letters("POST"@);
            lemma_post_read_back();
        },
        HttpMethod::PUT => {
            reveal_strlit("PUT");
            lemma_upper_letters("PUT"@);
            lemma_put_read_back();
        },
        HttpMethod::DELETE => {
            reveal_strlit("DELETE");
            lemma_upper_letters("DELETE"@);
            lemma_delete_read_back();
        },
        HttpMethod::PATCH => {
            reveal_strlit("PATCH");
            lemma_upper_letters("PATCH"@);
            lemma_patch_read_back();
        },
    }
}

} // verus!
