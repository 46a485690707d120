//! The FreshRSS (Google Reader API) side of the reader: the requests it
//! sends, how it judges a response's status, how it accumulates a response
//! body read in chunks, and how it turns the login reply into the value of
//! the `Authorization` header.
use vstd::prelude::*;
use vstd::utf8::*;
use crate::decimal::{decimal, decimal_spec};
use crate::utf8::{decode, failure_of, reports_failure_of, Utf8Failure, lemma_decode_concat};

verus! {

/// Why a FreshRSS exchange failed, once the request was answered.
#[derive(Debug, Clone, Copy, PartialEq, Eq, Structural)]
pub enum FreshRssError {
    /// The server answered with a status outside `200..=299`.
    UnexpectedResponseCode(u16),
    /// A chunk of the response body was not UTF-8.
    InvalidUtf8(Utf8Failure),
}

/// The text of an error, as the reader reports it.
pub open spec fn error_message(e: FreshRssError) -> Seq<char> {
    match e {
        FreshRssError::UnexpectedResponseCode(code) =>
            "Unexpected response code: "@ + decimal_spec(code as nat),
        FreshRssError::InvalidUtf8(f) => match f.error_len {
            Some(len) =>
                "invalid utf-8 sequence of "@ + decimal_spec(len as nat) + " bytes from index "@
                    + decimal_spec(f.valid_up_to as nat),
            None => "incomplete utf-8 byte sequence from index "@ + decimal_spec(f.valid_up_to as nat),
        },
    }
}

impl FreshRssError {
    /// The text of this error (the standard library's wording for UTF-8 failures).
    pub fn message(&self) -> (m: String)
        ensures
            m@ == error_message(*self),
    {
        match self {
            FreshRssError::UnexpectedResponseCode(code) => {
                let mut m = String::from_str("Unexpected response code: ");
                m.append(decimal(*code as u64).as_str());
                m
            },
            FreshRssError::InvalidUtf8(f) => match f.error_len {
                Some(len) => {
                    let mut m = String::from_str("invalid utf-8 sequence of ");
                    m.append(decimal(len as u64).as_str());
                    m.append(" bytes from index ");
                    m.append(decimal(f.valid_up_to as u64).as_str());
                    m
                },
                None => {
                    let mut m = String::from_str("incomplete utf-8 byte sequence from index ");
                    m.append(decimal(f.valid_up_to as u64).as_str());
                    m
                },
            },
        }
    }
}

/// The login request's URL: the account's e-mail and password go in the query.
pub open spec fn login_url_spec(domain: Seq<char>, username: Seq<char>, password: Seq<char>) -> Seq<char> {
    "https://"@ + domain + "/api/greader.php/accounts/ClientLogin?Email="@ + username + "&Passwd="@
        + password
}

/// The URL of the login request for the account `username` on the FreshRSS
/// server at `domain`.
pub fn login_url(domain: &str, username: &str, password: &str) -> (url: String)
    ensures
        url@ == login_url_spec(domain@, username@, password@),
        url@ == "https://"@ + domain@ + "/api/greader.php/accounts/ClientLogin?Email="@ + username@
            + "&Passwd="@ + password@,
{
    let mut url = String::from_str("https://");
    url.append(domain);
    url.append("/api/greader.php/accounts/ClientLogin?Email=");
    url.append(username);
    url.append("&Passwd=");
    url.append(password);
    url
}

/// Law: the login URL ends with the whole password, and what comes before it
/// does not depend on the password; likewise the user name stands whole
/// right before `&Passwd=`.
pub proof fn lemma_login_url_parts(domain: Seq<char>, username: Seq<char>, password: Seq<char>)
    ensures
        ({
            let url = login_url_spec(domain, username, password);
            let head = login_url_spec(domain, username, Seq::empty());
            &&& url.len() == head.len() + password.len()
            &&& url.take(head.len() as int) == head
            &&& url.skip(head.len() as int) == password
            &&& head.skip(head.len() - "&Passwd="@.len()) == "&Passwd="@
            &&& head.take(head.len() - "&Passwd="@.len()).skip(
                head.len() - "&Passwd="@.len() - username.len()) == username
        }),
{
    let head = login_url_spec(domain, username, Seq::empty());
    let pre = "https://"@ + domain + "/api/greader.php/accounts/ClientLogin?Email="@;
    assert(head =~= pre + username + "&Passwd="@);
    assert(login_url_spec(domain, username, password) =~= head + password);
    assert((head + password).take(head.len() as int) =~= head);
    assert((head + password).skip(head.len() as int) =~= password);
    assert(head.skip(head.len() - "&Passwd="@.len()) =~= "&Passwd="@);
    assert(head.take(head.len() - "&Passwd="@.len()) =~= pre + username);
    assert((pre + username).skip((pre + username).len() - username.len()) =~= username);
}

/// The URL of the request for the five newest entries of the reading list.
pub open spec fn reading_list_url_spec(domain: Seq<char>) -> Seq<char> {
    "https://"@ + domain + "/api/greader.php/reader/api/0/stream/contents/reading-list?output=json&n=5"@
}

/// The URL that asks the server at `domain` for the reading list, as JSON.
pub fn reading_list_url(domain: &str) -> (url: String)
    ensures
        url@ == reading_list_url_spec(domain@),
        url@ == "https://"@ + domain@
            + "/api/greader.php/reader/api/0/stream/contents/reading-list?output=json&n=5"@,
{
    let mut url = String::from_str("https://");
    url.append(domain);
    url.append("/api/greader.php/reader/api/0/stream/contents/reading-list?output=json&n=5");
    url
}

/// The header that authenticates a request with the value `auth` that the
/// login produced: its name and its value.
pub fn authorization_header(auth: &str) -> (header: (String, String))
    ensures
        header.0@ == "Authorization"@,
        header.1@ == auth@,
{
    (String::from_str("Authorization"), String::from_str(auth))
}

/// Whether a response status is a success (`200..=299`).
pub open spec fn is_success(status: u16) -> bool {
    200 <= status <= 299
}

/// Law: exactly the statuses `200..=299` are successes; every redirect,
/// informational, client-error or server-error status is refused.
pub proof fn lemma_success_is_2xx(status: u16)
    ensures
        is_success(status) <==> 200 <= status <= 299,
        100 <= status <= 199 ==> !is_success(status),
        300 <= status <= 399 ==> !is_success(status),
        400 <= status ==> !is_success(status),
{
}

/// Accepts a response whose status is a success, and refuses any other.
pub fn check_status(status: u16) -> (r: Result<(), FreshRssError>)
    ensures
        r is Ok <==> 200 <= status <= 299,
        r is Ok <==> is_success(status),
        r is Err ==> r == Err::<(), FreshRssError>(FreshRssError::UnexpectedResponseCode(status)),
        !is_success(status) ==> r == Err::<(), FreshRssError>(FreshRssError::UnexpectedResponseCode(status)),
{
    if 200 <= status && status <= 299 {
        Ok(())
    } else {
        Err(FreshRssError::UnexpectedResponseCode(status))
    }
}

/// What one read of a response body gave.
pub enum ReadEvent<'a> {
    /// The read succeeded with these bytes; none at all means the end of the body.
    Received(&'a [u8]),
    /// The read failed.
    ReadFailed,
}

impl<'a> View for ReadEvent<'a> {
    /// The bytes of a successful read, or nothing for a failed one.
    type V = Option<Seq<u8>>;

    open spec fn view(&self) -> Option<Seq<u8>> {
        match self {
            ReadEvent::Received(bytes) => Some(bytes@),
            ReadEvent::ReadFailed => None,
        }
    }
}

/// What to do after a read.
#[derive(Debug, Clone, Copy, PartialEq, Eq, Structural)]
pub enum ReadStep {
    /// Read again.
    Continue,
    /// The body is complete.
    Finished,
}

/// Whether a read can be taken in: a failed read can (it is retried), and
/// so can received bytes that are UTF-8.
pub open spec fn read_accepted(event: Option<Seq<u8>>) -> bool {
    match event {
        Some(bytes) => valid_utf8(bytes),
        None => true,
    }
}

/// The body once a read was taken in: received bytes add their characters
/// at its end, anything else leaves it as it was.
pub open spec fn body_after(body: Seq<char>, event: Option<Seq<u8>>) -> Seq<char> {
    match event {
        Some(bytes) => if bytes.len() > 0 { body + decode_utf8(bytes) } else { body },
        None => body,
    }
}

/// Whether a read ends the body: it succeeded and gave no bytes.
pub open spec fn read_ends_body(event: Option<Seq<u8>>) -> bool {
    event matches Some(bytes) && bytes.len() == 0
}

/// Takes one read of a response body into `body`: a failed read is
/// retried, an empty one ends the body, and received bytes are decoded as
/// UTF-8 and appended; bytes that are not UTF-8 end the exchange with an
/// error and leave `body` unchanged.
pub fn take_read(body: &mut String, event: ReadEvent) -> (r: Result<ReadStep, FreshRssError>)
    ensures
        r is Ok <==> read_accepted(event@),
        r is Err <==> (event@ matches Some(bytes) && !valid_utf8(bytes)),
        r is Ok ==> final(body)@ == body_after(old(body)@, event@),
        r is Ok ==> (r == Ok::<ReadStep, FreshRssError>(
            if read_ends_body(event@) { ReadStep::Finished } else { ReadStep::Continue })),
        (r == Ok::<ReadStep, FreshRssError>(ReadStep::Finished)) <==> (event@ == Some(Seq::<u8>::empty())),
        event@ is None ==> r == Ok::<ReadStep, FreshRssError>(ReadStep::Continue) && final(body)@ == old(body)@,
        r is Ok ==> final(body)@ == old(body)@ + match event@ {
            Some(bytes) => decode_utf8(bytes),
            None => Seq::<char>::empty(),
        },
        r is Err ==> final(body)@ == old(body)@,
        r matches Err(e) ==> (e matches FreshRssError::InvalidUtf8(f)
            && event@ matches Some(bytes) && f == failure_of(bytes) && reports_failure_of(f, bytes)),
{
    match event {
        ReadEvent::ReadFailed => Ok(ReadStep::Continue),
        ReadEvent::Received(bytes) => {
            if bytes.len() == 0 {
                proof {
                    assert(valid_utf8(bytes@));
                    assert(bytes@ =~= Seq::<u8>::empty());
                    assert(old(body)@ + decode_utf8(bytes@) =~= old(body)@);
                }
                Ok(ReadStep::Finished)
            } else {
                match decode(bytes) {
                    Ok(text) => {
                        proof { assert(bytes@ != Seq::<u8>::empty()); }
                        body.append(text);
                        Ok(ReadStep::Continue)
                    },
                    Err(f) => Err(FreshRssError::InvalidUtf8(f)),
                }
            }
        },
    }
}

/// Law: a read ends the body exactly when it succeeded and gave no bytes; a
/// read of any number of bytes, however large, asks for more, and taking a
/// read in only ever adds, at the end, the decoding of the bytes received.
pub proof fn lemma_read_step(body: Seq<char>, event: Option<Seq<u8>>)
    requires
        read_accepted(event),
    ensures
        read_ends_body(event) <==> event == Some(Seq::<u8>::empty()),
        body_after(body, event) == body + match event {
            Some(bytes) => decode_utf8(bytes),
            None => Seq::<char>::empty(),
        },
{
    if let Some(bytes) = event {
        if bytes.len() == 0 {
            assert(bytes =~= Seq::<u8>::empty());
            assert(decode_utf8(bytes) =~= Seq::<char>::empty());
            assert(body + decode_utf8(bytes) =~= body);
        }
    } else {
        assert(body + Seq::<char>::empty() =~= body);
    }
}

/// The body that a run of reads builds from nothing.
pub open spec fn body_through(events: Seq<Option<Seq<u8>>>) -> Seq<char>
    decreases events.len(),
{
    if events.len() == 0 {
        Seq::empty()
    } else {
        body_after(body_through(events.drop_last()), events.last())
    }
}

/// The bytes that a run of reads received, in order.
pub open spec fn bytes_through(events: Seq<Option<Seq<u8>>>) -> Seq<u8>
    decreases events.len(),
{
    if events.len() == 0 {
        Seq::empty()
    } else {
        bytes_through(events.drop_last()) + match events.last() {
            Some(bytes) => bytes,
            None => Seq::empty(),
        }
    }
}

/// Law: when every read of a run was taken in, the body is the UTF-8
/// decoding of all the bytes received, in the order received; failed
/// reads contribute nothing.
pub proof fn lemma_body_is_decoded_bytes(events: Seq<Option<Seq<u8>>>)
    requires
        forall|i: int| 0 <= i < events.len() ==> read_accepted(#[trigger] events[i]),
    ensures
        valid_utf8(bytes_through(events)),
        body_through(events) == decode_utf8(bytes_through(events)),
    decreases events.len(),
{
    if events.len() == 0 {
        assert(valid_utf8(Seq::<u8>::empty()));
        assert(decode_utf8(Seq::<u8>::empty()) =~= Seq::<char>::empty());
    } else {
        let prev = events.drop_last();
        assert forall|i: int| 0 <= i < prev.len() implies read_accepted(#[trigger] prev[i]) by {
            assert(prev[i] == events[i]);
        }
        lemma_body_is_decoded_bytes(prev);
        assert(read_accepted(events[events.len() - 1]));
        let last: Seq<u8> = match events.last() {
            Some(bytes) => bytes,
            None => Seq::empty(),
        };
        assert(valid_utf8(last));
        assert(valid_utf8(Seq::<u8>::empty()));
        assert(decode_utf8(Seq::<u8>::empty()) =~= Seq::<char>::empty());
        lemma_decode_concat(bytes_through(prev), last);
        if last.len() == 0 {
            assert(bytes_through(prev) + last =~= bytes_through(prev));
            assert(decode_utf8(last) =~= Seq::<char>::empty());
        }
        assert(body_through(events) =~= decode_utf8(bytes_through(events)));
    }
}

/// The last `=`-separated field of `text`: what follows its last `=`, or
/// all of it when it has none.
pub open spec fn last_field(text: Seq<char>) -> Seq<char>
    decreases text.len(),
{
    if text.len() == 0 {
        text
    } else if text.last() == '=' {
        Seq::empty()
    } else {
        last_field(text.drop_last()).push(text.last())
    }
}

/// `text` without the line feeds at its end.
pub open spec fn trim_trailing_newlines(text: Seq<char>) -> Seq<char>
    decreases text.len(),
{
    if text.len() > 0 && text.last() == '\n' {
        trim_trailing_newlines(text.drop_last())
    } else {
        text
    }
}

/// The token that the login reply carries: its last field, without line feeds at the end.
pub open spec fn auth_token(reply: Seq<char>) -> Seq<char> {
    trim_trailing_newlines(last_field(reply))
}

/// The value of the `Authorization` header for a login reply.
pub open spec fn auth_string_spec(reply: Seq<char>) -> Seq<char> {
    "GoogleLogin auth="@ + auth_token(reply)
}

/// The characters of `s`, in one pass.
fn chars_of(s: &str) -> (v: Vec<char>)
    ensures
        v@ == s@,
{
    broadcast use vstd::string::group_string_axioms;

    let mut v: Vec<char> = Vec::new();
    for c in it: s.chars()
        invariant
            v@ == it.seq().take(it.index() as int),
    {
        v.push(c);
    }
    v
}

/// Turns the text of the login reply (whose last line is `Auth=<token>`)
/// into the value of the `Authorization` header, `GoogleLogin auth=<token>`.
pub fn auth_string(reply: &str) -> (auth: String)
    ensures
        auth@ == auth_string_spec(reply@),
        auth@ == "GoogleLogin auth="@ + auth_token(reply@),
        exists|k: int, m: int| {
            &&& 0 <= k <= m <= reply@.len()
            &&& auth@ == "GoogleLogin auth="@ + reply@.subrange(k, m)
            &&& (k == 0 || reply@[k - 1] == '=')
            &&& forall|i: int| k <= i < reply@.len() ==> #[trigger] reply@[i] != '='
            &&& forall|i: int| m <= i < reply@.len() ==> #[trigger] reply@[i] == '\n'
            &&& (m == k || reply@[m - 1] != '\n')
        },
{
    proof { lemma_auth_token_located(reply@); }
    let chars = chars_of(reply);
    let n = chars.len();
    let ghost text = reply@;
    let mut start = n;
    assert(text.take(n as int) =~= text);
    assert(last_field(text) + text.subrange(n as int, n as int) =~= last_field(text));
    loop
        invariant
            n == text.len(),
            text == reply@,
            text == chars@,
            start <= n,
            last_field(text) == last_field(text.take(start as int)) + text.subrange(start as int, n as int),
        ensures
            start <= n,
            last_field(text) == text.subrange(start as int, n as int),
        decreases start,
    {
        if start == 0 {
            assert(text.take(0) =~= Seq::<char>::empty());
            assert(text.subrange(0, n as int) =~= Seq::<char>::empty() + text.subrange(0, n as int));
            break;
        }
        let c = chars[start - 1];
        let ghost prefix = text.take(start as int);
        assert(prefix.last() == c);
        assert(prefix.drop_last() =~= text.take(start - 1));
        if c == '=' {
            assert(text.subrange(start as int, n as int) =~= Seq::<char>::empty() + text.subrange(start as int, n as int));
            break;
        }
        assert(text.subrange(start - 1, n as int) =~= seq![c] + text.subrange(start as int, n as int));
        assert(last_field(text.take(start - 1)).push(c) + text.subrange(start as int, n as int)
            =~= last_field(text.take(start - 1)) + text.subrange(start - 1, n as int));
        start = start - 1;
    }
    let mut end = n;
    loop
        invariant
            n == text.len(),
            text == reply@,
            text == chars@,
            start <= end <= n,
            last_field(text) == text.subrange(start as int, n as int),
            auth_token(text) == trim_trailing_newlines(text.subrange(start as int, end as int)),
        ensures
            start <= end <= n,
            auth_token(text) == text.subrange(start as int, end as int),
        decreases end,
    {
        if end == start {
            break;
        }
        let c = chars[end - 1];
        let ghost field = text.subrange(start as int, end as int);
        assert(field.last() == c);
        if c != '\n' {
            break;
        }
        assert(field.drop_last() =~= text.subrange(start as int, end - 1));
        end = end - 1;
    }
    let token = reply.substring_char(start, end);
    let mut auth = String::from_str("GoogleLogin auth=");
    auth.append(token);
    auth
}

/// Law: the token of a login reply is the part of its last field before
/// the line feeds that end the reply; it holds no `=` and does not end
/// with a line feed, and what precedes it is empty or ends with `=`.
pub proof fn lemma_auth_token_shape(reply: Seq<char>)
    ensures
        ({
            let field = last_field(reply);
            let token = auth_token(reply);
            let start = reply.len() - field.len();
            &&& field.len() <= reply.len()
            &&& token.len() <= field.len()
            &&& field == reply.subrange(start, reply.len() as int)
            &&& start == 0 || reply[start - 1] == '='
            &&& !field.contains('=')
            &&& token == field.take(token.len() as int)
            &&& forall|i: int| token.len() <= i < field.len() ==> #[trigger] field[i] == '\n'
            &&& !token.contains('=')
            &&& token.len() == 0 || token.last() != '\n'
        }),
{
    lemma_last_field(reply);
    lemma_trim_trailing_newlines(last_field(reply));
    let field = last_field(reply);
    let token = auth_token(reply);
    assert forall|i: int| 0 <= i < token.len() implies token[i] != '=' by {
        assert(token[i] == field[i]);
    }
}

/// Law: the token is the stretch of the reply that starts right after its
/// last `=` (or at its start) and ends where the line feeds that end the reply
/// begin: all of it, and nothing but it.
pub proof fn lemma_auth_token_located(reply: Seq<char>)
    ensures
        exists|k: int, m: int| {
            &&& 0 <= k <= m <= reply.len()
            &&& auth_token(reply) == reply.subrange(k, m)
            &&& (k == 0 || reply[k - 1] == '=')
            &&& forall|i: int| k <= i < reply.len() ==> #[trigger] reply[i] != '='
            &&& forall|i: int| m <= i < reply.len() ==> #[trigger] reply[i] == '\n'
            &&& (m == k || reply[m - 1] != '\n')
        },
{
    lemma_auth_token_shape(reply);
    let field = last_field(reply);
    let token = auth_token(reply);
    let k = reply.len() - field.len();
    let m = k + token.len();
    assert(token =~= reply.subrange(k, m));
    assert forall|i: int| k <= i < reply.len() implies #[trigger] reply[i] != '=' by {
        assert(reply[i] == field[i - k]);
    }
    assert forall|i: int| m <= i < reply.len() implies #[trigger] reply[i] == '\n' by {
        assert(reply[i] == field[i - k]);
    }
    if m != k {
        assert(reply[m - 1] == token.last());
    }
}

proof fn lemma_last_field(text: Seq<char>)
    ensures
        last_field(text).len() <= text.len(),
        last_field(text) == text.subrange(text.len() - last_field(text).len(), text.len() as int),
        text.len() - last_field(text).len() == 0
            || text[text.len() - last_field(text).len() - 1] == '=',
        !last_field(text).contains('='),
    decreases text.len(),
{
    if text.len() == 0 {
    } else if text.last() == '=' {
        assert(text.subrange(text.len() as int, text.len() as int) =~= Seq::<char>::empty());
    } else {
        let p = text.drop_last();
        lemma_last_field(p);
        let f = last_field(p);
        assert(p.subrange(p.len() - f.len(), p.len() as int).push(text.last())
            =~= text.subrange(text.len() - f.len() - 1, text.len() as int));
        if p.len() - f.len() > 0 {
            assert(text[p.len() - f.len() - 1] == p[p.len() - f.len() - 1]);
        }
        assert forall|i: int| 0 <= i < f.push(text.last()).len() implies f.push(text.last())[i] != '=' by {
            if i < f.len() {
                assert(!f.contains('='));
                assert(f.push(text.last())[i] == f[i]);
            }
        }
    }
}

proof fn lemma_trim_trailing_newlines(text: Seq<char>)
    ensures
        trim_trailing_newlines(text).len() <= text.len(),
        trim_trailing_newlines(text) == text.take(trim_trailing_newlines(text).len() as int),
        forall|i: int| trim_trailing_newlines(text).len() <= i < text.len() ==> #[trigger] text[i] == '\n',
        trim_trailing_newlines(text).len() == 0 || trim_trailing_newlines(text).last() != '\n',
    decreases text.len(),
{
    if text.len() > 0 && text.last() == '\n' {
        let p = text.drop_last();
        lemma_trim_trailing_newlines(p);
        let t = trim_trailing_newlines(p);
        assert(p.take(t.len() as int) =~= text.take(t.len() as int));
        assert forall|i: int| t.len() <= i < text.len() implies #[trigger] text[i] == '\n' by {
            if i < p.len() {
                assert(text[i] == p[i]);
            }
        }
    } else {
        assert(text.take(text.len() as int) =~= text);
    }
}

} // verus!
