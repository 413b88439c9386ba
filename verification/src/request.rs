//! A GET request: a URL and its headers.

use crate::error::Error;
use crate::error::ErrorView;
use crate::header::encodable;
use crate::header::encode_line;
use crate::header::encode_lines;
use crate::header::first_offender;
use crate::header::header_block;
use crate::header::lemma_lines_push;
use crate::header::lemma_push_latin_1;
use crate::iso_8859_1::is_latin_1;
use crate::native::opened;
use crate::native::Response;
use crate::native::ResponseView;
use crate::target::url_parts;
use crate::text::same_text;
use vstd::prelude::*;

verus! {

/// What this client calls itself when the caller sets no `User-Agent`.
pub const AGENT: &'static str = "get-url/0.1.0";

/// The position of the first header called `name`, or the number of headers
/// when none is.
pub open spec fn first_named(headers: Seq<(Seq<char>, Seq<char>)>, name: Seq<char>) -> int
    decreases headers.len(),
{
    if headers.len() == 0 {
        0
    } else if headers[0].0 == name {
        0
    } else {
        1 + first_named(headers.drop_first(), name)
    }
}

/// The value of the first header called `name`, if there is one.
pub open spec fn header_value(headers: Seq<(Seq<char>, Seq<char>)>, name: Seq<char>) -> Option<
    Seq<char>,
> {
    let at = first_named(headers, name);
    if at < headers.len() {
        Some(headers[at].1)
    } else {
        None
    }
}

/// A URL and the headers to send with it. No two headers have the same
/// name; a header keeps its place when its value is replaced.
#[derive(Clone, Debug)]
pub struct Request {
    url: String,
    headers: Vec<(String, String)>,
}

/// A [`Request`] as values: the URL and the headers, each a name and a value,
/// in the order in which their names were first set.
pub ghost struct RequestView {
    pub url: Seq<char>,
    pub headers: Seq<(Seq<char>, Seq<char>)>,
}

impl View for Request {
    type V = RequestView;

    closed spec fn view(&self) -> RequestView {
        RequestView { url: self.url@, headers: self.headers.deep_view() }
    }
}

impl RequestView {
    /// No two headers have the same name.
    pub open spec fn wf(self) -> bool {
        forall|i: int, j: int|
            0 <= i < j < self.headers.len() ==> (#[trigger] self.headers[i]).0 != (
            #[trigger] self.headers[j]).0
    }

    /// Whether a header called `name` is set. Names are compared exactly.
    pub open spec fn has(self, name: Seq<char>) -> bool {
        header_value(self.headers, name) is Some
    }

    /// The value of the header called `name`, if it is set.
    pub open spec fn value_of(self, name: Seq<char>) -> Option<Seq<char>> {
        header_value(self.headers, name)
    }

    /// The headers as a mapping from name to value.
    pub open spec fn map(self) -> Map<Seq<char>, Seq<char>> {
        Map::new(|name: Seq<char>| self.has(name), |name: Seq<char>| self.value_of(name)->0)
    }

    /// The request with `name` set to `value`: in the place of the header of
    /// that name if there is one, else at the end.
    pub open spec fn with(self, name: Seq<char>, value: Seq<char>) -> RequestView {
        let at = first_named(self.headers, name);
        RequestView {
            url: self.url,
            headers: if self.has(name) {
                self.headers.update(at, (name, value))
            } else {
                self.headers.push((name, value))
            },
        }
    }

    /// The `User-Agent` that the request goes out with: the caller's if one
    /// is set, else [`AGENT`].
    pub open spec fn user_agent(self) -> Seq<char> {
        match self.value_of("User-Agent"@) {
            Some(agent) => agent,
            None => AGENT@,
        }
    }

    /// The headers that go on the wire: the caller's, and a `User-Agent`
    /// of [`AGENT`] after them when the caller set none.
    pub open spec fn wire_headers(self) -> Seq<(Seq<char>, Seq<char>)> {
        if self.has("User-Agent"@) {
            self.headers
        } else {
            self.headers.push(("User-Agent"@, AGENT@))
        }
    }
}

/// What [`first_named`] finds: a position within bounds or the length, the
/// name at that position, and no such name before it.
pub proof fn lemma_first_named(headers: Seq<(Seq<char>, Seq<char>)>, name: Seq<char>)
    ensures
        0 <= first_named(headers, name) <= headers.len(),
        first_named(headers, name) < headers.len() ==> headers[first_named(headers, name)].0
            == name,
        forall|i: int| 0 <= i < first_named(headers, name) ==> (#[trigger] headers[i]).0 != name,
    decreases headers.len(),
{
    if headers.len() > 0 && headers[0].0 != name {
        let rest = headers.drop_first();
        lemma_first_named(rest, name);
        assert forall|i: int| 0 <= i < first_named(headers, name) implies (
        #[trigger] headers[i]).0 != name by {
            if i > 0 {
                assert(headers[i] == rest[i - 1]);
            }
        }
    }
}

/// A position that holds `name`, with no such name before it, is the one
/// that [`first_named`] finds.
pub proof fn lemma_first_named_is(
    headers: Seq<(Seq<char>, Seq<char>)>,
    name: Seq<char>,
    at: int,
)
    requires
        0 <= at <= headers.len(),
        at < headers.len() ==> headers[at].0 == name,
        forall|i: int| 0 <= i < at ==> (#[trigger] headers[i]).0 != name,
    ensures
        first_named(headers, name) == at,
{
    lemma_first_named(headers, name);
    let found = first_named(headers, name);
    if found < at {
        assert(headers[found].0 != name);
    }
}

/// Setting a header keeps the names distinct.
pub proof fn lemma_with_keeps_wf(request: RequestView, name: Seq<char>, value: Seq<char>)
    requires
        request.wf(),
    ensures
        request.with(name, value).wf(),
{
    lemma_first_named(request.headers, name);
    let after = request.with(name, value).headers;
    let at = first_named(request.headers, name);
    assert forall|i: int, j: int| 0 <= i < j < after.len() implies (#[trigger] after[i]).0 != (
    #[trigger] after[j]).0 by {
        if request.has(name) {
            assert(after[i].0 == request.headers[i].0);
            assert(after[j].0 == request.headers[j].0);
        } else if j == request.headers.len() {
            assert(after[i] == request.headers[i]);
        } else {
            assert(after[i] == request.headers[i]);
            assert(after[j] == request.headers[j]);
        }
    }
}

/// Setting a header is an insertion into the mapping from names to values:
/// the name then has the new value, and every other name has what it had.
pub proof fn lemma_with_inserts(request: RequestView, name: Seq<char>, value: Seq<char>)
    ensures
        request.with(name, value).value_of(name) == Some(value),
        forall|other: Seq<char>|
            other != name ==> #[trigger] request.with(name, value).value_of(other)
                == request.value_of(other),
        request.with(name, value).map() == request.map().insert(name, value),
{
    let before = request.headers;
    let after = request.with(name, value).headers;
    let at = first_named(before, name);
    lemma_first_named(before, name);
    assert(request.with(name, value).value_of(name) == Some(value)) by {
        assert forall|i: int| 0 <= i < at implies (#[trigger] after[i]).0 != name by {
            assert(after[i] == before[i]);
        }
        lemma_first_named_is(after, name, at);
    }
    assert forall|other: Seq<char>| other != name implies #[trigger] request.with(
        name,
        value,
    ).value_of(other) == request.value_of(other) by {
        let was = first_named(before, other);
        lemma_first_named(before, other);
        assert forall|i: int| 0 <= i < was implies (#[trigger] after[i]).0 != other by {
            assert(after[i].0 == before[i].0);
        }
        if was < before.len() {
            lemma_first_named_is(after, other, was);
        } else {
            lemma_first_named_is(after, other, after.len() as int);
        }
    }
    let set = request.with(name, value);
    assert forall|key: Seq<char>| #[trigger]
        set.map().dom().contains(key) == request.map().insert(name, value).dom().contains(
            key,
        ) && (set.map().dom().contains(key) ==> set.map()[key] == request.map().insert(
            name,
            value,
        )[key]) by {
        if key != name {
            assert(set.value_of(key) == request.value_of(key));
        }
    }
    assert(set.map() =~= request.map().insert(name, value));
}

/// A request on which the caller set no `User-Agent` goes out as [`AGENT`],
/// and its wire headers say so.
pub proof fn lemma_default_user_agent(request: RequestView)
    requires
        !request.has("User-Agent"@),
    ensures
        request.user_agent() == AGENT@,
        header_value(request.wire_headers(), "User-Agent"@) == Some(AGENT@),
{
    lemma_first_named(request.headers, "User-Agent"@);
    let wire = request.wire_headers();
    assert forall|i: int| 0 <= i < request.headers.len() implies (#[trigger] wire[i]).0
        != "User-Agent"@ by {
        assert(wire[i] == request.headers[i]);
    }
    lemma_first_named_is(wire, "User-Agent"@, request.headers.len() as int);
}

/// A request on which the caller set `User-Agent` to `agent` goes out as
/// `agent`, whatever it held before, and its wire headers say so.
pub proof fn lemma_own_user_agent(request: RequestView, agent: Seq<char>)
    ensures
        request.with("User-Agent"@, agent).user_agent() == agent,
        header_value(request.with("User-Agent"@, agent).wire_headers(), "User-Agent"@) == Some(
            agent,
        ),
{
    lemma_with_inserts(request, "User-Agent"@, agent);
}

/// The wire headers always name the agent that the request goes out as.
pub proof fn lemma_wire_user_agent(request: RequestView)
    ensures
        header_value(request.wire_headers(), "User-Agent"@) == Some(request.user_agent()),
{
    if !request.has("User-Agent"@) {
        lemma_default_user_agent(request);
    }
}

impl Request {
    /// A request for `url` with the one header `Accept: */*`. The URL is
    /// stored as it is and looked at only when the request is opened.
    pub fn new(url: &str) -> (r: Self)
        ensures
            r@.url == url@,
            r@.headers == seq![("Accept"@, "*/*"@)],
            r@.wf(),
    {
        let mut headers: Vec<(String, String)> = Vec::new();
        headers.push(("Accept".to_owned(), "*/*".to_owned()));
        assert(headers.deep_view() =~= seq![("Accept"@, "*/*"@)]);
        Request { url: url.to_owned(), headers }
    }

    /// The URL that the request was made with.
    pub fn url(&self) -> (r: &str)
        ensures
            r@ == self@.url,
    {
        self.url.as_str()
    }

    /// Where the header called `name` stands, if it is set.
    fn find(&self, name: &str) -> (r: Option<usize>)
        ensures
            match r {
                Some(at) => at < self@.headers.len() && at == first_named(self@.headers, name@),
                None => first_named(self@.headers, name@) == self@.headers.len(),
            },
    {
        let ghost all = self@.headers;
        let mut i: usize = 0;
        while i < self.headers.len()
            invariant
                0 <= i <= self.headers.len(),
                all == self.headers.deep_view(),
                all.len() == self.headers.len(),
                forall|j: int| 0 <= j < i ==> (#[trigger] all[j]).0 != name@,
            decreases self.headers.len() - i,
        {
            assert(self.headers[i as int].0@ == all[i as int].0);
            if same_text(self.headers[i].0.as_str(), name) {
                proof {
                    lemma_first_named_is(all, name@, i as int);
                }
                return Some(i);
            }
            i = i + 1;
        }
        proof {
            lemma_first_named_is(all, name@, i as int);
        }
        None
    }

    /// Sets the header `name` to `value`, in place of any value it had.
    pub fn set_header(&mut self, name: &str, value: &str) -> (r: &mut Self)
        ensures
            r@ == old(self)@.with(name@, value@),
            old(self)@.wf() ==> r@.wf(),
            *final(self) == *final(r),
    {
        let ghost before = self@;
        match self.find(name) {
            Some(at) => {
                self.headers.set(at, (name.to_owned(), value.to_owned()));
                proof {
                    assert(self.headers.deep_view() =~= before.headers.update(
                        at as int,
                        (name@, value@),
                    ));
                }
            },
            None => {
                self.headers.push((name.to_owned(), value.to_owned()));
                proof {
                    assert(self.headers.deep_view() =~= before.headers.push((name@, value@)));
                }
            },
        }
        proof {
            if before.wf() {
                lemma_with_keeps_wf(before, name@, value@);
            }
        }
        self
    }

    /// The request with the header `name` set to `value`.
    pub fn with_header(self, name: &str, value: &str) -> (r: Self)
        ensures
            r@ == self@.with(name@, value@),
            self@.wf() ==> r@.wf(),
    {
        let mut request = self;
        request.set_header(name, value);
        request
    }

    /// The `User-Agent` that the request goes out with: the caller's if one
    /// is set, else [`AGENT`].
    pub fn user_agent(&self) -> (r: &str)
        ensures
            r@ == self@.user_agent(),
    {
        match self.find("User-Agent") {
            Some(at) => self.headers[at].1.as_str(),
            None => AGENT,
        }
    }

    /// Plans the GET of this request and hands it to the transport: the
    /// response that comes back has acquired nothing yet and waits for its
    /// first call to be made.
    ///
    /// Fails, before anything is sent, with [`Error::Url`] when the URL is
    /// not an absolute URL, with [`Error::Scheme`] unless it is an `http` or
    /// `https` URL, with [`Error::Encoding`] when a header does not fit
    /// ISO 8859-1, and with [`Error::Overflow`] when the header block is
    /// longer than a 32-bit count.
    pub fn open(self) -> (r: Result<Response, Error>)
        ensures
            match r {
                Ok(response) => opened(url_parts(self@.url), self@) == Ok::<
                    ResponseView,
                    ErrorView,
                >(response@) && response@.wf(),
                Err(e) => opened(url_parts(self@.url), self@) == Err::<ResponseView, ErrorView>(
                    e@,
                ),
            },
    {
        Response::open(self)
    }

    /// The header block that the request goes out with: the lines of the
    /// caller's headers, a `User-Agent` line with [`AGENT`] if the caller set
    /// none, and the closing empty line.
    ///
    /// Fails with [`Error::Encoding`] when a name or a value has a character
    /// above code point 255; the error holds the first such string.
    pub fn header_block(&self) -> (r: Result<Vec<u8>, Error>)
        ensures
            match r {
                Ok(block) => encodable(self@.wire_headers()) && block@ == header_block(
                    self@.wire_headers(),
                ),
                Err(e) => !encodable(self@.wire_headers()) && e@ == ErrorView::Encoding(
                    first_offender(self@.wire_headers()),
                ),
            },
    {
        proof {
            lemma_agent_is_latin_1();
            lemma_push_latin_1(self@.headers, "User-Agent"@, AGENT@);
        }
        let mut block: Vec<u8> = encode_lines(&self.headers)?;
        if self.find("User-Agent").is_none() {
            match encode_line("User-Agent", AGENT) {
                Ok(mut line) => {
                    block.append(&mut line);
                },
                Err(e) => {
                    return Err(e);
                },
            }
            proof {
                lemma_lines_push(self@.headers, "User-Agent"@, AGENT@);
            }
        }
        block.push(0x0d);
        block.push(0x0a);
        assert(block@ =~= header_block(self@.wire_headers()));
        Ok(block)
    }
}

/// The default `User-Agent` header fits ISO 8859-1.
pub proof fn lemma_agent_is_latin_1()
    ensures
        is_latin_1("User-Agent"@),
        is_latin_1(AGENT@),
{
    reveal_strlit("User-Agent");
    reveal_strlit("get-url/0.1.0");
}

} // verus!
