//! The native transport, as far as it can be decided without touching the
//! network: which call comes next, with what, and what its outcome means.
//!
//! A [`Response`] never makes a call itself. Whoever drives it asks for the
//! [`Call`] that is due, makes it, and hands the [`Reply`] back. Handles
//! are acquired in the order session, connection, request, and are released
//! in the reverse order, each once, whatever fails on the way.

use crate::error::Error;
use crate::error::ErrorView;
use crate::error::Limit;
use crate::header::encodable;
use crate::header::first_offender;
use crate::header::lemma_push_latin_1;
use crate::plan::plan_for;
use crate::plan::to_u32;
use crate::plan::Plan;
use crate::plan::PlanView;
use crate::request::lemma_agent_is_latin_1;
use crate::request::Request;
use crate::request::RequestView;
use crate::request::AGENT;
use crate::target::Endpoint;
use crate::target::EndpointView;
use crate::target::Target;
use crate::target::TargetView;
use crate::target::url_parts;
use crate::text::same_text;
use vstd::prelude::*;

verus! {

/// What the operating system gave for a session, a connection or a request.
/// Zero is never a handle.
#[derive(Clone, Copy, Debug, PartialEq, Eq, Structural)]
pub struct Handle {
    /// The value as the operating system gave it.
    pub raw: usize,
}

/// What a handle is for. Handles are acquired in this order.
#[derive(Clone, Copy, Debug, PartialEq, Eq, Structural)]
pub enum Level {
    Session,
    Connection,
    Request,
}

/// How a call came back.
#[derive(Clone, Copy, Debug, PartialEq, Eq, Structural)]
pub struct Reply {
    /// What the call returned: its handle where it acquires one, else its
    /// status. Which values stand for a failure depends on the call: see
    /// [`ResponseView::refused`].
    pub value: usize,
    /// The operating system's error code, read right after the call. It
    /// counts only where `value` says that the call failed.
    pub os_error: i32,
}

/// How far a response has come.
#[derive(Clone, Copy, Debug, PartialEq, Eq, Structural)]
pub enum Stage {
    /// Nothing is acquired yet.
    Planned,
    /// The session is open.
    SessionOpen,
    /// The connection is open too.
    Connected,
    /// The request is open too.
    RequestOpen,
    /// The headers are attached to the request.
    HeadersAttached,
    /// The request is sent; the body can be read.
    Streaming,
    /// The body has been read to its end.
    Exhausted,
    /// A read failed. Nothing more can be read; the handles are still held.
    Broken,
    /// Handles are being released.
    Closing,
    /// No handle is held any more.
    Closed,
}

/// A call for the driver to make.
#[derive(Debug, PartialEq, Eq)]
pub enum Call<'a> {
    /// Open a session that uses the system's preconfigured proxy settings.
    OpenSession { agent: &'a str },
    /// Open a connection on the session.
    Connect { session: Handle, endpoint: &'a Endpoint },
    /// Open a request on the connection. `verb` ends with a zero.
    OpenRequest { connection: Handle, verb: Vec<u16>, object_name: &'a str, secure: bool },
    /// Add the headers to the request, each in place of one of its name that
    /// is already there.
    AttachHeaders { request: Handle, headers: &'a [u8], length: u32 },
    /// Send the request, with no body.
    Send { request: Handle },
    /// Read up to `capacity` bytes of the body.
    Read { request: Handle, capacity: u32 },
    /// Release a handle.
    Close { handle: Handle, level: Level },
}

/// A [`Call`] with its strings as sequences.
pub ghost enum CallView {
    OpenSession { agent: Seq<char> },
    Connect { session: Handle, endpoint: EndpointView },
    OpenRequest { connection: Handle, verb: Seq<u16>, object_name: Seq<char>, secure: bool },
    AttachHeaders { request: Handle, headers: Seq<u8>, length: u32 },
    Send { request: Handle },
    Read { request: Handle, capacity: u32 },
    Close { handle: Handle, level: Level },
}

impl<'a> View for Call<'a> {
    type V = CallView;

    open spec fn view(&self) -> CallView {
        match *self {
            Call::OpenSession { agent } => CallView::OpenSession { agent: agent@ },
            Call::Connect { session, endpoint } => CallView::Connect {
                session,
                endpoint: endpoint@,
            },
            Call::OpenRequest { connection, verb, object_name, secure } => CallView::OpenRequest {
                connection,
                verb: verb@,
                object_name: object_name@,
                secure,
            },
            Call::AttachHeaders { request, headers, length } => CallView::AttachHeaders {
                request,
                headers: headers@,
                length,
            },
            Call::Send { request } => CallView::Send { request },
            Call::Read { request, capacity } => CallView::Read { request, capacity },
            Call::Close { handle, level } => CallView::Close { handle, level },
        }
    }
}

/// Whether `verb` is one of the eight methods that have a wide form here.
pub open spec fn is_verb(verb: Seq<char>) -> bool {
    ||| verb == "GET"@
    ||| verb == "PUT"@
    ||| verb == "HEAD"@
    ||| verb == "POST"@
    ||| verb == "OPTIONS"@
    ||| verb == "DELETE"@
    ||| verb == "TRACE"@
    ||| verb == "CONNECT"@
}

/// A string in 16-bit units, one per character, closed by a zero. Meant for
/// characters below code point 65536.
pub open spec fn wide_null(s: Seq<char>) -> Seq<u16> {
    Seq::new(s.len(), |i: int| s[i] as u16).push(0u16)
}

/// The wide form of a request method: its letters as 16-bit units, closed
/// by a zero.
pub fn verb_to_lpcwstr(verb: &str) -> (r: Vec<u16>)
    requires
        is_verb(verb@),
    ensures
        r@ == wide_null(verb@),
{
    proof {
        reveal_strlit("GET");
        reveal_strlit("PUT");
        reveal_strlit("HEAD");
        reveal_strlit("POST");
        reveal_strlit("OPTIONS");
        reveal_strlit("DELETE");
        reveal_strlit("TRACE");
        reveal_strlit("CONNECT");
    }
    let wide: Vec<u16> = if same_text(verb, "GET") {
        vec!['G' as u16, 'E' as u16, 'T' as u16, 0]
    } else if same_text(verb, "PUT") {
        vec!['P' as u16, 'U' as u16, 'T' as u16, 0]
    } else if same_text(verb, "HEAD") {
        vec!['H' as u16, 'E' as u16, 'A' as u16, 'D' as u16, 0]
    } else if same_text(verb, "POST") {
        vec!['P' as u16, 'O' as u16, 'S' as u16, 'T' as u16, 0]
    } else if same_text(verb, "OPTIONS") {
        vec![
            'O' as u16,
            'P' as u16,
            'T' as u16,
            'I' as u16,
            'O' as u16,
            'N' as u16,
            'S' as u16,
            0,
        ]
    } else if same_text(verb, "DELETE") {
        vec!['D' as u16, 'E' as u16, 'L' as u16, 'E' as u16, 'T' as u16, 'E' as u16, 0]
    } else if same_text(verb, "TRACE") {
        vec!['T' as u16, 'R' as u16, 'A' as u16, 'C' as u16, 'E' as u16, 0]
    } else if same_text(verb, "CONNECT") {
        vec![
            'C' as u16,
            'O' as u16,
            'N' as u16,
            'N' as u16,
            'E' as u16,
            'C' as u16,
            'T' as u16,
            0,
        ]
    } else {
        assert(false);
        vec![0]
    };
    assert(wide@ =~= wide_null(verb@));
    wide
}

/// A [`Response`] as values.
pub ghost struct ResponseView {
    /// What is to be sent.
    pub plan: PlanView,
    /// How far the response has come.
    pub stage: Stage,
    /// The handles that are held, in the order in which they were acquired.
    pub held: Seq<Handle>,
    /// The error code of the call that ended the open, or of the read that
    /// broke the stream.
    pub failure: Option<i32>,
    /// Every handle that was ever acquired, in that order.
    pub acquired: Seq<Handle>,
    /// Every handle that was released, in that order.
    pub released: Seq<Handle>,
}

/// What the handle that is acquired after `held` others is for.
pub open spec fn level_of(held: nat) -> Level {
    if held == 0 {
        Level::Session
    } else if held == 1 {
        Level::Connection
    } else {
        Level::Request
    }
}

impl ResponseView {
    /// A response for which nothing has been done yet.
    pub open spec fn planned(plan: PlanView) -> ResponseView {
        ResponseView {
            plan,
            stage: Stage::Planned,
            held: Seq::empty(),
            failure: None,
            acquired: Seq::empty(),
            released: Seq::empty(),
        }
    }

    /// The stage says how many handles are held and whether there is a
    /// failure; no handle is zero; and the handles that were acquired are
    /// those that are held, followed by those that were released, last
    /// released first.
    pub open spec fn wf(self) -> bool {
        &&& self.plan.wf()
        &&& match self.stage {
            Stage::Planned => self.held.len() == 0 && self.failure is None,
            Stage::SessionOpen => self.held.len() == 1 && self.failure is None,
            Stage::Connected => self.held.len() == 2 && self.failure is None,
            Stage::RequestOpen | Stage::HeadersAttached | Stage::Streaming | Stage::Exhausted =>
                self.held.len() == 3 && self.failure is None,
            Stage::Broken => self.held.len() == 3 && self.failure is Some,
            Stage::Closing => 1 <= self.held.len() <= 3,
            Stage::Closed => self.held.len() == 0,
        }
        &&& self.stage != Stage::Closing && self.stage != Stage::Closed ==> self.released.len()
            == 0
        &&& self.acquired == self.held + self.released.reverse()
        &&& forall|i: int| 0 <= i < self.acquired.len() ==> (#[trigger] self.acquired[i]).raw != 0
    }

    /// The call that is due, if one is. While the response is opened these
    /// are, in this order, the session, the connection, the request, the
    /// headers and the send; while it is closed, the release of the handle
    /// that was acquired last. Reads are not listed here: see
    /// [`ResponseView::read`].
    pub open spec fn pending(self) -> Option<CallView> {
        match self.stage {
            Stage::Planned => Some(CallView::OpenSession { agent: self.plan.agent }),
            Stage::SessionOpen => Some(
                CallView::Connect { session: self.held[0], endpoint: self.plan.endpoint },
            ),
            Stage::Connected => Some(
                CallView::OpenRequest {
                    connection: self.held[1],
                    verb: wide_null("GET"@),
                    object_name: self.plan.object_name,
                    secure: self.plan.secure,
                },
            ),
            Stage::RequestOpen => Some(
                CallView::AttachHeaders {
                    request: self.held[2],
                    headers: self.plan.headers,
                    length: self.plan.headers_length,
                },
            ),
            Stage::HeadersAttached => Some(CallView::Send { request: self.held[2] }),
            Stage::Closing => Some(
                CallView::Close {
                    handle: self.held.last(),
                    level: level_of((self.held.len() - 1) as nat),
                },
            ),
            _ => None,
        }
    }

    /// Whether `reply` says that the call that is due has failed. A call
    /// that acquires a handle has failed when it returns zero, and so has
    /// the call that attaches the headers; the send and a release have
    /// failed when they return anything but one.
    pub open spec fn refused(self, reply: Reply) -> bool {
        match self.stage {
            Stage::Planned | Stage::SessionOpen | Stage::Connected | Stage::RequestOpen =>
                reply.value == 0,
            Stage::HeadersAttached | Stage::Closing => reply.value != 1,
            _ => false,
        }
    }

    /// The response once the handle `handle` has been acquired.
    pub open spec fn acquire(self, handle: Handle, stage: Stage) -> ResponseView {
        ResponseView {
            stage,
            held: self.held.push(handle),
            acquired: self.acquired.push(handle),
            ..self
        }
    }

    /// The response once a call has failed with `code`: it starts to release
    /// what it holds, or is closed at once if it holds nothing.
    pub open spec fn fail(self, code: i32) -> ResponseView {
        ResponseView {
            stage: if self.held.len() == 0 {
                Stage::Closed
            } else {
                Stage::Closing
            },
            failure: Some(code),
            ..self
        }
    }

    /// The response once the handle acquired last has been released.
    pub open spec fn release(self) -> ResponseView {
        ResponseView {
            stage: if self.held.len() <= 1 {
                Stage::Closed
            } else {
                Stage::Closing
            },
            held: self.held.drop_last(),
            released: self.released.push(self.held.last()),
            ..self
        }
    }

    /// The response after `reply` has come back for the call that was due.
    /// A failure while opening starts the release of what is held; a failed
    /// release still counts as a release. Without a call that is due,
    /// nothing changes.
    pub open spec fn advance(self, reply: Reply) -> ResponseView {
        let handle = Handle { raw: reply.value };
        match self.stage {
            Stage::Planned => if self.refused(reply) {
                self.fail(reply.os_error)
            } else {
                self.acquire(handle, Stage::SessionOpen)
            },
            Stage::SessionOpen => if self.refused(reply) {
                self.fail(reply.os_error)
            } else {
                self.acquire(handle, Stage::Connected)
            },
            Stage::Connected => if self.refused(reply) {
                self.fail(reply.os_error)
            } else {
                self.acquire(handle, Stage::RequestOpen)
            },
            Stage::RequestOpen => if self.refused(reply) {
                self.fail(reply.os_error)
            } else {
                ResponseView { stage: Stage::HeadersAttached, ..self }
            },
            Stage::HeadersAttached => if self.refused(reply) {
                self.fail(reply.os_error)
            } else {
                ResponseView { stage: Stage::Streaming, ..self }
            },
            Stage::Closing => self.release(),
            _ => self,
        }
    }

    /// The response once its owner is done with it: it starts to release
    /// what it holds, or is closed at once if it holds nothing.
    pub open spec fn close(self) -> ResponseView {
        ResponseView {
            stage: if self.held.len() == 0 {
                Stage::Closed
            } else {
                Stage::Closing
            },
            ..self
        }
    }

    /// What a read into a buffer of `capacity` bytes starts with: the call
    /// to make, or `None` where the read gives no bytes without a call, or
    /// the error that it fails with at once.
    pub open spec fn read(self, capacity: usize) -> Result<Option<CallView>, ErrorView> {
        match self.stage {
            Stage::Streaming => if capacity == 0 {
                Ok(None)
            } else if capacity > u32::MAX {
                Err(ErrorView::Overflow(Limit::Buffer))
            } else {
                Ok(Some(CallView::Read { request: self.held[2], capacity: capacity as u32 }))
            },
            Stage::Broken => Err(ErrorView::Os(self.failure->0)),
            _ => Ok(None),
        }
    }

    /// What a read gives once its call has come back with `reply`, having
    /// placed `count` bytes.
    pub open spec fn read_result(self, reply: Reply, count: u32) -> Result<usize, ErrorView> {
        match self.stage {
            Stage::Streaming => if reply.value == 1 {
                Ok(count as usize)
            } else {
                Err(ErrorView::Os(reply.os_error))
            },
            Stage::Broken => Err(ErrorView::Os(self.failure->0)),
            _ => Ok(0usize),
        }
    }

    /// The response after a read's call has come back with `reply`, having
    /// placed `count` bytes: no bytes mean the end of the stream, a failure
    /// breaks it.
    pub open spec fn finish_read(self, reply: Reply, count: u32) -> ResponseView {
        if self.stage != Stage::Streaming {
            self
        } else if reply.value != 1 {
            ResponseView { stage: Stage::Broken, failure: Some(reply.os_error), ..self }
        } else if count == 0 {
            ResponseView { stage: Stage::Exhausted, ..self }
        } else {
            self
        }
    }
}

/// Every step keeps a well-formed response well-formed.
pub proof fn lemma_steps_keep_wf(response: ResponseView, reply: Reply, count: u32)
    requires
        response.wf(),
    ensures
        response.advance(reply).wf(),
        response.close().wf(),
        response.finish_read(reply, count).wf(),
{
    let next = response.advance(reply);
    let handle = Handle { raw: reply.value };
    match response.stage {
        Stage::Planned | Stage::SessionOpen | Stage::Connected => {
            if !response.refused(reply) {
                assert(next.released.reverse() =~= Seq::<Handle>::empty());
                assert(next.acquired =~= next.held + next.released.reverse());
                assert forall|i: int| 0 <= i < next.acquired.len() implies (
                #[trigger] next.acquired[i]).raw != 0 by {
                    if i < response.acquired.len() {
                        assert(next.acquired[i] == response.acquired[i]);
                    }
                }
            }
        },
        Stage::Closing => {
            assert(next.released.reverse() =~= seq![response.held.last()]
                + response.released.reverse());
            assert(next.acquired =~= next.held + next.released.reverse());
        },
        _ => {},
    }
}

impl ResponseView {
    /// The response after the replies `replies` have come back, each for the
    /// call that was due when it came.
    pub open spec fn run(self, replies: Seq<Reply>) -> ResponseView
        decreases replies.len(),
    {
        if replies.len() == 0 {
            self
        } else {
            self.advance(replies[0]).run(replies.drop_first())
        }
    }

    /// Whether the response is being opened: a call is due, and it is no
    /// release.
    pub open spec fn opening(self) -> bool {
        self.pending() is Some && self.stage != Stage::Closing
    }
}

/// Once a response is closed it holds nothing, and what was released is
/// what was acquired, in reverse: every handle once, the last one first.
pub proof fn lemma_closed_released_all(response: ResponseView)
    requires
        response.wf(),
        response.stage == Stage::Closed,
    ensures
        response.held.len() == 0,
        response.released == response.acquired.reverse(),
{
    assert(response.acquired =~= response.released.reverse());
    assert(response.released.reverse().reverse() =~= response.released);
}

/// A response that is releasing its handles is closed after as many replies
/// as it holds handles, whatever they say; its failure stays what it was.
pub proof fn lemma_release_completes(response: ResponseView, replies: Seq<Reply>)
    requires
        response.wf(),
        response.stage == Stage::Closing,
        replies.len() == response.held.len(),
    ensures
        response.run(replies).wf(),
        response.run(replies).stage == Stage::Closed,
        response.run(replies).failure == response.failure,
        response.run(replies).acquired == response.acquired,
    decreases replies.len(),
{
    let next = response.advance(replies[0]);
    lemma_steps_keep_wf(response, replies[0], 0);
    if next.stage == Stage::Closing {
        lemma_release_completes(next, replies.drop_first());
    } else {
        assert(replies.drop_first().len() == 0);
        assert(next.run(replies.drop_first()) == next);
    }
}

/// Closing releases everything: a response that its owner is done with is
/// closed after one reply for each handle it holds, whatever the replies
/// say, and has then released what it had acquired, the last first.
pub proof fn lemma_close_releases_all(response: ResponseView, replies: Seq<Reply>)
    requires
        response.wf(),
        replies.len() == response.held.len(),
    ensures
        response.close().run(replies).stage == Stage::Closed,
        response.close().run(replies).held.len() == 0,
        response.close().run(replies).failure == response.failure,
        response.close().run(replies).released == response.acquired.reverse(),
{
    let closing = response.close();
    lemma_steps_keep_wf(response, Reply { value: 0, os_error: 0 }, 0);
    if response.held.len() == 0 {
        assert(closing.run(replies) == closing);
    } else {
        lemma_release_completes(closing, replies);
    }
    lemma_closed_released_all(closing.run(replies));
}

/// No leak: when a call fails while a response is opened, the response is
/// closed after one more reply for each handle it holds, whatever those
/// replies say. It then holds nothing, has released what it had acquired,
/// the last first, and keeps the error code of the call that failed.
pub proof fn lemma_failed_open_releases_all(
    response: ResponseView,
    reply: Reply,
    replies: Seq<Reply>,
)
    requires
        response.wf(),
        response.opening(),
        response.refused(reply),
        replies.len() == response.held.len(),
    ensures
        response.advance(reply).run(replies).stage == Stage::Closed,
        response.advance(reply).run(replies).held.len() == 0,
        response.advance(reply).run(replies).failure == Some(reply.os_error),
        response.advance(reply).run(replies).released == response.acquired.reverse(),
{
    let failed = response.advance(reply);
    lemma_steps_keep_wf(response, reply, 0);
    if response.held.len() == 0 {
        assert(failed.run(replies) == failed);
    } else {
        lemma_release_completes(failed, replies);
    }
    lemma_closed_released_all(failed.run(replies));
}

/// The way to a stream: five calls that succeed, the first three of which
/// give the session, the connection and the request, in this order.
pub proof fn lemma_open_in_five_calls(
    plan: PlanView,
    session: Reply,
    connection: Reply,
    request: Reply,
    attached: Reply,
    sent: Reply,
)
    requires
        plan.wf(),
        session.value != 0,
        connection.value != 0,
        request.value != 0,
        attached.value != 0,
        sent.value == 1,
    ensures
        ResponseView::planned(plan).run(seq![session, connection, request, attached, sent]).stage
            == Stage::Streaming,
        ResponseView::planned(plan).run(seq![session, connection, request, attached, sent]).held
            == seq![
            Handle { raw: session.value },
            Handle { raw: connection.value },
            Handle { raw: request.value },
        ],
        ResponseView::planned(plan).run(
            seq![session, connection, request, attached, sent],
        ).failure is None,
{
    let replies = seq![session, connection, request, attached, sent];
    let s0 = ResponseView::planned(plan);
    let s1 = s0.advance(session);
    let s2 = s1.advance(connection);
    let s3 = s2.advance(request);
    let s4 = s3.advance(attached);
    let s5 = s4.advance(sent);
    let r1 = replies.drop_first();
    let r2 = r1.drop_first();
    let r3 = r2.drop_first();
    let r4 = r3.drop_first();
    let r5 = r4.drop_first();
    assert(r5.len() == 0);
    assert(s5.run(r5) == s5);
    assert(s4.run(r4) == s5);
    assert(s3.run(r3) == s5);
    assert(s2.run(r2) == s5);
    assert(s1.run(r1) == s5);
    assert(s0.run(replies) == s5);
    assert(s5.held =~= seq![
        Handle { raw: session.value },
        Handle { raw: connection.value },
        Handle { raw: request.value },
    ]);
}

/// The end of the stream lasts: once a read has given no bytes, every later
/// read gives none either, without a call and without an error, and the
/// response stays as it is.
pub proof fn lemma_end_of_stream_lasts(
    response: ResponseView,
    reply: Reply,
    count: u32,
    capacity: usize,
    later: Reply,
    later_count: u32,
)
    requires
        response.wf(),
        response.stage == Stage::Streaming,
        response.read_result(reply, count) == Ok::<usize, ErrorView>(0),
    ensures
        response.finish_read(reply, count).stage == Stage::Exhausted,
        response.finish_read(reply, count).read(capacity) == Ok::<Option<CallView>, ErrorView>(
            None,
        ),
        response.finish_read(reply, count).read_result(later, later_count) == Ok::<
            usize,
            ErrorView,
        >(0),
        response.finish_read(reply, count).finish_read(later, later_count)
            == response.finish_read(reply, count),
{
}

/// The part of a response that changes as calls come back.
#[derive(Clone, Copy)]
struct Progress {
    stage: Stage,
    session: Option<Handle>,
    connection: Option<Handle>,
    request: Option<Handle>,
    failure: Option<i32>,
    acquired: Ghost<Seq<Handle>>,
    released: Ghost<Seq<Handle>>,
}

impl Progress {
    /// The handles that are held, in the order in which they were acquired.
    spec fn held(self) -> Seq<Handle> {
        match (self.session, self.connection, self.request) {
            (Some(session), Some(connection), Some(request)) => seq![session, connection, request],
            (Some(session), Some(connection), None) => seq![session, connection],
            (Some(session), None, None) => seq![session],
            _ => Seq::empty(),
        }
    }

    /// A connection is held only with its session, a request only with its
    /// connection.
    spec fn tidy(self) -> bool {
        &&& self.connection is Some ==> self.session is Some
        &&& self.request is Some ==> self.connection is Some
    }

    /// The progress as part of the view of a response with the plan `plan`.
    spec fn with_plan(self, plan: PlanView) -> ResponseView {
        ResponseView {
            plan,
            stage: self.stage,
            held: self.held(),
            failure: self.failure,
            acquired: self.acquired@,
            released: self.released@,
        }
    }

    /// Nothing done yet.
    fn new(Ghost(plan): Ghost<PlanView>) -> (r: Progress)
        ensures
            r.tidy(),
            r.with_plan(plan) == ResponseView::planned(plan),
    {
        Progress {
            stage: Stage::Planned,
            session: None,
            connection: None,
            request: None,
            failure: None,
            acquired: Ghost(Seq::empty()),
            released: Ghost(Seq::empty()),
        }
    }

    /// Whether `reply` says that the call that is due has failed.
    fn refused(self, reply: Reply, Ghost(plan): Ghost<PlanView>) -> (r: bool)
        ensures
            r == self.with_plan(plan).refused(reply),
    {
        match self.stage {
            Stage::Planned | Stage::SessionOpen | Stage::Connected | Stage::RequestOpen => {
                reply.value == 0
            },
            Stage::HeadersAttached | Stage::Closing => reply.value != 1,
            _ => false,
        }
    }

    /// The progress once a call has failed with `code`.
    fn fail(self, code: i32, Ghost(plan): Ghost<PlanView>) -> (r: Progress)
        requires
            self.tidy(),
        ensures
            r.tidy(),
            r.with_plan(plan) == self.with_plan(plan).fail(code),
    {
        let stage: Stage = if self.session.is_none() {
            Stage::Closed
        } else {
            Stage::Closing
        };
        Progress { stage, failure: Some(code), ..self }
    }

    /// The progress after `reply` has come back for the call that was due.
    fn advance(self, reply: Reply, Ghost(plan): Ghost<PlanView>) -> (r: Progress)
        requires
            self.tidy(),
            self.with_plan(plan).wf(),
        ensures
            r.tidy(),
            r.with_plan(plan) == self.with_plan(plan).advance(reply),
    {
        let handle: Handle = Handle { raw: reply.value };
        let refused: bool = self.refused(reply, Ghost(plan));
        let ghost acquired = self.acquired@.push(handle);
        let ghost released = self.released@;
        let next: Progress = match self.stage {
            Stage::Planned => if refused {
                self.fail(reply.os_error, Ghost(plan))
            } else {
                Progress {
                    stage: Stage::SessionOpen,
                    session: Some(handle),
                    acquired: Ghost(acquired),
                    ..self
                }
            },
            Stage::SessionOpen => if refused {
                self.fail(reply.os_error, Ghost(plan))
            } else {
                Progress {
                    stage: Stage::Connected,
                    connection: Some(handle),
                    acquired: Ghost(acquired),
                    ..self
                }
            },
            Stage::Connected => if refused {
                self.fail(reply.os_error, Ghost(plan))
            } else {
                Progress {
                    stage: Stage::RequestOpen,
                    request: Some(handle),
                    acquired: Ghost(acquired),
                    ..self
                }
            },
            Stage::RequestOpen => if refused {
                self.fail(reply.os_error, Ghost(plan))
            } else {
                Progress { stage: Stage::HeadersAttached, ..self }
            },
            Stage::HeadersAttached => if refused {
                self.fail(reply.os_error, Ghost(plan))
            } else {
                Progress { stage: Stage::Streaming, ..self }
            },
            Stage::Closing => match (self.session, self.connection, self.request) {
                (_, _, Some(request)) => Progress {
                    request: None,
                    released: Ghost(released.push(request)),
                    ..self
                },
                (_, Some(connection), None) => Progress {
                    connection: None,
                    released: Ghost(released.push(connection)),
                    ..self
                },
                (Some(session), None, None) => Progress {
                    stage: Stage::Closed,
                    session: None,
                    released: Ghost(released.push(session)),
                    ..self
                },
                (None, None, None) => self,
            },
            _ => self,
        };
        assert(next.held() =~= self.with_plan(plan).advance(reply).held);
        next
    }
}

/// One GET on the native transport, from the plan to the last release.
///
/// It holds up to three handles and says which call is due; it makes no
/// call itself.
pub struct Response {
    plan: Plan,
    progress: Progress,
}

impl View for Response {
    type V = ResponseView;

    closed spec fn view(&self) -> ResponseView {
        self.progress.with_plan(self.plan@)
    }
}

/// What opening `request` gives when its URL comes apart as `parts`: a
/// response for which nothing has been done yet, or the reason why the
/// request cannot be sent.
pub open spec fn opened(parts: Result<TargetView, url::ParseError>, request: RequestView) -> Result<
    ResponseView,
    ErrorView,
> {
    match parts {
        Err(e) => Err(ErrorView::Url(e)),
        Ok(target) => match plan_for(target, request) {
            Ok(plan) => Ok(ResponseView::planned(plan)),
            Err(e) => Err(e),
        },
    }
}

/// A header that does not fit ISO 8859-1 keeps the request from being
/// opened: there is no response, so no call is ever due. Where the URL is
/// good, the error names the first string that does not fit.
pub proof fn lemma_wide_header_is_refused(
    parts: Result<TargetView, url::ParseError>,
    request: RequestView,
)
    requires
        !encodable(request.headers),
    ensures
        opened(parts, request) is Err,
        parts matches Ok(target) && target.endpoint() is Some ==> opened(parts, request) == Err::<
            ResponseView,
            ErrorView,
        >(ErrorView::Encoding(first_offender(request.headers))),
{
    lemma_agent_is_latin_1();
    lemma_push_latin_1(request.headers, "User-Agent"@, AGENT@);
}

/// A URL that is not an `http` or `https` URL keeps the request from being
/// opened: there is no response, so no handle is ever acquired.
pub proof fn lemma_other_scheme_is_refused(target: TargetView, request: RequestView)
    requires
        !target.is_hypertext(),
    ensures
        opened(Ok(target), request) == Err::<ResponseView, ErrorView>(
            ErrorView::Scheme(target.scheme),
        ),
{
}

impl Response {
    #[verifier::type_invariant]
    spec fn whole(self) -> bool {
        self@.wf() && self.progress.tidy()
    }

    /// Plans the GET of `request` at `target`. Nothing is sent and no handle
    /// is acquired: the response waits for its first call to be made.
    ///
    /// Fails as [`Plan::new`] does.
    pub fn open_at(target: &Target, request: &Request) -> (r: Result<Response, Error>)
        ensures
            match r {
                Ok(response) => opened(Ok(target@), request@) == Ok::<ResponseView, ErrorView>(
                    response@,
                ) && response@.wf(),
                Err(e) => opened(Ok(target@), request@) == Err::<ResponseView, ErrorView>(e@),
            },
    {
        let plan: Plan = Plan::new(target, request)?;
        let progress: Progress = Progress::new(Ghost(plan@));
        Ok(Response { plan, progress })
    }

    /// Plans the GET of `request`. Nothing is sent and no handle is
    /// acquired: the response waits for its first call to be made.
    ///
    /// Fails with [`Error::Url`] when the URL is not an absolute URL, and
    /// else as [`Response::open_at`] does.
    pub fn open(request: Request) -> (r: Result<Response, Error>)
        ensures
            match r {
                Ok(response) => opened(url_parts(request@.url), request@) == Ok::<
                    ResponseView,
                    ErrorView,
                >(response@) && response@.wf(),
                Err(e) => opened(url_parts(request@.url), request@) == Err::<
                    ResponseView,
                    ErrorView,
                >(e@),
            },
    {
        let target: Target = Target::parse(request.url())?;
        Response::open_at(&target, &request)
    }

    /// How far the response has come.
    pub fn stage(&self) -> (r: Stage)
        ensures
            r == self@.stage,
    {
        self.progress.stage
    }

    /// What is to be sent.
    pub fn plan(&self) -> (r: &Plan)
        ensures
            r@ == self@.plan,
    {
        &self.plan
    }

    /// The failure that ended the open or broke the stream, if there was
    /// one.
    pub fn failure(&self) -> (r: Option<Error>)
        ensures
            match r {
                Some(e) => self@.failure is Some && e@ == ErrorView::Os(self@.failure->0),
                None => self@.failure is None,
            },
    {
        match self.progress.failure {
            Some(code) => Some(Error::Os(code)),
            None => None,
        }
    }

    /// The call that is due, if one is.
    pub fn pending(&self) -> (r: Option<Call<'_>>)
        ensures
            match r {
                Some(call) => self@.pending() == Some(call@),
                None => self@.pending() is None,
            },
    {
        proof {
            use_type_invariant(self);
            reveal_strlit("GET");
        }
        let progress: Progress = self.progress;
        match (progress.stage, progress.session, progress.connection, progress.request) {
            (Stage::Planned, _, _, _) => Some(Call::OpenSession { agent: self.plan.agent.as_str() }),
            (Stage::SessionOpen, Some(session), _, _) => Some(
                Call::Connect { session, endpoint: &self.plan.endpoint },
            ),
            (Stage::Connected, _, Some(connection), _) => Some(
                Call::OpenRequest {
                    connection,
                    verb: verb_to_lpcwstr("GET"),
                    object_name: self.plan.object_name.as_str(),
                    secure: self.plan.secure,
                },
            ),
            (Stage::RequestOpen, _, _, Some(request)) => Some(
                Call::AttachHeaders {
                    request,
                    headers: self.plan.headers.as_slice(),
                    length: self.plan.headers_length,
                },
            ),
            (Stage::HeadersAttached, _, _, Some(request)) => Some(Call::Send { request }),
            (Stage::Closing, _, _, Some(handle)) => Some(
                Call::Close { handle, level: Level::Request },
            ),
            (Stage::Closing, _, Some(handle), None) => Some(
                Call::Close { handle, level: Level::Connection },
            ),
            (Stage::Closing, Some(handle), None, None) => Some(
                Call::Close { handle, level: Level::Session },
            ),
            _ => None,
        }
    }

    /// Takes the reply to the call that was due and moves on.
    ///
    /// Gives the operating system's error where the reply says that the
    /// call failed. After a failed release the response moves on all the
    /// same: the error is for the record only.
    pub fn advance(&mut self, reply: Reply) -> (r: Result<(), Error>)
        ensures
            final(self)@ == old(self)@.advance(reply),
            final(self)@.wf(),
            match r {
                Ok(_) => !old(self)@.refused(reply),
                Err(e) => old(self)@.refused(reply) && e@ == ErrorView::Os(reply.os_error),
            },
    {
        proof {
            use_type_invariant(&*self);
            lemma_steps_keep_wf(self@, reply, 0);
        }
        let refused: bool = self.progress.refused(reply, Ghost(self.plan@));
        let next: Progress = self.progress.advance(reply, Ghost(self.plan@));
        self.progress = next;
        if refused {
            Err(Error::Os(reply.os_error))
        } else {
            Ok(())
        }
    }

    /// Starts to release what is held. This is what dropping a response
    /// comes to.
    pub fn close(&mut self)
        ensures
            final(self)@ == old(self)@.close(),
            final(self)@.wf(),
    {
        proof {
            use_type_invariant(&*self);
            lemma_steps_keep_wf(self@, Reply { value: 0, os_error: 0 }, 0);
        }
        let stage: Stage = if self.progress.session.is_none() {
            Stage::Closed
        } else {
            Stage::Closing
        };
        let next: Progress = Progress { stage, ..self.progress };
        self.progress = next;
    }

    /// Starts a read into a buffer of `capacity` bytes: gives the call to
    /// make, or `None` where the read gives no bytes without a call. That
    /// is so once the stream has ended, for an empty buffer, and before the
    /// request is sent or after the response is closed.
    ///
    /// Fails with [`Error::Overflow`] when `capacity` is over a 32-bit
    /// count, and with the error that broke the stream once a read has
    /// failed.
    pub fn read(&self, capacity: usize) -> (r: Result<Option<Call<'_>>, Error>)
        ensures
            match r {
                Ok(Some(call)) => self@.read(capacity) == Ok::<Option<CallView>, ErrorView>(
                    Some(call@),
                ),
                Ok(None) => self@.read(capacity) == Ok::<Option<CallView>, ErrorView>(None),
                Err(e) => self@.read(capacity) == Err::<Option<CallView>, ErrorView>(e@),
            },
    {
        proof {
            use_type_invariant(self);
        }
        let progress: Progress = self.progress;
        match (progress.stage, progress.request, progress.failure) {
            (Stage::Streaming, Some(request), _) => {
                if capacity == 0 {
                    Ok(None)
                } else {
                    match to_u32(capacity) {
                        Some(count) => Ok(Some(Call::Read { request, capacity: count })),
                        None => Err(Error::Overflow(Limit::Buffer)),
                    }
                }
            },
            (Stage::Broken, _, Some(code)) => Err(Error::Os(code)),
            _ => Ok(None),
        }
    }

    /// Takes the reply to a read's call, which placed `count` bytes, and
    /// gives what the read returns: the number of bytes, or the operating
    /// system's error. No bytes mean that the stream has ended.
    pub fn finish_read(&mut self, reply: Reply, count: u32) -> (r: Result<usize, Error>)
        ensures
            final(self)@ == old(self)@.finish_read(reply, count),
            final(self)@.wf(),
            match r {
                Ok(n) => old(self)@.read_result(reply, count) == Ok::<usize, ErrorView>(n),
                Err(e) => old(self)@.read_result(reply, count) == Err::<usize, ErrorView>(e@),
            },
    {
        proof {
            use_type_invariant(&*self);
            lemma_steps_keep_wf(self@, reply, count);
        }
        let progress: Progress = self.progress;
        match (progress.stage, progress.failure) {
            (Stage::Streaming, _) => {
                if reply.value != 1 {
                    let next: Progress = Progress {
                        stage: Stage::Broken,
                        failure: Some(reply.os_error),
                        ..progress
                    };
                    self.progress = next;
                    Err(Error::Os(reply.os_error))
                } else {
                    if count == 0 {
                        let next: Progress = Progress { stage: Stage::Exhausted, ..progress };
                        self.progress = next;
                    }
                    Ok(count as usize)
                }
            },
            (Stage::Broken, Some(code)) => Err(Error::Os(code)),
            _ => Ok(0),
        }
    }
}

} // verus!
