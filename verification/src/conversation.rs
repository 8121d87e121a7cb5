//! What a client gets to see of its connection.
//!
//! A session reads a message in pieces. The laws here say that this makes no
//! difference: whatever a client sends, the answers are those of the parsers
//! applied to the whole of it.
use vstd::prelude::*;

#[allow(unused_imports)]
use crate::error::{ErrorView, IoErrorView, ResponseCode};
#[allow(unused_imports)]
use crate::protocol::{AddrType, AuthMethods, RequestView, UserPassView, SOCKS_VERSION};
#[allow(unused_imports)]
use crate::run::{Phase, RunView};
#[allow(unused_imports)]
use crate::session::{ActionView, ClientView, EventView, Stage};
#[allow(unused_imports)]
use crate::{auth, error, protocol, reply, run, session, wire};

verus! {

/// The client's stream, seen from the client.
#[verifier::ext_equal]
pub struct Link {
    /// What the client has sent, or will send, and nobody has read yet.
    pub input: Seq<u8>,
    /// What has reached the client.
    pub sent: Seq<u8>,
    /// Whether anything can still reach the client.
    pub open: bool,
}

/// The errors that a stream reports: when it ends before what was asked for,
/// and when it is written to after it was shut down.
pub struct Faults {
    pub eof: IoErrorView,
    pub closed: IoErrorView,
}

/// What a stream makes of an action, if the action is one for the stream.
pub open spec fn perform(link: Link, action: ActionView, faults: Faults) -> Option<
    (Link, EventView),
> {
    match action {
        ActionView::Read(n) => if 0 <= n <= link.input.len() {
            Some(
                (
                    Link { input: link.input.skip(n), ..link },
                    EventView::Bytes(link.input.take(n)),
                ),
            )
        } else {
            Some((Link { input: seq![], ..link }, EventView::Failed(faults.eof)))
        },
        ActionView::Write(bytes) => if link.open {
            Some((Link { sent: link.sent + bytes, ..link }, EventView::Done))
        } else {
            Some((link, EventView::Failed(faults.closed)))
        },
        ActionView::Shutdown => Some((Link { open: false, ..link }, EventView::Done)),
        _ => None,
    }
}

/// How far a session is from its end, at most.
pub open spec fn stage_rank(stage: Stage) -> nat {
    match stage {
        Stage::Idle => 21,
        Stage::Greeting => 20,
        Stage::Methods(_) => 19,
        Stage::Selecting(_) => 18,
        Stage::Credentials => 17,
        Stage::Username(_) => 16,
        Stage::PasswordLength => 15,
        Stage::Password(_) => 14,
        Stage::Verdict(_) => 13,
        Stage::RequestHeader => 12,
        Stage::DomainLength => 11,
        Stage::Address(_) => 10,
        Stage::Port => 9,
        Stage::Rejecting => 8,
        Stage::Resolving | Stage::Listening(_) | Stage::BindingUdp(_) => 7,
        Stage::Connecting | Stage::BindReply(_) | Stage::UdpReply(_) => 6,
        Stage::ConnectReply
        | Stage::Accepting(_)
        | Stage::Sending(_)
        | Stage::LookingUp(_) => 5,
        Stage::PeerReply | Stage::Associated(_) => 4,
        Stage::Relaying => 3,
        Stage::Over => 0,
    }
}

/// How far a connection is from its end, at most.
pub open spec fn run_rank(run: RunView) -> nat {
    match run.phase {
        Phase::Serving => 3 + stage_rank(run.client.stage),
        Phase::Replying => 2,
        Phase::Closing => 1,
        Phase::Closed => 0,
    }
}

/// Reading, writing and shutting down always bring a connection nearer to its
/// end: no client can keep it busy with these for ever.
pub proof fn law_stream_events_make_progress(before: RunView, event: EventView)
    requires
        event is Bytes || event is Done || event is Failed,
    ensures
        ({
            let (after, action) = run::run_step(before, event);
            if action is Ignored {
                after == before
            } else {
                run_rank(after) < run_rank(before)
            }
        }),
{
}

/// A conversation over the stream: every action for the stream is performed,
/// until the connection asks for something else.
#[verifier::opaque]
pub open spec fn converse(run: RunView, action: ActionView, link: Link, faults: Faults) -> (
    RunView,
    ActionView,
    Link,
)
    decreases
            run_rank(run),
            (if action is Ignored {
                0int
            } else {
                1int
            }),
{
    match perform(link, action, faults) {
        Some((link, event)) => {
            let (next, wanted) = run::run_step(run, event);
            proof {
                law_stream_events_make_progress(run, event);
            }
            converse(next, wanted, link, faults)
        },
        None => (run, action, link),
    }
}

// ---------------------------------------------------------------- expectations
/// What a session makes of a parse error: a message that is cut short ends
/// with the error of the stream.
pub open spec fn stream_error(error: ErrorView, eof: IoErrorView) -> ErrorView {
    if error == error::truncated_error() {
        ErrorView::Io(eof)
    } else {
        error
    }
}

/// How a negotiation ends.
#[verifier::ext_equal]
pub enum Outcome {
    /// With a request, and this many bytes of the input read.
    Request(RequestView, int),
    /// With an error that the client is told about, and this many bytes read.
    Failed(ErrorView, int),
    /// With an error, after the stream was shut down, and this many bytes read.
    TurnedAway(ErrorView, int),
}

/// How the request that starts at `at` in `input` ends a negotiation. One that
/// is refused for its fixed header is refused before anything after it is read.
pub open spec fn request_outcome(input: Seq<u8>, at: int, eof: IoErrorView) -> Outcome {
    match wire::request_at(input.skip(at)) {
        Ok((request, consumed)) => Outcome::Request(request, at + consumed),
        Err(error) => Outcome::Failed(
            stream_error(error, eof),
            if error == error::truncated_error() {
                input.len() as int
            } else {
                at + 4
            },
        ),
    }
}

/// How a negotiation over `input` goes: what is sent to the client, and how it
/// ends. A client that cannot be authenticated is turned away.
pub open spec fn negotiated(c: ClientView, input: Seq<u8>, eof: IoErrorView) -> (
    Seq<u8>,
    Outcome,
) {
    let failure = ErrorView::Socks(ResponseCode::Failure);
    if input.len() >= 2 && input[0] != SOCKS_VERSION {
        (seq![], Outcome::TurnedAway(failure, 2))
    } else {
        match wire::greeting_at(input) {
            Err(error) => (
                seq![],
                Outcome::Failed(stream_error(error, eof), input.len() as int),
            ),
            Ok((_, _, offered, n)) => {
                let method = auth::chosen_method(c.methods, offered);
                let selection = seq![SOCKS_VERSION, protocol::method_byte(method)];
                match method {
                    AuthMethods::NoMethods => (selection, Outcome::TurnedAway(failure, n)),
                    AuthMethods::NoAuth => (selection, request_outcome(input, n, eof)),
                    AuthMethods::UserPass => match wire::userpass_at(input.skip(n)) {
                        Err(error) => (
                            selection,
                            Outcome::Failed(stream_error(error, eof), input.len() as int),
                        ),
                        Ok((frame, m)) => {
                            let access = auth::granted(c.users, frame);
                            (
                                selection + session::verdict_bytes(access),
                                if access {
                                    request_outcome(input, n + m, eof)
                                } else {
                                    Outcome::TurnedAway(failure, n + m)
                                },
                            )
                        },
                    },
                }
            },
        }
    }
}

/// The reply that tells a client about an error.
pub open spec fn error_reply(error: ErrorView) -> Seq<u8> {
    reply::reply_bytes(error::code_for(error), reply::unspecified())
}

/// Whether the conversation is over: the stream is shut down after exactly
/// `sent` has reached the client and all but `unread` of the input was read,
/// and the connection ended with `error`.
pub open spec fn closed_with(
    end: (RunView, ActionView, Link),
    sent: Seq<u8>,
    error: ErrorView,
    unread: Seq<u8>,
) -> bool {
    let (run, action, link) = end;
    &&& run.phase == Phase::Closed
    &&& action == ActionView::Finished(Err(error))
    &&& link == (Link { input: unread, sent, open: false })
}

/// Whether the connection, after sending `sent`, has taken up `request` and
/// read `consumed` bytes of `input`. A request that is refused outright is
/// answered with an error reply.
pub open spec fn taken_up(
    end: (RunView, ActionView, Link),
    c: ClientView,
    input: Seq<u8>,
    sent: Seq<u8>,
    request: RequestView,
    consumed: int,
) -> bool {
    let (run, action, link) = end;
    let (client, first) = session::requested(c, request);
    match first {
        ActionView::Finished(Err(error)) => closed_with(
            end,
            sent + error_reply(error),
            error,
            input.skip(consumed),
        ),
        _ => {
            &&& run == (RunView { client, phase: Phase::Serving, failure: None })
            &&& action == first
            &&& link == (Link { input: input.skip(consumed), sent, open: true })
        },
    }
}

/// The session of a client whose greeting was `input`.
pub open spec fn greeted(c: ClientView, input: Seq<u8>) -> ClientView {
    ClientView {
        socks_version: input[0],
        auth_nmethods: input[1],
        request: None,
        budgeted: true,
        ..c
    }
}

/// The conversation that a client's input leads to.
pub open spec fn whole_conversation(c: ClientView, input: Seq<u8>, faults: Faults) -> (
    RunView,
    ActionView,
    Link,
) {
    let (run, action) = run::run_started(
        RunView { client: c, phase: Phase::Serving, failure: None },
    );
    converse(run, action, Link { input, sent: seq![], open: true }, faults)
}

// ---------------------------------------------------------------- proofs
/// One exchange of a conversation.
proof fn lemma_exchange(run: RunView, action: ActionView, link: Link, faults: Faults)
    ensures
        match perform(link, action, faults) {
            Some((after, event)) => converse(run, action, link, faults) == ({
                let (next, wanted) = run::run_step(run, event);
                converse(next, wanted, after, faults)
            }),
            None => converse(run, action, link, faults) == (run, action, link),
        },
{
    reveal(converse);
}

/// How a conversation ends once the session has failed.
proof fn lemma_farewell(run: RunView, error: ErrorView, link: Link, faults: Faults)
    requires
        run.phase == Phase::Replying,
        run.failure == Some(error),
    ensures
        closed_with(
            converse(run, ActionView::Write(error_reply(error)), link, faults),
            if link.open {
                link.sent + error_reply(error)
            } else {
                link.sent
            },
            error,
            link.input,
        ),
{
    let write = ActionView::Write(error_reply(error));
    lemma_exchange(run, write, link, faults);
    let (link1, event1) = perform(link, write, faults)->0;
    let (run1, action1) = run::run_step(run, event1);
    lemma_exchange(run1, action1, link1, faults);
    let (link2, event2) = perform(link1, action1, faults)->0;
    let (run2, action2) = run::run_step(run1, event2);
    lemma_exchange(run2, action2, link2, faults);
}

/// How a conversation ends when the stream ends during a read.
proof fn lemma_cut_short(run: RunView, n: int, link: Link, faults: Faults)
    requires
        run.phase == Phase::Serving,
        session::in_handshake(run.client.stage),
        link.input.len() < n,
        link.open,
    ensures
        closed_with(
            converse(run, ActionView::Read(n), link, faults),
            link.sent + error_reply(ErrorView::Io(faults.eof)),
            ErrorView::Io(faults.eof),
            seq![],
        ),
{
    lemma_exchange(run, ActionView::Read(n), link, faults);
    let (link1, event1) = perform(link, ActionView::Read(n), faults)->0;
    let (run1, action1) = run::run_step(run, event1);
    lemma_farewell(run1, ErrorView::Io(faults.eof), link1, faults);
}

/// Whether a conversation ends as `outcome` says.
pub open spec fn ends_as(
    end: (RunView, ActionView, Link),
    c: ClientView,
    input: Seq<u8>,
    sent: Seq<u8>,
    outcome: Outcome,
) -> bool {
    match outcome {
        Outcome::Request(request, consumed) => taken_up(end, c, input, sent, request, consumed),
        Outcome::Failed(error, read) => closed_with(
            end,
            sent + error_reply(error),
            error,
            input.skip(read),
        ),
        Outcome::TurnedAway(error, read) => closed_with(end, sent, error, input.skip(read)),
    }
}

/// Whether `rest` starts with a request whose address field has `n` bytes that
/// start at `k`.
spec fn address_at(rest: Seq<u8>, k: int, n: u8) -> bool {
    &&& 4 <= k <= rest.len()
    &&& rest[0] == SOCKS_VERSION
    &&& protocol::command_of(rest[1] as int) is Some
    &&& match protocol::addr_type_of(rest[3] as int) {
        Some(AddrType::V4) => k == 4 && n == 4,
        Some(AddrType::V6) => k == 4 && n == 16,
        Some(AddrType::Domain) => k == 5 && n == rest[4],
        None => false,
    }
}

/// A request is parsed from its own bytes as from all that follows it.
proof fn lemma_whole_frame(rest: Seq<u8>, k: int, n: u8)
    requires
        address_at(rest, k, n),
    ensures
        rest.len() < k + n + 2 ==> wire::request_at(rest) == Err::<(RequestView, int), _>(
            error::truncated_error(),
        ),
        rest.len() >= k + n + 2 ==> {
            &&& wire::request_at(rest.take(k + n + 2)) == wire::request_at(rest)
            &&& wire::request_at(rest) matches Ok((_, consumed)) && consumed == k + n + 2
        },
{
    if rest.len() >= k + n + 2 {
        let frame = rest.take(k + n + 2);
        assert(frame.subrange(k, k + n) =~= rest.subrange(k, k + n));
    }
}

/// How a conversation goes from the port on, when the request starts at `at`
/// in the input and all before its port is held.
proof fn lemma_port(
    run: RunView,
    link: Link,
    faults: Faults,
    c: ClientView,
    input: Seq<u8>,
    at: int,
    k: int,
    n: u8,
)
    requires
        0 <= at <= input.len(),
        address_at(input.skip(at), k, n),
        k + n <= input.skip(at).len(),
        run.phase == Phase::Serving,
        run.failure is None,
        run.client == (ClientView {
            stage: Stage::Port,
            held: input.skip(at).take(k + n),
            request: None,
            ..c
        }),
        link == (Link { input: input.skip(at + k + n), sent: link.sent, open: true }),
    ensures
        ends_as(
            converse(run, ActionView::Read(2), link, faults),
            c,
            input,
            link.sent,
            request_outcome(input, at, faults.eof),
        ),
{
    assert(input.skip(input.len() as int) =~= seq![]);
    let rest = input.skip(at);
    let end = k + n;
    lemma_whole_frame(rest, k, n);
    if rest.len() < end + 2 {
        lemma_cut_short(run, 2, link, faults);
    } else {
        lemma_exchange(run, ActionView::Read(2), link, faults);
        let (link1, event1) = perform(link, ActionView::Read(2), faults)->0;
        assert(event1 is Bytes);
        let (run1, action1) = run::run_step(run, event1);
        assert(run.client.held + event1->Bytes_0 =~= rest.take(end + 2));
        let request = wire::request_at(rest)->Ok_0.0;
        let (client, first) = session::requested(c, request);
        assert(session::requested(run.client, request).0 =~= client);
        assert(link1.input =~= input.skip(at + end + 2));
        match first {
            ActionView::Finished(Err(error)) => {
                lemma_farewell(run1, error, link1, faults);
            },
            _ => {
                assert(run1 =~= (RunView { client, phase: Phase::Serving, failure: None }));
                assert(perform(link1, first, faults) is None);
                lemma_exchange(run1, action1, link1, faults);
            },
        }
    }
}

/// How a conversation goes from an address of `n` bytes on, when the request
/// starts at `at` in the input and its first `k` bytes are held.
proof fn lemma_address(
    run: RunView,
    link: Link,
    faults: Faults,
    c: ClientView,
    input: Seq<u8>,
    at: int,
    k: int,
    n: u8,
)
    requires
        0 <= at <= input.len(),
        address_at(input.skip(at), k, n),
        run.phase == Phase::Serving,
        run.failure is None,
        run.client == (ClientView {
            stage: Stage::Address(n),
            held: input.skip(at).take(k),
            request: None,
            ..c
        }),
        link == (Link { input: input.skip(at + k), sent: link.sent, open: true }),
    ensures
        ends_as(
            converse(run, ActionView::Read(n as int), link, faults),
            c,
            input,
            link.sent,
            request_outcome(input, at, faults.eof),
        ),
{
    assert(input.skip(input.len() as int) =~= seq![]);
    let rest = input.skip(at);
    if rest.len() < k + n {
        lemma_whole_frame(rest, k, n);
        lemma_cut_short(run, n as int, link, faults);
    } else {
        lemma_exchange(run, ActionView::Read(n as int), link, faults);
        let (link1, event1) = perform(link, ActionView::Read(n as int), faults)->0;
        let (run1, action1) = run::run_step(run, event1);
        assert(run1.client.held =~= rest.take(k + n));
        assert(link1.input =~= input.skip(at + k + n));
        lemma_port(run1, link1, faults, c, input, at, k, n);
    }
}

/// How a conversation goes from the request on, when the request starts at
/// `at` in the input.
proof fn lemma_request(
    run: RunView,
    link: Link,
    faults: Faults,
    c: ClientView,
    input: Seq<u8>,
    at: int,
)
    requires
        0 <= at <= input.len(),
        run.phase == Phase::Serving,
        run.failure is None,
        run.client == (ClientView {
            stage: Stage::RequestHeader,
            held: seq![],
            request: None,
            ..c
        }),
        link == (Link { input: input.skip(at), sent: link.sent, open: true }),
    ensures
        ends_as(
            converse(run, ActionView::Read(4), link, faults),
            c,
            input,
            link.sent,
            request_outcome(input, at, faults.eof),
        ),
{
    assert(input.skip(input.len() as int) =~= seq![]);
    let rest = input.skip(at);
    if rest.len() < 4 {
        lemma_cut_short(run, 4, link, faults);
    } else {
        lemma_exchange(run, ActionView::Read(4), link, faults);
        let (link1, event1) = perform(link, ActionView::Read(4), faults)->0;
        let (run1, action1) = run::run_step(run, event1);
        assert(run.client.held + event1->Bytes_0 =~= rest.take(4));
        assert(link1.input =~= input.skip(at + 4));
        if rest[0] != SOCKS_VERSION {
            lemma_farewell(run1, ErrorView::Socks(ResponseCode::Failure), link1, faults);
        } else if protocol::command_of(rest[1] as int) is None {
            let error = ErrorView::Socks(ResponseCode::CommandNotSupported);
            lemma_farewell(run1, error, link1, faults);
        } else {
            match protocol::addr_type_of(rest[3] as int) {
                None => {
                    let error = ErrorView::Socks(ResponseCode::AddrTypeNotSupported);
                    lemma_farewell(run1, error, link1, faults);
                },
                Some(AddrType::V4) => {
                    lemma_address(run1, link1, faults, c, input, at, 4, 4);
                },
                Some(AddrType::V6) => {
                    lemma_address(run1, link1, faults, c, input, at, 4, 16);
                },
                Some(AddrType::Domain) => {
                    if rest.len() < 5 {
                        lemma_cut_short(run1, 1, link1, faults);
                    } else {
                        lemma_exchange(run1, action1, link1, faults);
                        let (link2, event2) = perform(link1, action1, faults)->0;
                        let (run2, action2) = run::run_step(run1, event2);
                        assert(run1.client.held + event2->Bytes_0 =~= rest.take(5));
                        assert(link2.input =~= input.skip(at + 5));
                        lemma_address(run2, link2, faults, c, input, at, 5, rest[4]);
                    }
                },
            }
        }
    }
}

/// How a conversation ends when the client is turned away.
proof fn lemma_turned_away(run: RunView, link: Link, faults: Faults)
    requires
        run.phase == Phase::Serving,
        run.client.stage == Stage::Rejecting,
    ensures
        closed_with(
            converse(run, ActionView::Shutdown, link, faults),
            link.sent,
            ErrorView::Socks(ResponseCode::Failure),
            link.input,
        ),
{
    lemma_exchange(run, ActionView::Shutdown, link, faults);
    let (link1, event1) = perform(link, ActionView::Shutdown, faults)->0;
    let (run1, action1) = run::run_step(run, event1);
    lemma_farewell(run1, ErrorView::Socks(ResponseCode::Failure), link1, faults);
}

/// Whether a conversation ends as the credentials that start at `at` in the
/// input, and what follows them, say.
spec fn ends_as_credentials(
    end: (RunView, ActionView, Link),
    c: ClientView,
    input: Seq<u8>,
    at: int,
    sent: Seq<u8>,
    eof: IoErrorView,
) -> bool {
    match wire::userpass_at(input.skip(at)) {
        Err(error) => closed_with(
            end,
            sent + error_reply(stream_error(error, eof)),
            stream_error(error, eof),
            seq![],
        ),
        Ok((frame, m)) => {
            let access = auth::granted(c.users, frame);
            ends_as(
                end,
                c,
                input,
                sent + session::verdict_bytes(access),
                if access {
                    request_outcome(input, at + m, eof)
                } else {
                    Outcome::TurnedAway(ErrorView::Socks(ResponseCode::Failure), at + m)
                },
            )
        },
    }
}

/// A USERPASS frame is parsed from its own bytes as from all that follows it.
proof fn lemma_whole_userpass(rest: Seq<u8>)
    requires
        rest.len() >= 2,
        rest.len() >= 3 + rest[1],
        rest.len() >= 3 + rest[1] + rest[2 + rest[1]],
    ensures
        wire::userpass_at(rest.take(3 + rest[1] + rest[2 + rest[1]])) == wire::userpass_at(rest),
{
    let ulen = rest[1] as int;
    let m = 3 + ulen + rest[2 + ulen];
    let frame = rest.take(m);
    assert(frame.subrange(2, 2 + ulen) =~= rest.subrange(2, 2 + ulen));
    assert(frame.subrange(3 + ulen, m) =~= rest.subrange(3 + ulen, m));
}

/// How a conversation goes from the password on, when the credentials start at
/// `at` in the input and all before the password is held.
proof fn lemma_password(
    run: RunView,
    link: Link,
    faults: Faults,
    c: ClientView,
    input: Seq<u8>,
    at: int,
    k: int,
    n: u8,
)
    requires
        0 <= at <= input.len(),
        ({
            let rest = input.skip(at);
            &&& 3 <= k <= rest.len()
            &&& k == 3 + rest[1]
            &&& n == rest[k - 1]
        }),
        run.phase == Phase::Serving,
        run.failure is None,
        run.client == (ClientView {
            stage: Stage::Password(n),
            held: input.skip(at).take(k),
            request: None,
            ..c
        }),
        link == (Link { input: input.skip(at + k), sent: link.sent, open: true }),
    ensures
        ends_as_credentials(
            converse(run, ActionView::Read(n as int), link, faults),
            c,
            input,
            at,
            link.sent,
            faults.eof,
        ),
{
    let rest = input.skip(at);
    let read = ActionView::Read(n as int);
    if rest.len() < k + n {
        lemma_cut_short(run, n as int, link, faults);
    } else {
        let m = k + n;
        lemma_exchange(run, read, link, faults);
        let (link1, event1) = perform(link, read, faults)->0;
        let (run1, action1) = run::run_step(run, event1);
        assert(run.client.held + event1->Bytes_0 =~= rest.take(m));
        lemma_whole_userpass(rest);
        assert(link1.input =~= input.skip(at + m));
        lemma_exchange(run1, action1, link1, faults);
        let (link2, event2) = perform(link1, action1, faults)->0;
        let (run2, action2) = run::run_step(run1, event2);
        if auth::granted(c.users, wire::userpass_at(rest)->Ok_0.0) {
            lemma_request(run2, link2, faults, c, input, at + m);
        } else {
            lemma_turned_away(run2, link2, faults);
        }
    }
}

/// How a conversation goes from the username on, when the credentials start at
/// `at` in the input.
proof fn lemma_username(
    run: RunView,
    link: Link,
    faults: Faults,
    c: ClientView,
    input: Seq<u8>,
    at: int,
)
    requires
        0 <= at <= input.len(),
        input.skip(at).len() >= 2,
        run.phase == Phase::Serving,
        run.failure is None,
        run.client == (ClientView {
            stage: Stage::Username(input.skip(at)[1]),
            held: input.skip(at).take(2),
            request: None,
            ..c
        }),
        link == (Link { input: input.skip(at + 2), sent: link.sent, open: true }),
    ensures
        ends_as_credentials(
            converse(run, ActionView::Read(input.skip(at)[1] as int), link, faults),
            c,
            input,
            at,
            link.sent,
            faults.eof,
        ),
{
    let rest = input.skip(at);
    let ulen = rest[1] as int;
    let read = ActionView::Read(ulen);
    if rest.len() < 2 + ulen {
        lemma_cut_short(run, ulen, link, faults);
    } else {
        lemma_exchange(run, read, link, faults);
        let (link1, event1) = perform(link, read, faults)->0;
        let (run1, action1) = run::run_step(run, event1);
        assert(run1.client.held =~= rest.take(2 + ulen));
        assert(link1.input =~= input.skip(at + 2 + ulen));
        if rest.len() < 3 + ulen {
            lemma_cut_short(run1, 1, link1, faults);
        } else {
            lemma_exchange(run1, action1, link1, faults);
            let (link2, event2) = perform(link1, action1, faults)->0;
            let (run2, action2) = run::run_step(run1, event2);
            assert(run2.client.held =~= rest.take(3 + ulen));
            assert(link2.input =~= input.skip(at + 3 + ulen));
            lemma_password(run2, link2, faults, c, input, at, 3 + ulen, rest[2 + ulen]);
        }
    }
}

/// How a conversation goes from the credentials on, when they start at `at` in
/// the input.
proof fn lemma_credentials(
    run: RunView,
    link: Link,
    faults: Faults,
    c: ClientView,
    input: Seq<u8>,
    at: int,
)
    requires
        0 <= at <= input.len(),
        run.phase == Phase::Serving,
        run.failure is None,
        run.client == (ClientView { stage: Stage::Credentials, held: seq![], request: None, ..c }),
        link == (Link { input: input.skip(at), sent: link.sent, open: true }),
    ensures
        ends_as_credentials(
            converse(run, ActionView::Read(2), link, faults),
            c,
            input,
            at,
            link.sent,
            faults.eof,
        ),
{
    let rest = input.skip(at);
    if rest.len() < 2 {
        lemma_cut_short(run, 2, link, faults);
    } else {
        lemma_exchange(run, ActionView::Read(2), link, faults);
        let (link1, event1) = perform(link, ActionView::Read(2), faults)->0;
        let (run1, action1) = run::run_step(run, event1);
        assert(run1.client.held =~= rest.take(2));
        assert(link1.input =~= input.skip(at + 2));
        lemma_username(run1, link1, faults, c, input, at);
    }
}

/// How a conversation goes from the offered methods on.
proof fn lemma_methods(run: RunView, link: Link, faults: Faults, c: ClientView, input: Seq<u8>)
    requires
        input.len() >= 2,
        input.len() >= 2 + input[1],
        input[0] == SOCKS_VERSION,
        run.phase == Phase::Serving,
        run.failure is None,
        run.client == (ClientView {
            stage: Stage::Methods(input[1]),
            held: seq![],
            request: None,
            ..c
        }),
        link == (Link { input: input.skip(2), sent: seq![], open: true }),
    ensures
        ({
            let (sent, outcome) = negotiated(c, input, faults.eof);
            ends_as(
                converse(run, ActionView::Read(input[1] as int), link, faults),
                c,
                input,
                sent,
                outcome,
            )
        }),
{
    assert(input.skip(input.len() as int) =~= seq![]);
    let n = 2 + input[1] as int;
    let read = ActionView::Read(input[1] as int);
    let offered = input.subrange(2, n);
    let method = auth::chosen_method(c.methods, offered);
    lemma_exchange(run, read, link, faults);
    let (link1, event1) = perform(link, read, faults)->0;
    assert(event1->Bytes_0 =~= offered);
    let (run1, action1) = run::run_step(run, event1);
    assert(link1.input =~= input.skip(n));
    lemma_exchange(run1, action1, link1, faults);
    let (link2, event2) = perform(link1, action1, faults)->0;
    let (run2, action2) = run::run_step(run1, event2);
    assert(link2.sent =~= seq![SOCKS_VERSION, protocol::method_byte(method)]);
    match method {
        AuthMethods::NoMethods => {
            lemma_turned_away(run2, link2, faults);
        },
        AuthMethods::NoAuth => {
            lemma_request(run2, link2, faults, c, input, n);
        },
        AuthMethods::UserPass => {
            lemma_credentials(run2, link2, faults, c, input, n);
        },
    }
}

/// How a negotiation without authentication goes.
proof fn lemma_open_client(
    c: ClientView,
    offered: Seq<u8>,
    request: RequestView,
    reserved: u8,
    tail: Seq<u8>,
    eof: IoErrorView,
)
    requires
        offered.len() <= 255,
        auth::chosen_method(c.methods, offered) == AuthMethods::NoAuth,
        request.version == SOCKS_VERSION,
        wire::addr_fits(request.addr_type, request.addr),
    ensures
        ({
            let head = wire::greeting_bytes(SOCKS_VERSION, offered) + wire::request_bytes(
                request,
                reserved,
            );
            negotiated(c, head + tail, eof) == (
                seq![0x05u8, 0x00],
                Outcome::Request(request, head.len() as int),
            )
        }),
{
    let greeting = wire::greeting_bytes(SOCKS_VERSION, offered);
    let written = wire::request_bytes(request, reserved);
    let input = greeting + written + tail;
    assert(input =~= greeting + (written + tail));
    wire::law_greeting_round_trip(SOCKS_VERSION, offered, written + tail, seq![]);
    assert(input.skip(greeting.len() as int) =~= written + tail);
    wire::law_request_round_trip(request, reserved, tail);
}

/// How a negotiation with credentials that are granted access goes.
proof fn lemma_authenticated_client(
    c: ClientView,
    offered: Seq<u8>,
    credentials: UserPassView,
    request: RequestView,
    reserved: u8,
    tail: Seq<u8>,
    eof: IoErrorView,
)
    requires
        offered.len() <= 255,
        auth::chosen_method(c.methods, offered) == AuthMethods::UserPass,
        credentials.username.len() <= 255,
        credentials.password.len() <= 255,
        auth::granted(c.users, credentials),
        request.version == SOCKS_VERSION,
        wire::addr_fits(request.addr_type, request.addr),
    ensures
        ({
            let head = wire::greeting_bytes(SOCKS_VERSION, offered) + wire::userpass_bytes(
                credentials,
            ) + wire::request_bytes(request, reserved);
            negotiated(c, head + tail, eof) == (
                seq![0x05u8, 0x02, 0x01, 0x00],
                Outcome::Request(request, head.len() as int),
            )
        }),
{
    let greeting = wire::greeting_bytes(SOCKS_VERSION, offered);
    let frame = wire::userpass_bytes(credentials);
    let written = wire::request_bytes(request, reserved);
    let input = greeting + frame + written + tail;
    let n = greeting.len() as int;
    let m = frame.len() as int;
    assert(input =~= greeting + (frame + (written + tail)));
    wire::law_greeting_round_trip(SOCKS_VERSION, offered, frame + (written + tail), seq![]);
    assert(input.skip(n) =~= frame + (written + tail));
    wire::law_userpass_round_trip(credentials, written + tail, seq![]);
    assert(input.skip(n + m) =~= written + tail);
    wire::law_request_round_trip(request, reserved, tail);
    assert(seq![0x05u8, 0x02u8] + session::verdict_bytes(true) =~= seq![0x05u8, 0x02, 0x01, 0x00]);
}

/// How a negotiation with credentials that are not granted access goes.
proof fn lemma_denied_client(
    c: ClientView,
    offered: Seq<u8>,
    credentials: UserPassView,
    tail: Seq<u8>,
    eof: IoErrorView,
)
    requires
        offered.len() <= 255,
        auth::chosen_method(c.methods, offered) == AuthMethods::UserPass,
        credentials.username.len() <= 255,
        credentials.password.len() <= 255,
        !auth::granted(c.users, credentials),
    ensures
        ({
            let head = wire::greeting_bytes(SOCKS_VERSION, offered) + wire::userpass_bytes(
                credentials,
            );
            negotiated(c, head + tail, eof) == (
                seq![0x05u8, 0x02, 0x01, 0x01],
                Outcome::TurnedAway(
                    ErrorView::Socks(ResponseCode::Failure),
                    head.len() as int,
                ),
            )
        }),
{
    let greeting = wire::greeting_bytes(SOCKS_VERSION, offered);
    let frame = wire::userpass_bytes(credentials);
    let input = greeting + frame + tail;
    let n = greeting.len() as int;
    assert(input =~= greeting + (frame + tail));
    wire::law_greeting_round_trip(SOCKS_VERSION, offered, frame + tail, seq![]);
    assert(input.skip(n) =~= frame + tail);
    wire::law_userpass_round_trip(credentials, tail, seq![]);
    assert(seq![0x05u8, 0x02u8] + session::verdict_bytes(false) =~= seq![0x05u8, 0x02, 0x01, 0x01]);
}

// ---------------------------------------------------------------- laws
/// A connection answers a client as the parsers and the authentication rules
/// say, applied to everything the client sends, whatever that is.
///
/// In particular: every error is reported by exactly one well-formed reply
/// before the stream is shut down; a client with the wrong version, without a
/// suitable method or with bad credentials is turned away without one; nothing
/// is asked of the outside world before the whole request is there; bytes after
/// the request are left for the relay; and of a message that is refused,
/// nothing is read beyond what it is refused for.
pub proof fn law_conversation_follows_the_parsers(
    c: ClientView,
    input: Seq<u8>,
    faults: Faults,
)
    ensures
        ({
            let (sent, outcome) = negotiated(c, input, faults.eof);
            ends_as(
                whole_conversation(c, input, faults),
                greeted(c, input),
                input,
                sent,
                outcome,
            )
        }),
{
    assert(input.skip(input.len() as int) =~= seq![]);
    let link = Link { input, sent: seq![], open: true };
    let (run, action) = run::run_started(
        RunView { client: c, phase: Phase::Serving, failure: None },
    );
    if input.len() < 2 {
        lemma_cut_short(run, 2, link, faults);
    } else {
        lemma_exchange(run, action, link, faults);
        let (link1, event1) = perform(link, action, faults)->0;
        let (run1, action1) = run::run_step(run, event1);
        if input[0] != SOCKS_VERSION {
            lemma_turned_away(run1, link1, faults);
        } else if input.len() < 2 + input[1] {
            lemma_cut_short(run1, input[1] as int, link1, faults);
        } else {
            assert(link1.input =~= input.skip(2));
            lemma_methods(run1, link1, faults, greeted(c, input), input);
        }
    }
}

/// A request with an unknown command is answered with `command not supported`,
/// one with an unknown address type with `address type not supported`, however
/// the client was let in and whatever follows. Nothing after the fixed header
/// is read.
pub proof fn law_unsupported_requests_are_reported(
    c: ClientView,
    input: Seq<u8>,
    faults: Faults,
    sent: Seq<u8>,
    at: int,
)
    requires
        negotiated(c, input, faults.eof) == (sent, request_outcome(input, at, faults.eof)),
        0 <= at,
        at + 4 <= input.len(),
        input[at] == SOCKS_VERSION,
        protocol::command_of(input[at + 1] as int) is None || protocol::addr_type_of(
            input[at + 3] as int,
        ) is None,
    ensures
        ({
            let code = if protocol::command_of(input[at + 1] as int) is None {
                ResponseCode::CommandNotSupported
            } else {
                ResponseCode::AddrTypeNotSupported
            };
            closed_with(
                whole_conversation(c, input, faults),
                sent + seq![0x05u8, error::response_byte(code), 0, 0x01, 0, 0, 0, 0, 0, 0],
                ErrorView::Socks(code),
                input.skip(at + 4),
            )
        }),
{
    law_conversation_follows_the_parsers(c, input, faults);
    reply::law_unspecified_reply(ResponseCode::CommandNotSupported);
    reply::law_unspecified_reply(ResponseCode::AddrTypeNotSupported);
    assert(input.skip(at)[0] == input[at]);
    assert(input.skip(at)[1] == input[at + 1]);
    assert(input.skip(at)[3] == input[at + 3]);
}

/// A request is taken up only from a client that both sides agree needs no
/// authentication, or whose credentials are granted access.
pub proof fn law_requests_come_from_admitted_clients(
    c: ClientView,
    input: Seq<u8>,
    eof: IoErrorView,
)
    ensures
        negotiated(c, input, eof).1 is Request ==> {
            wire::greeting_at(input) matches Ok((version, _, offered, n)) && version
                == SOCKS_VERSION && match auth::chosen_method(c.methods, offered) {
                AuthMethods::NoAuth => true,
                AuthMethods::UserPass => wire::userpass_at(input.skip(n)) matches Ok((frame, _))
                    && auth::granted(c.users, frame),
                AuthMethods::NoMethods => false,
            }
        },
{
}

/// A client that needs no authentication and sends a well-formed request gets
/// it taken up, byte for byte as it was written; all that follows is left for
/// the relay.
pub proof fn law_open_client_is_served(
    c: ClientView,
    offered: Seq<u8>,
    request: RequestView,
    reserved: u8,
    tail: Seq<u8>,
    faults: Faults,
)
    requires
        offered.len() <= 255,
        auth::chosen_method(c.methods, offered) == AuthMethods::NoAuth,
        request.version == SOCKS_VERSION,
        wire::addr_fits(request.addr_type, request.addr),
    ensures
        ({
            let head = wire::greeting_bytes(SOCKS_VERSION, offered) + wire::request_bytes(
                request,
                reserved,
            );
            taken_up(
                whole_conversation(c, head + tail, faults),
                greeted(c, head + tail),
                head + tail,
                seq![0x05u8, 0x00],
                request,
                head.len() as int,
            )
        }),
{
    let head = wire::greeting_bytes(SOCKS_VERSION, offered) + wire::request_bytes(
        request,
        reserved,
    );
    lemma_open_client(c, offered, request, reserved, tail, faults.eof);
    law_conversation_follows_the_parsers(c, head + tail, faults);
}

/// A client with credentials that are granted access gets its well-formed
/// request taken up, byte for byte as it was written; all that follows is left
/// for the relay.
pub proof fn law_authenticated_client_is_served(
    c: ClientView,
    offered: Seq<u8>,
    credentials: UserPassView,
    request: RequestView,
    reserved: u8,
    tail: Seq<u8>,
    faults: Faults,
)
    requires
        offered.len() <= 255,
        auth::chosen_method(c.methods, offered) == AuthMethods::UserPass,
        credentials.username.len() <= 255,
        credentials.password.len() <= 255,
        auth::granted(c.users, credentials),
        request.version == SOCKS_VERSION,
        wire::addr_fits(request.addr_type, request.addr),
    ensures
        ({
            let head = wire::greeting_bytes(SOCKS_VERSION, offered) + wire::userpass_bytes(
                credentials,
            ) + wire::request_bytes(request, reserved);
            taken_up(
                whole_conversation(c, head + tail, faults),
                greeted(c, head + tail),
                head + tail,
                seq![0x05u8, 0x02, 0x01, 0x00],
                request,
                head.len() as int,
            )
        }),
{
    let head = wire::greeting_bytes(SOCKS_VERSION, offered) + wire::userpass_bytes(credentials)
        + wire::request_bytes(request, reserved);
    lemma_authenticated_client(c, offered, credentials, request, reserved, tail, faults.eof);
    law_conversation_follows_the_parsers(c, head + tail, faults);
}

/// A client that is turned away - for its version, for want of a suitable
/// method, or for its credentials - sees the stream end after at most the
/// selected method and the verdict, and no reply.
pub proof fn law_clients_turned_away_get_no_reply(
    c: ClientView,
    input: Seq<u8>,
    faults: Faults,
)
    requires
        negotiated(c, input, faults.eof).1 is TurnedAway,
    ensures
        closed_with(
            whole_conversation(c, input, faults),
            negotiated(c, input, faults.eof).0,
            ErrorView::Socks(ResponseCode::Failure),
            input.skip(negotiated(c, input, faults.eof).1->TurnedAway_1),
        ),
        negotiated(c, input, faults.eof).0 == Seq::<u8>::empty() || negotiated(c, input, faults.eof).0
            == seq![0x05u8, 0xFF] || negotiated(c, input, faults.eof).0 == seq![
            0x05u8,
            0x02,
            0x01,
            0x01,
        ],
{
    law_conversation_follows_the_parsers(c, input, faults);
    assert(seq![0x05u8, 0x02u8] + session::verdict_bytes(false) =~= seq![0x05u8, 0x02, 0x01, 0x01]);
}

/// A client whose credentials are not granted access is told so and turned
/// away, and what follows the credentials is never read. Credentials that are
/// no text never are granted access, whoever the users are.
pub proof fn law_denied_client_is_turned_away(
    c: ClientView,
    offered: Seq<u8>,
    credentials: UserPassView,
    tail: Seq<u8>,
    faults: Faults,
)
    requires
        offered.len() <= 255,
        auth::chosen_method(c.methods, offered) == AuthMethods::UserPass,
        credentials.username.len() <= 255,
        credentials.password.len() <= 255,
        !auth::granted(c.users, credentials) || !vstd::utf8::valid_utf8(credentials.username)
            || !vstd::utf8::valid_utf8(credentials.password),
    ensures
        closed_with(
            whole_conversation(
                c,
                wire::greeting_bytes(SOCKS_VERSION, offered) + wire::userpass_bytes(credentials)
                    + tail,
                faults,
            ),
            seq![0x05u8, 0x02, 0x01, 0x01],
            ErrorView::Socks(ResponseCode::Failure),
            tail,
        ),
{
    let greeting = wire::greeting_bytes(SOCKS_VERSION, offered);
    let frame = wire::userpass_bytes(credentials);
    let input = greeting + frame + tail;
    if auth::granted(c.users, credentials) {
        auth::law_undecodable_credentials_are_denied(c.users, credentials);
    }
    lemma_denied_client(c, offered, credentials, tail, faults.eof);
    law_conversation_follows_the_parsers(c, input, faults);
    assert(input.skip((greeting.len() + frame.len()) as int) =~= tail);
}

/// The ten bytes of an error reply with this code.
pub open spec fn ten_bytes(code: u8) -> Seq<u8> {
    seq![0x05u8, code, 0, 0x01, 0, 0, 0, 0, 0, 0]
}

/// A client that greets with another version is turned away without a byte,
/// and no more than its first two bytes are read.
pub proof fn law_other_versions_are_turned_away(c: ClientView, input: Seq<u8>, faults: Faults)
    requires
        input.len() >= 2,
        input[0] != 0x05,
    ensures
        closed_with(
            whole_conversation(c, input, faults),
            seq![],
            ErrorView::Socks(ResponseCode::Failure),
            input.skip(2),
        ),
{
    law_conversation_follows_the_parsers(c, input, faults);
}

/// A greeting that is cut short is answered with a failure.
pub proof fn law_short_greetings_fail(c: ClientView, input: Seq<u8>, faults: Faults)
    requires
        input.len() < 2 || (input[0] == 0x05 && input.len() < 2 + input[1]),
    ensures
        closed_with(
            whole_conversation(c, input, faults),
            ten_bytes(0x01),
            ErrorView::Io(faults.eof),
            seq![],
        ),
{
    law_conversation_follows_the_parsers(c, input, faults);
    reply::law_unspecified_reply(ResponseCode::Failure);
    assert(input.skip(input.len() as int) =~= seq![]);
    assert(seq![] + ten_bytes(0x01) =~= ten_bytes(0x01));
}

/// What a greeting is answered with, in front of everything else: `0x02` where
/// that is both allowed and offered, else `0x00` where that is, else `0xFF`,
/// with which the client is turned away and nothing after its greeting is read.
pub proof fn law_greetings_are_answered(
    c: ClientView,
    offered: Seq<u8>,
    tail: Seq<u8>,
    faults: Faults,
)
    requires
        offered.len() <= 255,
    ensures
        ({
            let input = seq![0x05u8, offered.len() as u8] + offered + tail;
            let end = whole_conversation(c, input, faults);
            let userpass = c.methods.contains(0x02) && offered.contains(0x02);
            let open = c.methods.contains(0x00) && offered.contains(0x00);
            let method: u8 = if userpass {
                0x02
            } else if open {
                0x00
            } else {
                0xFF
            };
            &&& seq![0x05u8, method].is_prefix_of(end.2.sent)
            &&& method == 0xFF ==> closed_with(
                end,
                seq![0x05u8, 0xFF],
                ErrorView::Socks(ResponseCode::Failure),
                tail,
            )
        }),
{
    let input = seq![0x05u8, offered.len() as u8] + offered + tail;
    let n = 2 + offered.len() as int;
    let method = auth::chosen_method(c.methods, offered);
    assert(input =~= wire::greeting_bytes(0x05, offered) + tail);
    wire::law_greeting_round_trip(0x05, offered, tail, seq![]);
    auth::law_chosen_method_is_common(c.methods, offered);
    law_conversation_follows_the_parsers(c, input, faults);
    assert(input.skip(n) =~= tail);
    let (sent, outcome) = negotiated(c, input, faults.eof);
    let selection = seq![0x05u8, protocol::method_byte(method)];
    assert(sent.take(2) =~= selection);
    let end = whole_conversation(c, input, faults);
    lemma_sent_first(end, greeted(c, input), input, sent, outcome);
    assert(end.2.sent.take(2) =~= sent.take(2));
}

/// What a negotiation sends comes first, whatever follows.
proof fn lemma_sent_first(
    end: (RunView, ActionView, Link),
    c: ClientView,
    input: Seq<u8>,
    sent: Seq<u8>,
    outcome: Outcome,
)
    requires
        ends_as(end, c, input, sent, outcome),
    ensures
        end.2.sent.len() >= sent.len(),
        end.2.sent.take(sent.len() as int) == sent,
{
    assert(end.2.sent.take(sent.len() as int) =~= sent);
}

/// Whether a client is let in without authentication by what it sent so far:
/// a greeting, where `0x00` is both allowed and offered and `0x02` is not.
pub open spec fn let_in_openly(c: ClientView, sofar: Seq<u8>, answer: Seq<u8>) -> bool {
    answer == seq![0x05u8, 0x00] && exists|offered: Seq<u8>|
        {
            &&& offered.len() <= 255
            &&& sofar == #[trigger] wire::greeting_bytes(0x05, offered)
            &&& c.methods.contains(0x00) && offered.contains(0x00)
            &&& !(c.methods.contains(0x02) && offered.contains(0x02))
        }
}

/// Whether a client is let in with its credentials by what it sent so far: a
/// greeting, where `0x02` is both allowed and offered, and a frame that is
/// granted access.
pub open spec fn let_in_with_credentials(
    c: ClientView,
    sofar: Seq<u8>,
    answer: Seq<u8>,
) -> bool {
    answer == seq![0x05u8, 0x02, 0x01, 0x00] && exists|offered: Seq<u8>, frame: UserPassView|
        {
            &&& offered.len() <= 255
            &&& frame.username.len() <= 255
            &&& frame.password.len() <= 255
            &&& sofar == #[trigger] wire::greeting_bytes(0x05, offered)
                + #[trigger] wire::userpass_bytes(frame)
            &&& c.methods.contains(0x02) && offered.contains(0x02)
            &&& auth::granted(c.users, frame)
        }
}

/// Whether a client is let in by what it sent so far, and is answered with
/// `answer`.
pub open spec fn let_in_by(c: ClientView, sofar: Seq<u8>, answer: Seq<u8>) -> bool {
    let_in_openly(c, sofar, answer) || let_in_with_credentials(c, sofar, answer)
}

/// How a negotiation of a client that needs no authentication goes on.
proof fn lemma_let_in_openly(
    c: ClientView,
    offered: Seq<u8>,
    rest: Seq<u8>,
    eof: IoErrorView,
)
    requires
        offered.len() <= 255,
        c.methods.contains(0x00) && offered.contains(0x00),
        !(c.methods.contains(0x02) && offered.contains(0x02)),
    ensures
        ({
            let sofar = wire::greeting_bytes(0x05, offered);
            negotiated(c, sofar + rest, eof) == (
                seq![0x05u8, 0x00],
                request_outcome(sofar + rest, sofar.len() as int, eof),
            )
        }),
{
    wire::law_greeting_round_trip(0x05, offered, rest, seq![]);
    auth::law_chosen_method_is_common(c.methods, offered);
}

/// How a negotiation of a client whose credentials are granted access goes on.
#[verifier::spinoff_prover]
#[verifier::rlimit(40)]
proof fn lemma_let_in_with_credentials(
    c: ClientView,
    offered: Seq<u8>,
    frame: UserPassView,
    rest: Seq<u8>,
    eof: IoErrorView,
)
    requires
        offered.len() <= 255,
        frame.username.len() <= 255,
        frame.password.len() <= 255,
        c.methods.contains(0x02) && offered.contains(0x02),
        auth::granted(c.users, frame),
    ensures
        ({
            let sofar = wire::greeting_bytes(0x05, offered) + wire::userpass_bytes(frame);
            negotiated(c, sofar + rest, eof) == (
                seq![0x05u8, 0x02, 0x01, 0x00],
                request_outcome(sofar + rest, sofar.len() as int, eof),
            )
        }),
{
    let greeting = wire::greeting_bytes(0x05, offered);
    let written = wire::userpass_bytes(frame);
    let input = greeting + written + rest;
    assert(input =~= greeting + (written + rest));
    wire::law_greeting_round_trip(0x05, offered, written + rest, seq![]);
    assert(input.skip(greeting.len() as int) =~= written + rest);
    wire::law_userpass_round_trip(frame, rest, seq![]);
    auth::law_chosen_method_is_common(c.methods, offered);
    assert(seq![0x05u8, 0x02u8] + session::verdict_bytes(true) =~= seq![0x05u8, 0x02, 0x01, 0x00]);
}

/// How a negotiation of a client that is let in goes on.
proof fn lemma_let_in(
    c: ClientView,
    sofar: Seq<u8>,
    answer: Seq<u8>,
    rest: Seq<u8>,
    eof: IoErrorView,
)
    requires
        let_in_by(c, sofar, answer),
    ensures
        negotiated(c, sofar + rest, eof) == (
            answer,
            request_outcome(sofar + rest, sofar.len() as int, eof),
        ),
        (sofar + rest).skip(sofar.len() as int) == rest,
{
    assert((sofar + rest).skip(sofar.len() as int) =~= rest);
    if let_in_openly(c, sofar, answer) {
        let offered = choose|offered: Seq<u8>|
            {
                &&& offered.len() <= 255
                &&& sofar == #[trigger] wire::greeting_bytes(0x05, offered)
                &&& c.methods.contains(0x00) && offered.contains(0x00)
                &&& !(c.methods.contains(0x02) && offered.contains(0x02))
            };
        lemma_let_in_openly(c, offered, rest, eof);
    } else {
        let (offered, frame) = choose|offered: Seq<u8>, frame: UserPassView|
            {
                &&& offered.len() <= 255
                &&& frame.username.len() <= 255
                &&& frame.password.len() <= 255
                &&& sofar == #[trigger] wire::greeting_bytes(0x05, offered)
                    + #[trigger] wire::userpass_bytes(frame)
                &&& c.methods.contains(0x02) && offered.contains(0x02)
                &&& auth::granted(c.users, frame)
            };
        lemma_let_in_with_credentials(c, offered, frame, rest, eof);
    }
}

/// How a client that is let in is answered when its request is refused: for
/// another version with a failure, for an unknown command with `0x07`, for an
/// unknown address type with `0x08`. Only the four bytes of the fixed header
/// are read of it.
pub proof fn law_refused_requests_are_answered(
    c: ClientView,
    sofar: Seq<u8>,
    answer: Seq<u8>,
    header: Seq<u8>,
    tail: Seq<u8>,
    faults: Faults,
)
    requires
        let_in_by(c, sofar, answer),
        header.len() == 4,
        header[0] != 0x05 || header[1] < 0x01 || header[1] > 0x03 || (header[3] != 0x01 && header[3]
            != 0x03 && header[3] != 0x04),
    ensures
        ({
            let end = whole_conversation(c, sofar + (header + tail), faults);
            if header[0] != 0x05 {
                closed_with(
                    end,
                    answer + ten_bytes(0x01),
                    ErrorView::Socks(ResponseCode::Failure),
                    tail,
                )
            } else if header[1] < 0x01 || header[1] > 0x03 {
                closed_with(
                    end,
                    answer + ten_bytes(0x07),
                    ErrorView::Socks(ResponseCode::CommandNotSupported),
                    tail,
                )
            } else {
                closed_with(
                    end,
                    answer + ten_bytes(0x08),
                    ErrorView::Socks(ResponseCode::AddrTypeNotSupported),
                    tail,
                )
            }
        }),
{
    let rest = header + tail;
    let input = sofar + rest;
    lemma_let_in(c, sofar, answer, rest, faults.eof);
    wire::law_request_layout(rest);
    law_conversation_follows_the_parsers(c, input, faults);
    reply::law_unspecified_reply(ResponseCode::Failure);
    reply::law_unspecified_reply(ResponseCode::CommandNotSupported);
    reply::law_unspecified_reply(ResponseCode::AddrTypeNotSupported);
    assert(rest[0] == header[0] && rest[1] == header[1] && rest[3] == header[3]);
    assert(input.skip(sofar.len() as int + 4) =~= tail);
}

/// A client that is let in and whose request is cut short is answered with a
/// failure; nothing is done for it.
pub proof fn law_short_requests_fail(
    c: ClientView,
    sofar: Seq<u8>,
    answer: Seq<u8>,
    rest: Seq<u8>,
    faults: Faults,
)
    requires
        let_in_by(c, sofar, answer),
        rest.len() < 4 || (rest[0] == 0x05 && 0x01 <= rest[1] <= 0x03 && ((rest[3] == 0x01
            && rest.len() < 10) || (rest[3] == 0x04 && rest.len() < 22) || (rest[3] == 0x03 && (
        rest.len() < 5 || rest.len() < 7 + rest[4])))),
    ensures
        closed_with(
            whole_conversation(c, sofar + rest, faults),
            answer + ten_bytes(0x01),
            ErrorView::Io(faults.eof),
            seq![],
        ),
{
    let input = sofar + rest;
    lemma_let_in(c, sofar, answer, rest, faults.eof);
    wire::law_request_layout(rest);
    law_conversation_follows_the_parsers(c, input, faults);
    reply::law_unspecified_reply(ResponseCode::Failure);
    assert(input.skip(input.len() as int) =~= seq![]);
}

/// A client that is let in and sends a whole request gets it taken up with
/// exactly the fields that its bytes spell, and what follows is left for the
/// relay.
pub proof fn law_whole_requests_are_taken_up(
    c: ClientView,
    sofar: Seq<u8>,
    answer: Seq<u8>,
    rest: Seq<u8>,
    faults: Faults,
)
    requires
        let_in_by(c, sofar, answer),
        rest.len() >= 5,
        rest[0] == 0x05,
        0x01 <= rest[1] <= 0x03,
        (rest[3] == 0x01 && rest.len() >= 10) || (rest[3] == 0x04 && rest.len() >= 22) || (rest[3]
            == 0x03 && rest.len() >= 7 + rest[4]),
    ensures
        ({
            let end = 4 + wire::field_length(rest[3], rest);
            let start = if rest[3] == 0x03 {
                5int
            } else {
                4
            };
            wire::request_at(rest) matches Ok((request, _)) && {
                &&& protocol::command_byte(request.command) == rest[1]
                &&& protocol::addr_type_byte(request.addr_type) == rest[3]
                &&& request.addr == rest.subrange(start, end)
                &&& request.port == 256 * rest[end] + rest[end + 1]
                &&& taken_up(
                    whole_conversation(c, sofar + rest, faults),
                    greeted(c, sofar + rest),
                    sofar + rest,
                    answer,
                    request,
                    sofar.len() + end + 2,
                )
            }
        }),
{
    let input = sofar + rest;
    lemma_let_in(c, sofar, answer, rest, faults.eof);
    wire::law_request_layout(rest);
    law_conversation_follows_the_parsers(c, input, faults);
    let end = 4 + wire::field_length(rest[3], rest);
    let start = if rest[3] == 0x03 {
        5int
    } else {
        4
    };
    assert(wire::request_at(rest)->Ok_0.0.addr =~= rest.subrange(start, end));
}

/// Credentials that are cut short are answered with a failure, after the method
/// that asks for them.
pub proof fn law_short_credentials_fail(
    c: ClientView,
    offered: Seq<u8>,
    rest: Seq<u8>,
    faults: Faults,
)
    requires
        offered.len() <= 255,
        c.methods.contains(0x02) && offered.contains(0x02),
        rest.len() < 2 || rest.len() < 3 + rest[1] || rest.len() < 3 + rest[1] + rest[2 + rest[1]],
    ensures
        closed_with(
            whole_conversation(c, wire::greeting_bytes(0x05, offered) + rest, faults),
            seq![0x05u8, 0x02] + ten_bytes(0x01),
            ErrorView::Io(faults.eof),
            seq![],
        ),
{
    let greeting = wire::greeting_bytes(0x05, offered);
    let input = greeting + rest;
    wire::law_greeting_round_trip(0x05, offered, rest, seq![]);
    wire::law_userpass_layout(rest);
    auth::law_chosen_method_is_common(c.methods, offered);
    assert(input.skip(greeting.len() as int) =~= rest);
    law_conversation_follows_the_parsers(c, input, faults);
    reply::law_unspecified_reply(ResponseCode::Failure);
    assert(input.skip(input.len() as int) =~= seq![]);
}

/// A request that is read without a negotiation is answered as one with it.
pub proof fn law_requests_without_negotiation(c: ClientView, input: Seq<u8>, faults: Faults)
    ensures
        ({
            let alone = ClientView { request: None, budgeted: false, ..c };
            let (client, action) = session::await_request(alone);
            ends_as(
                converse(
                    RunView { client, phase: Phase::Serving, failure: None },
                    action,
                    Link { input, sent: seq![], open: true },
                    faults,
                ),
                alone,
                input,
                seq![],
                request_outcome(input, 0, faults.eof),
            )
        }),
{
    let alone = ClientView { request: None, budgeted: false, ..c };
    let (client, action) = session::await_request(alone);
    let link = Link { input, sent: seq![], open: true };
    assert(input.skip(0) =~= input);
    assert(client =~= (ClientView {
        stage: Stage::RequestHeader,
        held: seq![],
        request: None,
        ..alone
    }));
    lemma_request(
        RunView { client, phase: Phase::Serving, failure: None },
        link,
        faults,
        alone,
        input,
        0,
    );
}

} // verus!
