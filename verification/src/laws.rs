//! What holds of every session and every connection, whatever happens.
use vstd::prelude::*;

#[allow(unused_imports)]
use crate::address::TargetView;
#[allow(unused_imports)]
use crate::error::{ErrorView, IoErrorKind, IoErrorView, ResponseCode};
#[allow(unused_imports)]
use crate::net::{IpAddr, SocketAddr};
#[allow(unused_imports)]
use crate::protocol::{AddrType, AuthMethods, RequestView, SockCommand, SOCKS_VERSION};
#[allow(unused_imports)]
use crate::run::{Phase, RunView};
#[allow(unused_imports)]
use crate::session::{ActionView, ClientView, EventView, Stage};
#[allow(unused_imports)]
use crate::udp::UdpAssociation;
#[allow(unused_imports)]
use crate::{address, auth, error, net, protocol, reply, run, session, wire};

verus! {

/// The session after a run of events.
pub open spec fn after_events(c: ClientView, events: Seq<EventView>) -> ClientView
    decreases events.len(),
{
    if events.len() == 0 {
        c
    } else {
        session::step(after_events(c, events.drop_last()), events.last()).0
    }
}

// ---------------------------------------------------------------- access
/// Whether the session is past authentication.
pub open spec fn let_in(stage: Stage) -> bool {
    match stage {
        Stage::Idle
        | Stage::Greeting
        | Stage::Methods(_)
        | Stage::Selecting(AuthMethods::UserPass)
        | Stage::Selecting(AuthMethods::NoMethods)
        | Stage::Credentials
        | Stage::Username(_)
        | Stage::PasswordLength
        | Stage::Password(_)
        | Stage::Verdict(false)
        | Stage::Rejecting
        | Stage::Over => false,
        _ => true,
    }
}

/// Whether `event` entitles the client to a request: it completes the offer of
/// methods, and no authentication is what both sides agree on; or it completes
/// credentials that are granted access.
pub open spec fn admits(c: ClientView, event: EventView) -> bool {
    match (c.stage, event) {
        (Stage::Methods(n), EventView::Bytes(offered)) => offered.len() == n && auth::chosen_method(
            c.methods,
            offered,
        ) == AuthMethods::NoAuth,
        (Stage::Password(n), EventView::Bytes(password)) => password.len() == n && (
        wire::userpass_at(c.held + password) matches Ok((frame, _)) && auth::granted(
            c.users,
            frame,
        )),
        _ => false,
    }
}

/// Whether `action` does something for the client beyond talking to it.
pub open spec fn serves(action: ActionView) -> bool {
    match action {
        ActionView::Resolve(_)
        | ActionView::Connect(_, _)
        | ActionView::Relay
        | ActionView::Listen(_)
        | ActionView::Accept(_)
        | ActionView::BindUdp(_)
        | ActionView::WaitUdp
        | ActionView::SendTo(_, _) => true,
        _ => false,
    }
}

/// There is no way around authentication: after whatever happens to a session
/// from its start, it holds a request, is past authentication or does
/// something for the client only if one of the events before that admitted the
/// client.
pub proof fn law_no_service_without_admission(
    c: ClientView,
    events: Seq<EventView>,
    event: EventView,
)
    ensures
        ({
            let start = session::started(c).0;
            let before = after_events(start, events);
            let (after, action) = session::step(before, event);
            let history = events.push(event);
            (serves(action) || let_in(after.stage) || after.request is Some) ==> exists|i: int|
                0 <= i < history.len() && #[trigger] admits(
                    after_events(start, history.take(i)),
                    history[i],
                )
        }),
    decreases events.len(),
{
    let start = session::started(c).0;
    let before = after_events(start, events);
    let (after, action) = session::step(before, event);
    let history = events.push(event);
    assert(history.take(events.len() as int) =~= events);
    if serves(action) || let_in(after.stage) || after.request is Some {
        if admits(before, event) {
            assert(admits(after_events(start, history.take(events.len() as int)), history.last()));
        } else if events.len() > 0 {
            assert(let_in(before.stage) || before.request is Some);
            let earlier = events.drop_last();
            law_no_service_without_admission(c, earlier, events.last());
            assert(earlier.push(events.last()) =~= events);
            let i = choose|i: int|
                0 <= i < events.len() && #[trigger] admits(
                    after_events(start, events.take(i)),
                    events[i],
                );
            assert(history.take(i) =~= events.take(i));
            assert(history[i] == events[i]);
            assert(admits(after_events(start, history.take(i)), history[i]));
        } else {
            assert(before == start);
        }
    }
}

/// Bad credentials are answered with a failure, the stream is shut down, and
/// the session fails.
pub proof fn law_bad_credentials_are_turned_away(c: ClientView, password: Seq<u8>)
    requires
        c.stage matches Stage::Password(n) && password.len() == n,
        wire::userpass_at(c.held + password) matches Ok((frame, _)) && !auth::granted(
            c.users,
            frame,
        ),
    ensures
        ({
            let (c1, answer) = session::step(c, EventView::Bytes(password));
            let (c2, shutdown) = session::step(c1, EventView::Done);
            let (c3, end) = session::step(c2, EventView::Done);
            &&& answer == ActionView::Write(seq![0x01u8, 0x01u8])
            &&& shutdown == ActionView::Shutdown
            &&& end == ActionView::Finished(Err(ErrorView::Socks(ResponseCode::Failure)))
            &&& c3.stage == Stage::Over
        }),
{
}

// ---------------------------------------------------------------- time
/// The handshake budget ends every negotiation, with `TTL expired`, and
/// touches nothing else: a relay or an association outlives any budget, and so
/// does a request that is read without a negotiation. Reaching a destination
/// and waiting for a peer have budgets of their own.
pub proof fn law_budgets(c: ClientView)
    ensures
        session::negotiating(c) || c.stage is Connecting || c.stage is Accepting ==> session::step(
            c,
            EventView::Expired,
        ).1 == ActionView::Finished(Err(ErrorView::Socks(ResponseCode::TtlExpired))),
        c.stage is Relaying || c.stage is Associated || c.stage is Sending || c.stage is LookingUp
            ==> session::step(c, EventView::Expired) == (c, ActionView::Ignored),
        session::in_handshake(c.stage) && !c.budgeted ==> session::step(c, EventView::Expired)
            == (c, ActionView::Ignored),
{
}

/// Whether the handshake budget applies is settled when a session is started:
/// nothing that happens later brings it on or takes it away.
pub proof fn law_only_negotiations_have_a_budget(c: ClientView, events: Seq<EventView>)
    ensures
        after_events(c, events).budgeted == c.budgeted,
        session::started(c).0.budgeted,
    decreases events.len(),
{
    if events.len() > 0 {
        law_only_negotiations_have_a_budget(c, events.drop_last());
        lemma_step_keeps_configuration(after_events(c, events.drop_last()), events.last());
    }
}

/// A destination is given the configured budget, or the default one where none
/// is configured.
pub proof fn law_connect_budget(c: ClientView, event: EventView)
    ensures
        session::step(c, event).1 matches ActionView::Connect(_, budget) ==> budget
            == session::connect_budget(c),
        session::step(c, event).1 matches ActionView::Accept(budget) ==> budget
            == session::connect_budget(c),
        c.timeout is None ==> session::connect_budget(c) == 30_000_000_000u128,
{
}

// ---------------------------------------------------------------- stability
/// Whether two sessions are configured and were started alike.
pub open spec fn same_configuration(a: ClientView, b: ClientView) -> bool {
    &&& a.users == b.users
    &&& a.methods == b.methods
    &&& a.timeout == b.timeout
    &&& a.handshake_timeout == b.handshake_timeout
    &&& a.local_addr == b.local_addr
    &&& a.bind_enabled == b.bind_enabled
    &&& a.udp_enabled == b.udp_enabled
    &&& a.budgeted == b.budgeted
}

#[verifier::spinoff_prover]
#[verifier::rlimit(40)]
proof fn lemma_step_keeps_configuration(c: ClientView, event: EventView)
    ensures
        same_configuration(session::step(c, event).0, c),
{
    match event {
        EventView::Bytes(bytes) => {
            let held = c.held + bytes;
            if let Ok((request, _)) = wire::request_at(held) {
                assert(same_configuration(session::requested(c, request).0, c));
            }
            assert(same_configuration(session::on_bytes(c, bytes).0, c));
        },
        _ => {},
    }
}

/// Nothing that happens changes the configuration of a session.
pub proof fn law_configuration_is_fixed(c: ClientView, events: Seq<EventView>)
    ensures
        same_configuration(after_events(c, events), c),
    decreases events.len(),
{
    if events.len() > 0 {
        law_configuration_is_fixed(c, events.drop_last());
        lemma_step_keeps_configuration(after_events(c, events.drop_last()), events.last());
    }
}

/// A session ends once, with a result, and nothing is asked of anyone after
/// that. An event that does not answer what was asked for changes nothing.
pub proof fn law_the_end_is_final(c: ClientView, event: EventView)
    ensures
        session::step(c, event).1 is Finished ==> session::step(c, event).0.stage == Stage::Over,
        session::step(c, event).0.stage == Stage::Over && c.stage != Stage::Over ==> session::step(
            c,
            event,
        ).1 is Finished,
        session::step(c, event).1 is Ignored ==> session::step(c, event).0 == c,
        c.stage == Stage::Over ==> session::step(c, event) == (c, ActionView::Ignored),
{
}

/// A read, a write or a shutdown that fails during the negotiation ends it with
/// that error.
pub proof fn law_io_failures_end_the_negotiation(c: ClientView, error: IoErrorView)
    requires
        session::in_handshake(c.stage),
    ensures
        session::step(c, EventView::Failed(error)).1 == ActionView::Finished(
            Err(ErrorView::Io(error)),
        ),
{
}

// ---------------------------------------------------------------- memory
/// How much of a message a session holds at most while it negotiates.
pub open spec fn held_limit(stage: Stage) -> int {
    match stage {
        Stage::Username(_) => 2,
        Stage::PasswordLength => 257,
        Stage::Password(_) => 258,
        Stage::DomainLength => 4,
        Stage::Address(_) => 5,
        Stage::Port => 260,
        _ => 0,
    }
}

#[verifier::spinoff_prover]
#[verifier::rlimit(40)]
proof fn lemma_step_holds_little(c: ClientView, event: EventView)
    requires
        session::in_handshake(c.stage) ==> c.held.len() <= held_limit(c.stage),
    ensures
        ({
            let after = session::step(c, event).0;
            session::in_handshake(after.stage) ==> after.held.len() <= held_limit(after.stage)
        }),
{
    match event {
        EventView::Bytes(bytes) => {
            assert((c.held + bytes).len() == c.held.len() + bytes.len());
            if let Ok((request, _)) = wire::request_at(c.held + bytes) {
                assert(!session::in_handshake(session::requested(c, request).0.stage));
            }
        },
        _ => {},
    }
}

/// No client can make a session hold much: whatever happens from the start of
/// a session, no read asks for more than 255 bytes, and a negotiation never
/// holds more than 260.
pub proof fn law_memory_is_bounded(c: ClientView, events: Seq<EventView>, event: EventView)
    ensures
        ({
            let before = after_events(session::started(c).0, events);
            &&& session::in_handshake(before.stage) ==> before.held.len() <= 260
            &&& session::step(before, event).1 matches ActionView::Read(n) ==> 0 <= n <= 255
        }),
{
    lemma_little_is_held(c, events);
    lemma_reads_are_small(after_events(session::started(c).0, events), event);
}

proof fn lemma_reads_are_small(c: ClientView, event: EventView)
    ensures
        session::step(c, event).1 matches ActionView::Read(n) ==> 0 <= n <= 255,
{
}

proof fn lemma_little_is_held(c: ClientView, events: Seq<EventView>)
    ensures
        ({
            let after = after_events(session::started(c).0, events);
            session::in_handshake(after.stage) ==> after.held.len() <= held_limit(after.stage)
        }),
    decreases events.len(),
{
    if events.len() > 0 {
        lemma_little_is_held(c, events.drop_last());
        lemma_step_holds_little(
            after_events(session::started(c).0, events.drop_last()),
            events.last(),
        );
    }
}

// ---------------------------------------------------------------- requests
/// A request for a command that is not offered is refused as not supported,
/// and nothing is done for it.
pub proof fn law_disabled_commands_are_refused(c: ClientView, request: RequestView)
    requires
        (request.command == SockCommand::Bind && !c.bind_enabled) || (request.command
            == SockCommand::UdpAssosiate && !c.udp_enabled),
    ensures
        session::requested(c, request).1 == ActionView::Finished(
            Err(ErrorView::Socks(ResponseCode::CommandNotSupported)),
        ),
{
}

/// How a `CONNECT` to an IP address goes when all goes well: the proxy
/// connects to exactly that address, replies, relays and ends with the number
/// of bytes that came back.
pub proof fn law_connect_is_served(
    c: ClientView,
    request: RequestView,
    copied: u64,
    received: u64,
)
    requires
        request.command == SockCommand::Connect,
        request.addr_type != AddrType::Domain,
        wire::addr_fits(request.addr_type, request.addr),
    ensures
        ({
            let (c1, connect) = session::requested(c, request);
            let (c2, answer) = session::step(c1, EventView::Connected);
            let (c3, relay) = session::step(c2, EventView::Done);
            let (c4, end) = session::step(c3, EventView::Relayed(copied, received));
            &&& connect matches ActionView::Connect(addrs, budget) && {
                &&& addrs.len() == 1
                &&& wire::addr_type_of_socket(addrs[0]) == request.addr_type
                &&& net::octets_of(net::ip_of(addrs[0])) == request.addr
                &&& net::port_of(addrs[0]) == request.port
                &&& budget == session::connect_budget(c)
            }
            &&& answer == ActionView::Write(seq![0x05u8, 0, 0, 0x01, 0, 0, 0, 0, 0, 0])
            &&& relay == ActionView::Relay
            &&& end == ActionView::Finished(Ok(received as usize))
        }),
{
    address::law_well_formed_address_has_a_target(request.addr_type, request.addr, request.port);
    reply::law_unspecified_reply(ResponseCode::Success);
}

/// A `CONNECT` to a name looks the name up and then connects to what was
/// found.
pub proof fn law_names_are_looked_up(
    c: ClientView,
    request: RequestView,
    addrs: Seq<SocketAddr>,
)
    requires
        request.command == SockCommand::Connect,
        request.addr_type == AddrType::Domain,
    ensures
        ({
            let (c1, lookup) = session::requested(c, request);
            let (c2, connect) = session::step(c1, EventView::Resolved(addrs));
            &&& lookup matches ActionView::Resolve(name) && address::target_of(
                request.addr_type,
                request.addr,
                request.port,
            ) == Ok::<_, IoErrorView>(TargetView::Lookup(name))
            &&& connect == ActionView::Connect(addrs, session::connect_budget(c))
        }),
{
}

/// A destination that cannot be reached is told apart: one that refuses is
/// `connection refused`, one that does not answer in time is `TTL expired`,
/// anything else is a general failure.
pub proof fn law_unreachable_destinations(c: ClientView, error: IoErrorView)
    requires
        c.stage is Connecting,
    ensures
        session::step(c, EventView::Expired).1 == ActionView::Finished(
            Err(ErrorView::Socks(ResponseCode::TtlExpired)),
        ),
        session::step(c, EventView::Failed(error)).1 matches ActionView::Finished(Err(reported))
            && error::code_for(reported) == if error.kind == IoErrorKind::ConnectionRefused {
            ResponseCode::ConnectionRefused
        } else {
            ResponseCode::Failure
        },
{
}

/// How a `BIND` goes: the proxy listens on the interface that the client came
/// in through, advertises where, and accepts one peer. A peer other than the
/// one the client named is refused by the rules; otherwise its address is
/// advertised and the relay starts.
pub proof fn law_bind_is_served(
    c: ClientView,
    request: RequestView,
    bound: SocketAddr,
    peer: SocketAddr,
)
    requires
        request.command == SockCommand::Bind,
        c.bind_enabled,
    ensures
        ({
            let expected = address::concrete_ip(request.addr_type, request.addr);
            let (c1, listen) = session::requested(c, request);
            let (c2, first) = session::step(c1, EventView::Bound(bound));
            let (c3, accept) = session::step(c2, EventView::Done);
            let (c4, second) = session::step(c3, EventView::Accepted(peer));
            &&& listen matches ActionView::Listen(addr) && net::ip_of(addr) == session::interface(c)
                && net::port_of(addr) == 0
            &&& first == ActionView::Write(reply::reply_bytes(ResponseCode::Success, bound))
            &&& accept == ActionView::Accept(session::connect_budget(c))
            &&& if expected is None || expected == Some(net::ip_of(peer)) {
                &&& second == ActionView::Write(reply::reply_bytes(ResponseCode::Success, peer))
                &&& session::step(c4, EventView::Done).1 == ActionView::Relay
            } else {
                second == ActionView::Finished(Err(ErrorView::Socks(ResponseCode::RuleFailure)))
            }
        }),
{
}

/// How a `UDP ASSOCIATE` starts: a socket on the interface that the client
/// came in through, its address advertised, and then datagrams from a client
/// that is not known yet.
pub proof fn law_udp_associate_is_served(
    c: ClientView,
    request: RequestView,
    bound: SocketAddr,
)
    requires
        request.command == SockCommand::UdpAssosiate,
        c.udp_enabled,
    ensures
        ({
            let expected = address::concrete_ip(request.addr_type, request.addr);
            let (c1, bind) = session::requested(c, request);
            let (c2, first) = session::step(c1, EventView::Bound(bound));
            let (c3, wait) = session::step(c2, EventView::Done);
            &&& bind matches ActionView::BindUdp(addr) && net::ip_of(addr) == session::interface(c)
                && net::port_of(addr) == 0
            &&& first == ActionView::Write(reply::reply_bytes(ResponseCode::Success, bound))
            &&& wait == ActionView::WaitUdp
            &&& c3.stage == Stage::Associated(UdpAssociation { expected, client: None })
        }),
{
}

/// The association of a session, if it has one.
pub open spec fn association_of(stage: Stage) -> Option<UdpAssociation> {
    match stage {
        Stage::Associated(association)
        | Stage::Sending(association)
        | Stage::LookingUp(association) => Some(association),
        _ => None,
    }
}

/// Whatever happens during an association, it stays with the client that it
/// found, and ends only without an error.
pub proof fn law_association_is_stable(c: ClientView, events: Seq<EventView>)
    requires
        association_of(c.stage) matches Some(association) && association.client is Some,
    ensures
        ({
            let after = after_events(c, events);
            association_of(after.stage) == association_of(c.stage) || after.stage == Stage::Over
        }),
        events.len() > 0 ==> {
            session::step(after_events(c, events.drop_last()), events.last()).1
                matches ActionView::Finished(outcome) ==> outcome == Ok::<usize, ErrorView>(0)
        },
    decreases events.len(),
{
    if events.len() > 0 {
        law_association_is_stable(c, events.drop_last());
    }
}

// ---------------------------------------------------------------- failures
/// A session that fails is answered with exactly one reply, which carries the
/// code of the error in the ten-byte layout; then the stream is shut down and
/// the connection is closed, whether or not these succeed.
pub proof fn law_failures_are_reported(
    run: RunView,
    event: EventView,
    error: ErrorView,
    replied: EventView,
    shut: EventView,
    later: EventView,
)
    requires
        run.phase == Phase::Serving,
        session::step(run.client, event).1 == ActionView::Finished(Err(error)),
        replied is Done || replied is Failed,
        shut is Done || shut is Failed,
    ensures
        ({
            let (run1, answer) = run::run_step(run, event);
            let (run2, shutdown) = run::run_step(run1, replied);
            let (run3, end) = run::run_step(run2, shut);
            &&& answer == ActionView::Write(
                seq![
                    0x05u8,
                    error::response_byte(error::code_for(error)),
                    0,
                    0x01,
                    0,
                    0,
                    0,
                    0,
                    0,
                    0,
                ],
            )
            &&& shutdown == ActionView::Shutdown
            &&& end == ActionView::Finished(Err(error))
            &&& run::run_step(run3, later) == (run3, ActionView::Ignored)
        }),
{
    reply::law_unspecified_reply(error::code_for(error));
}

/// A connection whose session ends well is closed without another word.
pub proof fn law_success_is_silent(run: RunView, event: EventView, later: EventView)
    requires
        run.phase == Phase::Serving,
        session::step(run.client, event).1 matches ActionView::Finished(Ok(_)),
    ensures
        ({
            let (run1, end) = run::run_step(run, event);
            &&& end == session::step(run.client, event).1
            &&& run::run_step(run1, later) == (run1, ActionView::Ignored)
        }),
{
}

/// How far a connection is on its way: serving, telling the client, shutting
/// down, closed.
pub open spec fn phase_rank(phase: Phase) -> int {
    match phase {
        Phase::Serving => 0,
        Phase::Replying => 1,
        Phase::Closing => 2,
        Phase::Closed => 3,
    }
}

/// A connection only ever moves forward, so a client is told about an error at
/// most once: the reply is written on leaving the session, which is never come
/// back to.
pub proof fn law_connections_move_forward(run: RunView, event: EventView)
    ensures
        phase_rank(run.phase) <= phase_rank(run::run_step(run, event).0.phase),
        run::run_step(run, event).0.phase == Phase::Replying && run.phase != Phase::Replying
            ==> run.phase == Phase::Serving,
        run.phase != Phase::Serving ==> !(run::run_step(run, event).1 is Write),
{
}

// ---------------------------------------------------------------- questions and answers
/// Whether `event` answers `action`. A time budget can run out where one
/// applies: while reaching a destination or waiting for a peer, and during a
/// negotiation.
pub open spec fn answers(action: ActionView, event: EventView, negotiating: bool) -> bool {
    match event {
        EventView::Bytes(bytes) => action == ActionView::Read(bytes.len() as int),
        EventView::Done => action is Write || action is Shutdown || action is SendTo,
        EventView::Failed(_) => !(action is Finished),
        EventView::Expired => negotiating || action is Connect || action is Accept,
        EventView::Resolved(_) => action is Resolve,
        EventView::Connected => action is Connect,
        EventView::Bound(_) => action is Listen || action is BindUdp,
        EventView::Accepted(_) => action is Accept,
        EventView::Relayed(_, _) => action is Relay,
        EventView::Control(_) | EventView::Datagram(_, _) => action is WaitUdp,
    }
}

/// Whether the session is where it has to be after it asked for `action`.
spec fn fits(c: ClientView, action: ActionView) -> bool {
    match c.stage {
        Stage::Greeting | Stage::Credentials | Stage::Port => action == ActionView::Read(2),
        Stage::Methods(n) | Stage::Username(n) | Stage::Password(n) | Stage::Address(n) => action
            == ActionView::Read(n as int),
        Stage::PasswordLength | Stage::DomainLength => action == ActionView::Read(1),
        Stage::RequestHeader => action == ActionView::Read(4),
        Stage::Selecting(_)
        | Stage::Verdict(_)
        | Stage::ConnectReply
        | Stage::BindReply(_)
        | Stage::PeerReply
        | Stage::UdpReply(_) => action is Write,
        Stage::Rejecting => action is Shutdown,
        Stage::Resolving | Stage::LookingUp(_) => action is Resolve,
        Stage::Connecting => action is Connect,
        Stage::Relaying => action is Relay,
        Stage::Listening(_) => action is Listen,
        Stage::Accepting(_) => action is Accept,
        Stage::BindingUdp(_) => action is BindUdp,
        Stage::Associated(_) => action is WaitUdp,
        Stage::Sending(_) => action is SendTo,
        Stage::Over => action is Finished,
        Stage::Idle => false,
    }
}

#[verifier::spinoff_prover]
#[verifier::rlimit(40)]
proof fn lemma_step_fits(c: ClientView, event: EventView)
    ensures
        ({
            let (after, action) = session::step(c, event);
            action is Ignored || fits(after, action)
        }),
{
    match event {
        EventView::Bytes(bytes) => {
            if let Ok((request, _)) = wire::request_at(c.held + bytes) {
                let (after, action) = session::requested(c, request);
                assert(fits(after, action));
            }
        },
        _ => {},
    }
}

#[verifier::spinoff_prover]
#[verifier::rlimit(40)]
proof fn lemma_answers_are_taken(c: ClientView, action: ActionView, event: EventView)
    requires
        fits(c, action),
    ensures
        session::step(c, event).1 is Ignored <==> !answers(action, event, session::negotiating(c)),
{
    match event {
        EventView::Bytes(bytes) => {
            if let Ok((request, _)) = wire::request_at(c.held + bytes) {
                assert(!(session::requested(c, request).1 is Ignored));
            }
        },
        _ => {},
    }
}

/// Whatever a session has asked for, it takes every answer to that and nothing
/// else: an event is ignored exactly when it does not answer the last action.
/// Bytes have to be as many as were asked for.
pub proof fn law_answers_are_taken(c: ClientView, earlier: EventView, event: EventView)
    ensures
        ({
            let (now, action) = session::step(c, earlier);
            !(action is Ignored) ==> (session::step(now, event).1 is Ignored <==> !answers(
                action,
                event,
                session::negotiating(now),
            ))
        }),
        ({
            let (now, action) = session::started(c);
            session::step(now, event).1 is Ignored <==> !answers(action, event, true)
        }),
        ({
            let (now, action) = session::await_request(
                ClientView { request: None, budgeted: false, ..c },
            );
            session::step(now, event).1 is Ignored <==> !answers(action, event, false)
        }),
        c.stage == Stage::Idle || c.stage == Stage::Over ==> session::step(c, event).1 is Ignored,
{
    let (now, action) = session::step(c, earlier);
    lemma_step_fits(c, earlier);
    if !(action is Ignored) {
        lemma_answers_are_taken(now, action, event);
    }
    let (started, first) = session::started(c);
    lemma_answers_are_taken(started, first, event);
    let (waiting, header) = session::await_request(
        ClientView { request: None, budgeted: false, ..c },
    );
    lemma_answers_are_taken(waiting, header, event);
}

/// The same of a request that is handed to a session.
pub proof fn law_answers_about_requests_are_taken(
    c: ClientView,
    request: RequestView,
    event: EventView,
)
    ensures
        ({
            let (now, action) = session::requested(c, request);
            session::step(now, event).1 is Ignored <==> !answers(action, event, false)
        }),
{
    let (now, action) = session::requested(c, request);
    lemma_answers_are_taken(now, action, event);
}

// ---------------------------------------------------------------- the handshake
proof fn lemma_handshake_until_request(c: ClientView, events: Seq<EventView>)
    ensures
        ({
            let now = after_events(session::started(c).0, events);
            &&& now.budgeted
            &&& now.stage != Stage::Idle
            &&& session::in_handshake(now.stage) <==> now.request is None && now.stage
                != Stage::Over
        }),
    decreases events.len(),
{
    if events.len() > 0 {
        let before = after_events(session::started(c).0, events.drop_last());
        lemma_handshake_until_request(c, events.drop_last());
        lemma_step_keeps_configuration(before, events.last());
        lemma_handshake_step(before, events.last());
    }
}

#[verifier::spinoff_prover]
#[verifier::rlimit(40)]
proof fn lemma_handshake_step(c: ClientView, event: EventView)
    requires
        c.stage != Stage::Idle,
        session::in_handshake(c.stage) <==> c.request is None && c.stage != Stage::Over,
    ensures
        ({
            let after = session::step(c, event).0;
            &&& after.stage != Stage::Idle
            &&& session::in_handshake(after.stage) <==> after.request is None && after.stage
                != Stage::Over
        }),
{
    match event {
        EventView::Bytes(bytes) => {
            if let Ok((request, _)) = wire::request_at(c.held + bytes) {
                let after = session::requested(c, request).0;
                assert(after.request is Some && !session::in_handshake(after.stage));
            }
        },
        _ => {},
    }
}

/// The handshake budget applies from the start of a session until its request
/// is there, and no longer: until then its end is `TTL expired`, whatever has
/// happened; after that it changes nothing, except that reaching a destination
/// and waiting for a peer have budgets of their own.
pub proof fn law_handshake_is_bounded(c: ClientView, events: Seq<EventView>)
    ensures
        ({
            let now = after_events(session::started(c).0, events);
            let (after, action) = session::step(now, EventView::Expired);
            &&& session::negotiating(now) <==> now.request is None && now.stage != Stage::Over
            &&& now.stage != Stage::Over && now.request is None ==> action == ActionView::Finished(
                Err(ErrorView::Socks(ResponseCode::TtlExpired)),
            )
            &&& now.request is Some && !(now.stage is Connecting) && !(now.stage is Accepting) ==> (
            after,
                action,
            ) == (now, ActionView::Ignored)
        }),
{
    lemma_handshake_until_request(c, events);
}

/// The greeting is remembered as it came.
pub proof fn law_greeting_is_remembered(c: ClientView, version: u8, nmethods: u8)
    requires
        c.stage == Stage::Greeting,
    ensures
        ({
            let (after, action) = session::step(c, EventView::Bytes(seq![version, nmethods]));
            &&& after.socks_version == version
            &&& after.auth_nmethods == nmethods
            &&& version == 0x05 ==> action == ActionView::Read(nmethods as int)
            &&& version != 0x05 ==> action == ActionView::Shutdown
        }),
{
}

/// The request is remembered as it came, and taking it up changes nothing
/// about how the session is configured.
pub proof fn law_request_is_remembered(c: ClientView, request: RequestView)
    ensures
        session::requested(c, request).0.request == Some(request),
        same_configuration(session::requested(c, request).0, c),
        session::requested(c, request).0.socks_version == c.socks_version,
        session::requested(c, request).0.auth_nmethods == c.auth_nmethods,
{
}

// ---------------------------------------------------------------- budgets and interfaces
/// Reaching a destination and waiting for a peer get exactly the budget that is
/// configured, and thirty seconds where none is.
pub proof fn law_configured_budget_is_used(
    c: ClientView,
    event: EventView,
    request: RequestView,
    t: u128,
)
    ensures
        c.timeout == Some(t) ==> {
            &&& session::step(c, event).1 matches ActionView::Connect(_, budget) ==> budget == t
            &&& session::step(c, event).1 matches ActionView::Accept(budget) ==> budget == t
            &&& session::requested(c, request).1 matches ActionView::Connect(_, budget) ==> budget
                == t
            &&& session::connect_budget(c) == t
        },
        c.timeout is None ==> {
            &&& session::step(c, event).1 matches ActionView::Connect(_, budget) ==> budget
                == 30_000_000_000
            &&& session::step(c, event).1 matches ActionView::Accept(budget) ==> budget
                == 30_000_000_000
            &&& session::requested(c, request).1 matches ActionView::Connect(_, budget) ==> budget
                == 30_000_000_000
        },
{
    lemma_asked_of(c, event);
}

/// What a step asks for that comes from taking up a request.
proof fn lemma_asked_of(c: ClientView, event: EventView)
    ensures
        session::step(c, event).1 is Listen || session::step(c, event).1 is BindUdp
            ==> exists|request: RequestView| session::step(c, event) == #[trigger] session::requested(
            c,
            request,
        ),
        session::step(c, event).1 matches ActionView::Connect(_, budget) ==> budget
            == session::connect_budget(c),
{
    if let EventView::Bytes(bytes) = event {
        if let Ok((request, _)) = wire::request_at(c.held + bytes) {
            if c.stage == Stage::Port && bytes.len() == 2 {
                assert(session::step(c, event) == session::requested(c, request));
            }
        }
    }
}

/// Whether `addr` is an ephemeral port on the interface that the client came in
/// through, of either family; on any interface where that is unknown.
pub open spec fn on_the_clients_interface(local_addr: Option<SocketAddr>, addr: SocketAddr) -> bool {
    match local_addr {
        Some(SocketAddr::V4 { ip, port: _ }) => addr == (SocketAddr::V4 { ip, port: 0 }),
        Some(SocketAddr::V6 { ip, port: _, flowinfo: _, scope_id: _ }) => addr == (SocketAddr::V6 {
            ip,
            port: 0,
            flowinfo: 0,
            scope_id: 0,
        }),
        None => addr == (SocketAddr::V4 { ip: [0, 0, 0, 0], port: 0 }),
    }
}

/// Sockets for a client are bound to the interface it came in through, of
/// either family, with a port that is left open; only where that interface is
/// unknown are they bound to `0.0.0.0`.
pub proof fn law_sockets_are_bound_where_the_client_came_in(
    c: ClientView,
    event: EventView,
    request: RequestView,
    addr: SocketAddr,
)
    ensures
        session::step(c, event).1 == ActionView::Listen(addr) || session::step(c, event).1
            == ActionView::BindUdp(addr) || session::requested(c, request).1 == ActionView::Listen(
            addr,
        ) || session::requested(c, request).1 == ActionView::BindUdp(addr) ==> {
            &&& on_the_clients_interface(c.local_addr, addr)
            &&& c.local_addr matches Some(local) ==> net::ip_of(addr) == net::ip_of(local)
            &&& net::port_of(addr) == 0
        },
        c.local_addr matches Some(local) ==> session::interface(c) == net::ip_of(local),
        request.command == SockCommand::Bind && c.bind_enabled ==> session::requested(c, request).1
            is Listen,
        request.command == SockCommand::UdpAssosiate && c.udp_enabled ==> session::requested(
            c,
            request,
        ).1 is BindUdp,
{
    lemma_asked_of(c, event);
}

// ---------------------------------------------------------------- replies and relays
/// Once the destination has answered, the client is told so in ten bytes; once
/// it has been told, the relay starts; and when the relay ends, so does the
/// session, with the number of bytes that the client received.
pub proof fn law_relay(c: ClientView, copied: u64, received: u64, error: IoErrorView)
    ensures
        c.stage == Stage::Connecting ==> session::step(c, EventView::Connected).1
            == ActionView::Write(seq![0x05u8, 0, 0, 0x01, 0, 0, 0, 0, 0, 0]) && session::step(
            session::step(c, EventView::Connected).0,
            EventView::Done,
        ).1 == ActionView::Relay,
        c.stage == Stage::ConnectReply || c.stage == Stage::PeerReply ==> session::step(
            c,
            EventView::Done,
        ).1 == ActionView::Relay && session::step(
            session::step(c, EventView::Done).0,
            EventView::Relayed(copied, received),
        ).1 == ActionView::Finished(Ok(received as usize)),
        c.stage == Stage::Relaying ==> session::step(c, EventView::Failed(error)).1
            == ActionView::Finished(
            if error.kind == IoErrorKind::NotConnected {
                Ok(0)
            } else {
                Err(ErrorView::Io(error))
            },
        ),
{
    reply::law_unspecified_reply(ResponseCode::Success);
}

/// What fails while a request is served: a destination that refuses is reported
/// as that, an association just ends, a datagram that cannot be delivered is
/// lost, and anything else is reported as it is. Nothing else is done.
pub proof fn law_failures_while_serving(
    c: ClientView,
    error: IoErrorView,
    association: UdpAssociation,
)
    ensures
        c.stage == Stage::Resolving || c.stage is Listening || c.stage is BindReply || c.stage is
            Accepting || c.stage == Stage::PeerReply || c.stage == Stage::ConnectReply || c.stage is
            BindingUdp || c.stage is UdpReply ==> session::step(c, EventView::Failed(error)).1
            == ActionView::Finished(Err(ErrorView::Io(error))),
        c.stage == Stage::Connecting ==> session::step(c, EventView::Failed(error)).1
            == ActionView::Finished(
            Err(
                if error.kind == IoErrorKind::ConnectionRefused {
                    ErrorView::Socks(ResponseCode::ConnectionRefused)
                } else {
                    ErrorView::Io(error)
                },
            ),
        ),
        c.stage is Associated ==> session::step(c, EventView::Failed(error)).1
            == ActionView::Finished(Ok(0)),
        c.stage == Stage::Sending(association) || c.stage == Stage::LookingUp(association) ==> {
            let (after, action) = session::step(c, EventView::Failed(error));
            action == ActionView::WaitUdp && after.stage == Stage::Associated(association)
        },
{
}

/// Any addresses that a destination's name leads to are all tried, in the order
/// in which they were found.
pub proof fn law_found_addresses_are_tried(c: ClientView, addrs: Seq<SocketAddr>, t: u128)
    requires
        c.stage == Stage::Resolving,
    ensures
        c.timeout == Some(t) ==> session::step(c, EventView::Resolved(addrs)).1
            == ActionView::Connect(addrs, t),
        c.timeout is None ==> session::step(c, EventView::Resolved(addrs)).1 == ActionView::Connect(
            addrs,
            30_000_000_000,
        ),
        session::step(c, EventView::Resolved(addrs)).0.stage == Stage::Connecting,
{
}

/// A request whose address is too short for its type cannot be connected to:
/// it is invalid input.
pub proof fn law_short_destinations_are_invalid(c: ClientView, request: RequestView)
    requires
        request.command == SockCommand::Connect,
        (request.addr_type == AddrType::V4 && request.addr.len() < 4) || (request.addr_type
            == AddrType::V6 && request.addr.len() < 16),
    ensures
        session::requested(c, request).1 matches ActionView::Finished(Err(ErrorView::Io(error)))
            && error.kind == IoErrorKind::InvalidInput,
{
}

// ---------------------------------------------------------------- datagrams
/// Whether a datagram from `from` is the client's own: the client is known to
/// send from there; or it is not known yet, and has not declared another IP
/// address.
pub open spec fn from_the_client(association: UdpAssociation, from: SocketAddr) -> bool {
    ||| association.client == Some(from)
    ||| association.client is None && association.expected is None
    ||| association.client is None && association.expected == Some(net::ip_of(from))
}

/// A datagram of the client for a name is looked up, and what follows its
/// header - all of it, unchanged - goes to the first address that is found;
/// then the session waits for the next one. Where nothing is found, it waits at
/// once.
pub proof fn law_datagrams_to_names_are_relayed(
    c: ClientView,
    association: UdpAssociation,
    from: SocketAddr,
    data: Seq<u8>,
    addrs: Seq<SocketAddr>,
    error: IoErrorView,
)
    requires
        c.stage == Stage::Associated(association),
        from_the_client(association, from),
        data.len() >= 5,
        data.len() >= 7 + data[4],
        data[2] == 0x00,
        data[3] == 0x03,
    ensures
        ({
            let end = 5 + data[4] as int;
            let host = data.subrange(5, end);
            let port = 256 * data[end] + data[end + 1];
            let payload = data.skip(end + 2);
            let known = UdpAssociation { client: Some(from), expected: association.expected };
            let (c1, lookup) = session::step(c, EventView::Datagram(from, data));
            let (c2, send) = session::step(c1, EventView::Resolved(addrs));
            let (c3, wait) = session::step(c2, EventView::Done);
            let (c4, lost) = session::step(c2, EventView::Failed(error));
            &&& lookup matches ActionView::Resolve(name) && {
                &&& crate::text::lossy_text(host).is_prefix_of(name)
                &&& name[crate::text::lossy_text(host).len() as int] == ':'
                &&& name.skip(crate::text::lossy_text(host).len() as int + 1)
                    == crate::text::digits(port as nat, 10)
            }
            &&& addrs.len() >= 1 ==> {
                &&& send == ActionView::SendTo(payload, addrs[0])
                &&& wait == ActionView::WaitUdp
                &&& c3.stage == Stage::Associated(known)
                &&& lost == ActionView::WaitUdp
                &&& c4.stage == Stage::Associated(known)
            }
            &&& addrs.len() == 0 ==> send == ActionView::WaitUdp && c2.stage == Stage::Associated(
                known,
            )
        }),
{
    let end = 5 + data[4] as int;
    let port = net::port_from(data[end], data[end + 1]);
    let header = wire::udp_header_at(data)->Ok_0.0;
    wire::law_udp_header_layout(data);
    crate::udp::law_who_the_client_is(association, from, data);
    assert(header.addr =~= data.subrange(5, end));
    address::law_targets(AddrType::Domain, header.addr, port);
}

/// A datagram of the client for an IP address goes there: all that follows its
/// header, unchanged, to exactly the address and the port in the header.
pub proof fn law_datagrams_to_addresses_are_relayed(
    c: ClientView,
    association: UdpAssociation,
    from: SocketAddr,
    data: Seq<u8>,
)
    requires
        c.stage == Stage::Associated(association),
        from_the_client(association, from),
        data.len() >= 4,
        data[2] == 0x00,
        (data[3] == 0x01 && data.len() >= 10) || (data[3] == 0x04 && data.len() >= 22),
    ensures
        ({
            let known = UdpAssociation { client: Some(from), expected: association.expected };
            let (c1, send) = session::step(c, EventView::Datagram(from, data));
            let (c2, wait) = session::step(c1, EventView::Done);
            &&& data[3] == 0x01 ==> (send matches ActionView::SendTo(
                payload,
                SocketAddr::V4 { ip, port },
            ) && payload == data.skip(10) && ip@ == data.subrange(4, 8) && port == 256 * data[8]
                + data[9])
            &&& data[3] == 0x04 ==> (send matches ActionView::SendTo(
                payload,
                SocketAddr::V6 { ip, port, flowinfo, scope_id },
            ) && payload == data.skip(22) && ip@ == data.subrange(4, 20) && port == 256 * data[20]
                + data[21] && flowinfo == 0 && scope_id == 0)
            &&& wait == ActionView::WaitUdp
            &&& c2.stage == Stage::Associated(known)
        }),
{
    wire::law_udp_header_layout(data);
    crate::udp::law_who_the_client_is(association, from, data);
    let (header, consumed) = wire::udp_header_at(data)->Ok_0;
    address::law_targets(header.addr_type, header.addr, header.port);
    let (c1, send) = session::step(c, EventView::Datagram(from, data));
    if data[3] == 0x01 {
        assert(header.addr =~= data.subrange(4, 8));
        assert(address::v4_octets(header.addr)@ =~= data.subrange(4, 8));
    } else {
        assert(header.addr =~= data.subrange(4, 20));
        assert(address::v6_octets(header.addr)@ =~= data.subrange(4, 20));
    }
}

/// A datagram of the client that is a fragment, or whose header is cut short or
/// has an unknown address type, is dropped; its sender is the client all the
/// same.
pub proof fn law_unusable_datagrams_are_dropped(
    c: ClientView,
    association: UdpAssociation,
    from: SocketAddr,
    data: Seq<u8>,
)
    requires
        c.stage == Stage::Associated(association),
        from_the_client(association, from),
        data.len() < 4 || data[2] != 0x00 || (data[3] != 0x01 && data[3] != 0x03 && data[3] != 0x04)
            || (data[3] == 0x01 && data.len() < 10) || (data[3] == 0x04 && data.len() < 22) || (
        data[3] == 0x03 && (data.len() < 5 || data.len() < 7 + data[4])),
    ensures
        ({
            let (after, action) = session::step(c, EventView::Datagram(from, data));
            &&& action == ActionView::WaitUdp
            &&& after.stage == Stage::Associated(
                UdpAssociation { client: Some(from), expected: association.expected },
            )
        }),
{
    wire::law_udp_header_layout(data);
    crate::udp::law_who_the_client_is(association, from, data);
}

/// What anyone else sends goes to the client, all of it, behind a header with
/// the sender's address; while the client is not known, it is dropped. Either
/// way nobody becomes the client by it.
pub proof fn law_datagrams_of_others_reach_the_client(
    c: ClientView,
    association: UdpAssociation,
    from: SocketAddr,
    data: Seq<u8>,
)
    requires
        c.stage == Stage::Associated(association),
        !from_the_client(association, from),
    ensures
        ({
            let (c1, action) = session::step(c, EventView::Datagram(from, data));
            &&& association.client is None ==> action == ActionView::WaitUdp && c1.stage == c.stage
            &&& association.client matches Some(client) ==> {
                let (c2, wait) = session::step(c1, EventView::Done);
                let header = match from {
                    SocketAddr::V4 { ip, port } => seq![0u8, 0, 0, 0x01] + ip@ + seq![
                        (port / 256) as u8,
                        (port % 256) as u8,
                    ],
                    SocketAddr::V6 { ip, port, flowinfo: _, scope_id: _ } => seq![
                        0u8,
                        0,
                        0,
                        0x04,
                    ] + ip@ + seq![(port / 256) as u8, (port % 256) as u8],
                };
                &&& action == ActionView::SendTo(header + data, client)
                &&& wait == ActionView::WaitUdp
                &&& c2.stage == c.stage
            }
        }),
{
    crate::udp::law_who_the_client_is(association, from, data);
    match from {
        SocketAddr::V4 { ip, port } => {
            wire::law_encoded_udp_header_layout(ip, arbitrary(), port, 0, 0);
        },
        SocketAddr::V6 { ip, port, flowinfo, scope_id } => {
            wire::law_encoded_udp_header_layout(arbitrary(), ip, port, flowinfo, scope_id);
        },
    }
}

/// An association lasts as long as the client's stream: its end is the end,
/// without an error, and whatever else comes in there changes nothing.
pub proof fn law_control_channel(c: ClientView, association: UdpAssociation, n: usize)
    requires
        c.stage == Stage::Associated(association),
    ensures
        n == 0 ==> session::step(c, EventView::Control(n)).1 == ActionView::Finished(Ok(0)),
        n > 0 ==> session::step(c, EventView::Control(n)).1 == ActionView::WaitUdp && session::step(
            c,
            EventView::Control(n),
        ).0.stage == c.stage,
{
}

// ---------------------------------------------------------------- connections
/// While its session goes on, a connection passes every action on as it is,
/// and a connection that has been started is a session that has been.
pub proof fn law_connections_pass_actions_on(run: RunView, event: EventView)
    ensures
        run.phase == Phase::Serving && !(session::step(run.client, event).1 is Finished) ==> {
            let (after, action) = run::run_step(run, event);
            &&& action == session::step(run.client, event).1
            &&& after.client == session::step(run.client, event).0
            &&& after.phase == Phase::Serving
            &&& after.failure == run.failure
        },
        ({
            let (after, action) = run::run_started(run);
            &&& action == ActionView::Read(2)
            &&& after.client == session::started(run.client).0
            &&& after.phase == Phase::Serving
            &&& after.failure is None
        }),
{
}

/// While a client is told about an error and its stream is shut down, only how
/// that went counts, and the error is remembered until the end.
pub proof fn law_connections_close(run: RunView, event: EventView, error: ErrorView)
    requires
        run.phase == Phase::Replying || run.phase == Phase::Closing,
        run.failure == Some(error),
    ensures
        ({
            let (after, action) = run::run_step(run, event);
            let settled = event is Done || event is Failed;
            &&& after.client == run.client
            &&& !settled ==> (after, action) == (run, ActionView::Ignored)
            &&& settled && run.phase == Phase::Replying ==> {
                &&& action == ActionView::Shutdown
                &&& after.phase == Phase::Closing
                &&& after.failure == Some(error)
            }
            &&& settled && run.phase == Phase::Closing ==> {
                &&& action == ActionView::Finished(Err(error))
                &&& after.phase == Phase::Closed
            }
        }),
{
}

/// A `CONNECT` to an IP address asks for a connection to the one socket that
/// the first octets of the address and the port spell.
pub proof fn law_destinations_are_connected_to(c: ClientView, request: RequestView)
    requires
        request.command == SockCommand::Connect,
        (request.addr_type == AddrType::V4 && request.addr.len() >= 4) || (request.addr_type
            == AddrType::V6 && request.addr.len() >= 16),
    ensures
        session::requested(c, request).1 matches ActionView::Connect(addrs, _) && {
            &&& addrs.len() == 1
            &&& request.addr_type == AddrType::V4 ==> (addrs[0] matches SocketAddr::V4 { ip, port }
                && ip@ == request.addr.take(4) && port == request.port)
            &&& request.addr_type == AddrType::V6 ==> (addrs[0] matches SocketAddr::V6 {
                ip,
                port,
                flowinfo,
                scope_id,
            } && ip@ == request.addr.take(16) && port == request.port && flowinfo == 0 && scope_id
                == 0)
        },
{
    if request.addr_type == AddrType::V4 {
        assert(address::v4_octets(request.addr)@ =~= request.addr.take(4));
    } else {
        assert(address::v6_octets(request.addr)@ =~= request.addr.take(16));
    }
}

/// Once a socket is bound for a client, the client is told its address, with
/// success; once it has been told, a peer is awaited, or datagrams are.
pub proof fn law_bound_addresses_are_advertised(
    c: ClientView,
    v4: [u8; 4],
    v6: [u8; 16],
    port: u16,
    flowinfo: u32,
    scope_id: u32,
)
    requires
        c.stage is Listening || c.stage is BindingUdp,
    ensures
        session::step(c, EventView::Bound(SocketAddr::V4 { ip: v4, port })).1 == ActionView::Write(
            seq![0x05u8, 0, 0, 0x01] + v4@ + seq![(port / 256) as u8, (port % 256) as u8],
        ),
        session::step(
            c,
            EventView::Bound(SocketAddr::V6 { ip: v6, port, flowinfo, scope_id }),
        ).1 == ActionView::Write(
            seq![0x05u8, 0, 0, 0x04] + v6@ + seq![(port / 256) as u8, (port % 256) as u8],
        ),
{
    reply::law_reply_layout(ResponseCode::Success, v4, v6, port, flowinfo, scope_id);
}

/// A peer is accepted exactly when its IP address is the expected one, or none
/// is expected; its address is then advertised. Any other is refused.
pub proof fn law_peers_are_judged(
    c: ClientView,
    expected: Option<IpAddr>,
    v4: [u8; 4],
    v6: [u8; 16],
    port: u16,
    flowinfo: u32,
    scope_id: u32,
)
    requires
        c.stage == Stage::Accepting(expected),
    ensures
        session::step(c, EventView::Accepted(SocketAddr::V4 { ip: v4, port })).1 == if expected is
            None || expected == Some(IpAddr::V4(v4)) {
            ActionView::Write(
                seq![0x05u8, 0, 0, 0x01] + v4@ + seq![(port / 256) as u8, (port % 256) as u8],
            )
        } else {
            ActionView::Finished(Err(ErrorView::Socks(ResponseCode::RuleFailure)))
        },
        session::step(
            c,
            EventView::Accepted(SocketAddr::V6 { ip: v6, port, flowinfo, scope_id }),
        ).1 == if expected is None || expected == Some(IpAddr::V6(v6)) {
            ActionView::Write(
                seq![0x05u8, 0, 0, 0x04] + v6@ + seq![(port / 256) as u8, (port % 256) as u8],
            )
        } else {
            ActionView::Finished(Err(ErrorView::Socks(ResponseCode::RuleFailure)))
        },
{
    reply::law_reply_layout(ResponseCode::Success, v4, v6, port, flowinfo, scope_id);
}

} // verus!
