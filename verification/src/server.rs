//! Listening for clients and admitting them.
use std::sync::Arc;

use vstd::prelude::*;

use crate::auth::User;
use crate::client::SOCKClient;
use crate::error::{IoError, IoErrorKind, IoErrorView};
use crate::limits::DEFAULT_MAX_CONNECTIONS;
use crate::net::SocketAddr;
#[allow(unused_imports)]
use crate::session::ClientView;
use crate::text::push_number;
#[allow(unused_imports)]
use crate::{auth, client, text};

verus! {

// ---------------------------------------------------------------- binding
/// The first occurrence of each address, in order.
pub open spec fn distinct(addrs: Seq<SocketAddr>) -> Seq<SocketAddr>
    decreases addrs.len(),
{
    if addrs.len() == 0 {
        seq![]
    } else {
        let earlier = distinct(addrs.drop_last());
        if earlier.contains(addrs.last()) {
            earlier
        } else {
            earlier.push(addrs.last())
        }
    }
}

/// Whether `addrs` holds `addr`.
fn holds_addr(addrs: &Vec<SocketAddr>, addr: &SocketAddr) -> (found: bool)
    ensures
        found == addrs@.contains(*addr),
{
    let mut i: usize = 0;
    while i < addrs.len()
        invariant
            0 <= i <= addrs@.len(),
            forall|j: int| 0 <= j < i ==> addrs@[j] != *addr,
        decreases addrs@.len() - i,
    {
        if addrs[i].same(addr) {
            assert(addrs@[i as int] == *addr);
            return true;
        }
        i = i + 1;
    }
    false
}

/// The error of a name without addresses.
pub open spec fn unresolved_error(ip: Seq<char>) -> IoErrorView {
    IoErrorView {
        kind: IoErrorKind::AddrNotAvailable,
        message: "no addresses resolved for "@ + ip,
    }
}

/// The addresses to listen on, given what `ip` resolves to.
///
/// When a hostname resolves to both IPv4 and IPv6 addresses (for example
/// `localhost` on a dual-stack host), every address is bound so the server
/// accepts connections over both families and on every interface the name maps
/// to. Duplicate addresses are collapsed.
pub fn addresses_to_bind(ip: &str, resolved: &Vec<SocketAddr>) -> (addrs: Result<
    Vec<SocketAddr>,
    IoError,
>)
    ensures
        match addrs {
            Ok(addrs) => resolved@.len() > 0 && addrs@ == distinct(resolved@),
            Err(error) => resolved@.len() == 0 && error@ == unresolved_error(ip@),
        },
{
    if resolved.len() == 0 {
        let mut message = "no addresses resolved for ".to_owned();
        message.append(ip);
        return Err(IoError { kind: IoErrorKind::AddrNotAvailable, message });
    }
    let mut addrs: Vec<SocketAddr> = Vec::new();
    let mut i: usize = 0;
    assert(resolved@.take(0) =~= Seq::<SocketAddr>::empty());
    while i < resolved.len()
        invariant
            0 <= i <= resolved@.len(),
            addrs@ == distinct(resolved@.take(i as int)),
        decreases resolved@.len() - i,
    {
        let addr = resolved[i];
        proof {
            let next = resolved@.take(i + 1);
            assert(next.last() == addr);
            assert(next.drop_last() =~= resolved@.take(i as int));
        }
        if !holds_addr(&addrs, &addr) {
            addrs.push(addr);
        }
        i = i + 1;
    }
    assert(resolved@.take(i as int) =~= resolved@);
    Ok(addrs)
}

/// Collapsing duplicates loses no address, adds none and leaves no duplicate;
/// where there are addresses, some are left.
pub proof fn law_distinct_addresses(addrs: Seq<SocketAddr>)
    ensures
        forall|addr: SocketAddr| #[trigger]
            distinct(addrs).contains(addr) <==> addrs.contains(addr),
        distinct(addrs).no_duplicates(),
        addrs.len() > 0 ==> distinct(addrs).len() > 0,
    decreases addrs.len(),
{
    if addrs.len() > 0 {
        let shorter = addrs.drop_last();
        let earlier = distinct(shorter);
        let last = addrs.last();
        law_distinct_addresses(shorter);
        assert(addrs =~= shorter.push(last));
        assert forall|addr: SocketAddr| #[trigger]
            distinct(addrs).contains(addr) <==> addrs.contains(addr) by {
            assert(addrs.contains(addr) <==> shorter.contains(addr) || addr == last) by {
                if shorter.contains(addr) {
                    let i = choose|i: int| 0 <= i < shorter.len() && shorter[i] == addr;
                    assert(addrs[i] == addr);
                }
                if addr == last {
                    assert(addrs[addrs.len() - 1] == addr);
                }
            }
            if !earlier.contains(last) {
                let longer = earlier.push(last);
                if earlier.contains(addr) {
                    let i = choose|i: int| 0 <= i < earlier.len() && earlier[i] == addr;
                    assert(longer[i] == addr);
                }
                if addr == last {
                    assert(longer[earlier.len() as int] == addr);
                }
                if longer.contains(addr) && addr != last {
                    let i = choose|i: int| 0 <= i < longer.len() && longer[i] == addr;
                    assert(earlier[i] == addr);
                }
            }
        }
    }
}

/// How binding goes: the listeners that could be bound, and the last error.
pub struct BindAttempts<L> {
    listeners: Vec<L>,
    last_error: Option<IoError>,
}

/// The mathematical content of [`BindAttempts`].
#[verifier::ext_equal]
pub struct AttemptsView<L> {
    pub listeners: Seq<L>,
    pub last_error: Option<IoErrorView>,
}

impl<L> View for BindAttempts<L> {
    type V = AttemptsView<L>;

    closed spec fn view(&self) -> AttemptsView<L> {
        AttemptsView {
            listeners: self.listeners@,
            last_error: match self.last_error {
                Some(error) => Some(error@),
                None => None,
            },
        }
    }
}

/// How binding stands after another attempt.
pub open spec fn attempted<L>(before: AttemptsView<L>, outcome: Result<L, IoErrorView>) -> AttemptsView<
    L,
> {
    match outcome {
        Ok(listener) => AttemptsView { listeners: before.listeners.push(listener), ..before },
        Err(error) => AttemptsView { last_error: Some(error), ..before },
    }
}

/// The error when nothing was even tried.
pub open spec fn unbound_error(ip: Seq<char>, port: u16) -> IoErrorView {
    IoErrorView {
        kind: IoErrorKind::AddrNotAvailable,
        message: "could not bind any address for "@ + ip + ":"@ + text::digits(port as nat, 10),
    }
}

/// What binding comes to.
pub open spec fn binding_result<L>(attempts: AttemptsView<L>, ip: Seq<char>, port: u16) -> Result<
    Seq<L>,
    IoErrorView,
> {
    if attempts.listeners.len() > 0 {
        Ok(attempts.listeners)
    } else {
        match attempts.last_error {
            Some(error) => Err(error),
            None => Err(unbound_error(ip, port)),
        }
    }
}

impl<L> BindAttempts<L> {
    /// Nothing has been tried.
    pub fn new() -> (attempts: BindAttempts<L>)
        ensures
            attempts@ == (AttemptsView::<L> { listeners: seq![], last_error: None }),
    {
        let attempts = BindAttempts { listeners: Vec::new(), last_error: None };
        assert(attempts@ =~= (AttemptsView::<L> { listeners: seq![], last_error: None }));
        attempts
    }

    /// Take in the outcome of an attempt. An address that fails to bind is
    /// skipped.
    pub fn record(&mut self, outcome: Result<L, IoError>)
        ensures
            final(self)@ == attempted(
                old(self)@,
                match outcome {
                    Ok(listener) => Ok::<L, IoErrorView>(listener),
                    Err(error) => Err(error@),
                },
            ),
    {
        match outcome {
            Ok(listener) => self.listeners.push(listener),
            Err(error) => {
                self.last_error = Some(error);
            },
        }
    }

    /// The listeners, or an error when none could be bound.
    pub fn finish(self, ip: &str, port: u16) -> (result: Result<Vec<L>, IoError>)
        ensures
            match result {
                Ok(listeners) => binding_result(self@, ip@, port) == Ok::<_, IoErrorView>(
                    listeners@,
                ),
                Err(error) => binding_result(self@, ip@, port) == Err::<Seq<L>, _>(error@),
            },
    {
        if self.listeners.len() > 0 {
            return Ok(self.listeners);
        }
        match self.last_error {
            Some(error) => Err(error),
            None => {
                let mut message = "could not bind any address for ".to_owned();
                message.append(ip);
                message.append(":");
                push_number(&mut message, port as u64, 10);
                Err(IoError { kind: IoErrorKind::AddrNotAvailable, message })
            },
        }
    }
}

/// How binding stands after a run of attempts.
pub open spec fn after_attempts<L>(outcomes: Seq<Result<L, IoErrorView>>) -> AttemptsView<L>
    decreases outcomes.len(),
{
    if outcomes.len() == 0 {
        AttemptsView { listeners: seq![], last_error: None }
    } else {
        attempted(after_attempts(outcomes.drop_last()), outcomes.last())
    }
}

/// An error is returned only when none of the addresses could be bound, and it
/// is then the last one; otherwise every listener that could be bound is there.
pub proof fn law_binding_fails_only_when_nothing_is_bound<L>(
    outcomes: Seq<Result<L, IoErrorView>>,
    ip: Seq<char>,
    port: u16,
)
    requires
        outcomes.len() > 0,
    ensures
        binding_result(after_attempts(outcomes), ip, port) is Err <==> forall|i: int|
            0 <= i < outcomes.len() ==> outcomes[i] is Err,
        binding_result(after_attempts(outcomes), ip, port) matches Err(error) ==> outcomes.last()
            == Err::<L, _>(error),
        binding_result(after_attempts(outcomes), ip, port) matches Ok(listeners) ==> forall|i: int|
            0 <= i < outcomes.len() && outcomes[i] is Ok ==> listeners.contains(
                #[trigger] outcomes[i]->Ok_0,
            ),
{
    lemma_attempts(outcomes);
}

proof fn lemma_attempts<L>(outcomes: Seq<Result<L, IoErrorView>>)
    ensures
        ({
            let attempts = after_attempts(outcomes);
            &&& attempts.listeners.len() == 0 <==> forall|i: int|
                0 <= i < outcomes.len() ==> outcomes[i] is Err
            &&& outcomes.len() > 0 && outcomes.last() is Err ==> attempts.last_error == Some(
                outcomes.last()->Err_0,
            )
            &&& forall|i: int|
                0 <= i < outcomes.len() && outcomes[i] is Ok ==> attempts.listeners.contains(
                    #[trigger] outcomes[i]->Ok_0,
                )
        }),
    decreases outcomes.len(),
{
    if outcomes.len() > 0 {
        let shorter = outcomes.drop_last();
        let earlier = after_attempts(shorter);
        let attempts = after_attempts(outcomes);
        lemma_attempts(shorter);
        assert(forall|i: int| 0 <= i < shorter.len() ==> shorter[i] == outcomes[i]);
        if outcomes.last() is Ok {
            assert(outcomes[outcomes.len() - 1] is Ok);
            assert(attempts.listeners[earlier.listeners.len() as int] == outcomes.last()->Ok_0);
        } else if earlier.listeners.len() > 0 {
            let i = choose|i: int| 0 <= i < shorter.len() && !(shorter[i] is Err);
            assert(!(outcomes[i] is Err));
        }
        assert forall|i: int| 0 <= i < outcomes.len() && outcomes[i] is Ok implies {
            attempts.listeners.contains(#[trigger] outcomes[i]->Ok_0)
        } by {
            if i < shorter.len() {
                let listener = shorter[i]->Ok_0;
                assert(earlier.listeners.contains(listener));
                let j = choose|j: int|
                    0 <= j < earlier.listeners.len() && earlier.listeners[j] == listener;
                assert(attempts.listeners[j] == listener);
            }
        }
    }
}

// ---------------------------------------------------------------- servers
/// The mathematical content of a server.
#[verifier::ext_equal]
pub struct ServerView {
    /// The addresses it listens on.
    pub bound: Seq<SocketAddr>,
    /// Who may use it.
    pub users: Seq<auth::UserView>,
    /// The allowed authentication methods.
    pub methods: Seq<u8>,
    /// The configured budget for reaching a destination.
    pub timeout: Option<u128>,
    /// How many clients it handles at once.
    pub max_connections: usize,
}

/// A server with the default limits.
pub open spec fn new_server(
    bound: Seq<SocketAddr>,
    methods: Seq<u8>,
    users: Seq<auth::UserView>,
    timeout: Option<u128>,
) -> ServerView {
    ServerView { bound, users, methods, timeout, max_connections: DEFAULT_MAX_CONNECTIONS }
}

/// The session of a client that connected to `server` at `local_addr`.
pub open spec fn new_session(server: ServerView, local_addr: Option<SocketAddr>) -> ClientView {
    ClientView {
        local_addr,
        ..client::fresh(server.users, server.methods, server.timeout)
    }
}

/// The limit that is set by asking for `max` connections: never zero.
pub open spec fn clamped(max: usize) -> usize {
    if max < 1 {
        1
    } else {
        max
    }
}

/// A server that runs each client as a task.
pub struct Merino {
    bound: Vec<SocketAddr>,
    users: Arc<Vec<User>>,
    auth_methods: Arc<Vec<u8>>,
    timeout: Option<u128>,
    max_connections: usize,
}

impl View for Merino {
    type V = ServerView;

    closed spec fn view(&self) -> ServerView {
        ServerView {
            bound: self.bound@,
            users: auth::user_views(self.users@),
            methods: self.auth_methods@,
            timeout: self.timeout,
            max_connections: self.max_connections,
        }
    }
}

/// The error of a server that does not listen anywhere.
pub open spec fn no_listeners_error() -> IoErrorView {
    IoErrorView { kind: IoErrorKind::AddrNotAvailable, message: "no listeners bound"@ }
}

impl Merino {
    #[verifier::type_invariant]
    spec fn can_admit(self) -> bool {
        self.max_connections >= 1
    }

    /// Create a new Merino instance that listens on `bound`
    pub fn new(
        bound: Vec<SocketAddr>,
        auth_methods: Vec<u8>,
        users: Vec<User>,
        timeout: Option<u128>,
    ) -> (merino: Merino)
        ensures
            merino@ == new_server(bound@, auth_methods@, auth::user_views(users@), timeout),
    {
        Merino {
            bound,
            auth_methods: Arc::new(auth_methods),
            users: Arc::new(users),
            timeout,
            max_connections: DEFAULT_MAX_CONNECTIONS,
        }
    }

    /// Set the maximum number of simultaneous client connections.
    ///
    /// Zero is clamped to one so the accept loop can never deadlock.
    pub fn set_max_connections(&mut self, max: usize)
        ensures
            final(self)@ == (ServerView { max_connections: clamped(max), ..old(self)@ }),
    {
        self.max_connections = if max < 1 {
            1
        } else {
            max
        };
    }

    /// The maximum number of simultaneous client connections, never zero.
    pub fn max_connections(&self) -> (max: usize)
        ensures
            max == self@.max_connections,
            max >= 1,
    {
        proof {
            use_type_invariant(self);
        }
        self.max_connections
    }

    /// Return the first address a listener is bound to
    pub fn local_addr(&self) -> (addr: Result<SocketAddr, IoError>)
        ensures
            match addr {
                Ok(addr) => self@.bound.len() > 0 && addr == self@.bound[0],
                Err(error) => self@.bound.len() == 0 && error@ == no_listeners_error(),
            },
    {
        if self.bound.len() == 0 {
            return Err(IoError::new(IoErrorKind::AddrNotAvailable, "no listeners bound"));
        }
        Ok(self.bound[0])
    }

    /// Return the address of every listener this server is bound to
    pub fn local_addrs(&self) -> (addrs: &[SocketAddr])
        ensures
            addrs@ == self@.bound,
    {
        self.bound.as_slice()
    }

    /// Hand the listeners over to the accept loop, which accepts at every
    /// address that is returned.
    pub fn serve(&mut self) -> (listening: Vec<SocketAddr>)
        ensures
            listening@ == old(self)@.bound,
            final(self)@ == (ServerView { bound: seq![], ..old(self)@ }),
    {
        proof {
            use_type_invariant(&*self);
        }
        let mut listening: Vec<SocketAddr> = Vec::new();
        std::mem::swap(&mut listening, &mut self.bound);
        assert(self@ =~= (ServerView { bound: seq![], ..old(self)@ }));
        listening
    }

    /// The session of a client that connected at `local_addr`.
    pub fn new_client(&self, local_addr: Option<SocketAddr>) -> (client: SOCKClient)
        ensures
            client@ == new_session(self@, local_addr),
    {
        let mut client = SOCKClient::new(
            self.users.clone(),
            self.auth_methods.clone(),
            self.timeout,
        );
        client.set_local_addr(local_addr);
        client
    }
}

/// A server that runs each client as an actor.
///
/// A hostname may resolve to several addresses (an IPv4 and an IPv6 address on
/// the same host, for example); one listener is bound per resolved address, and
/// clients are accepted at all of them.
pub struct SocksServer {
    bound_addrs: Vec<SocketAddr>,
    users: Arc<Vec<User>>,
    auth_methods: Arc<Vec<u8>>,
    timeout: Option<u128>,
    max_connections: usize,
}

impl View for SocksServer {
    type V = ServerView;

    closed spec fn view(&self) -> ServerView {
        ServerView {
            bound: self.bound_addrs@,
            users: auth::user_views(self.users@),
            methods: self.auth_methods@,
            timeout: self.timeout,
            max_connections: self.max_connections,
        }
    }
}

impl SocksServer {
    #[verifier::type_invariant]
    spec fn can_admit(self) -> bool {
        self.max_connections >= 1 && self.bound_addrs@.len() >= 1
    }

    /// Build the server actor that listens on `bound_addrs`, of which there is
    /// at least one.
    pub fn bind(
        bound_addrs: Vec<SocketAddr>,
        auth_methods: Vec<u8>,
        users: Vec<User>,
        timeout: Option<u128>,
    ) -> (server: SocksServer)
        requires
            bound_addrs@.len() >= 1,
        ensures
            server@ == new_server(bound_addrs@, auth_methods@, auth::user_views(users@), timeout),
    {
        SocksServer {
            bound_addrs,
            auth_methods: Arc::new(auth_methods),
            users: Arc::new(users),
            timeout,
            max_connections: DEFAULT_MAX_CONNECTIONS,
        }
    }

    /// Set the maximum number of simultaneous client connections.
    ///
    /// Zero is clamped to one so the accept loop can never deadlock. Call
    /// before the actor is started.
    pub fn set_max_connections(&mut self, max: usize)
        ensures
            final(self)@ == (ServerView { max_connections: clamped(max), ..old(self)@ }),
    {
        proof {
            use_type_invariant(&*self);
        }
        self.max_connections = if max < 1 {
            1
        } else {
            max
        };
    }

    /// The maximum number of simultaneous client connections, never zero.
    pub fn max_connections(&self) -> (max: usize)
        ensures
            max == self@.max_connections,
            max >= 1,
    {
        proof {
            use_type_invariant(self);
        }
        self.max_connections
    }

    /// Address of the first listener.
    pub fn local_addr(&self) -> (addr: SocketAddr)
        ensures
            self@.bound.len() >= 1,
            addr == self@.bound[0],
    {
        proof {
            use_type_invariant(self);
        }
        self.bound_addrs[0]
    }

    /// Address of every listener this server is bound to.
    pub fn local_addrs(&self) -> (addrs: &[SocketAddr])
        ensures
            addrs@ == self@.bound,
    {
        self.bound_addrs.as_slice()
    }

    /// The session of a client that connected at `local_addr`.
    pub fn new_client(&self, local_addr: Option<SocketAddr>) -> (client: SOCKClient)
        ensures
            client@ == new_session(self@, local_addr),
    {
        let mut client = SOCKClient::new(
            self.users.clone(),
            self.auth_methods.clone(),
            self.timeout,
        );
        client.set_local_addr(local_addr);
        client
    }
}

// ---------------------------------------------------------------- accepting
/// What an accept loop is waiting for.
#[derive(Clone, Copy, Debug, PartialEq, Eq, Structural)]
pub enum AcceptStage {
    /// A slot for one more connection.
    Acquiring,
    /// A connection to put in the slot, at any of the listeners.
    Accepting,
    /// Nothing: there is no listener, or no slot will ever be free again.
    Stopped,
}

/// The accept loop of a server, which accepts from all of its listeners.
///
/// A slot is acquired for whichever listener has a client next, so a listener
/// without clients keeps no slot from the others.
#[derive(Clone, Copy, Debug, PartialEq, Eq, Structural)]
pub struct AcceptLoop {
    /// How many listeners there are.
    pub listeners: usize,
    /// The listener whose turn it is.
    pub turn: usize,
    /// What the loop is waiting for.
    pub stage: AcceptStage,
}

/// What an accept loop is told.
#[derive(Clone, Copy, Debug, PartialEq, Eq, Structural)]
pub enum AcceptEvent {
    /// A slot was acquired.
    Acquired,
    /// No slot can be acquired any more.
    Exhausted,
    /// A client connected to this listener.
    Accepted(usize),
    /// Accepting from this listener failed.
    Failed(usize),
}

/// What an accept loop asks for.
#[derive(Clone, Copy, Debug, PartialEq, Eq, Structural)]
pub enum AcceptAction {
    /// Accept a connection from the first listener in the polling order that
    /// has one.
    Accept,
    /// Serve the connection of this listener, which keeps the slot until it is
    /// closed; then acquire the next slot.
    Serve(usize),
    /// Give the slot back, then acquire one again.
    Release,
    /// End the loop.
    Stop,
    /// Nothing: the event did not answer what was asked for.
    Ignore,
}

/// An accept loop that has just started.
pub open spec fn accept_started(listeners: usize) -> AcceptLoop {
    AcceptLoop {
        listeners,
        turn: 0,
        stage: if listeners == 0 {
            AcceptStage::Stopped
        } else {
            AcceptStage::Acquiring
        },
    }
}

/// The loop goes on to acquire a slot, and it is the turn of the listener
/// after `i`.
pub open spec fn next_turn(l: AcceptLoop, i: usize) -> AcceptLoop {
    AcceptLoop {
        turn: if i + 1 < l.listeners {
            (i + 1) as usize
        } else {
            0
        },
        stage: AcceptStage::Acquiring,
        ..l
    }
}

/// How an accept loop answers an event.
///
/// A slot is acquired before accepting, so excess connections wait in the
/// kernel backlog instead of being served. An error while accepting costs
/// nothing but the attempt.
pub open spec fn accept_step(l: AcceptLoop, event: AcceptEvent) -> (AcceptLoop, AcceptAction) {
    match (l.stage, event) {
        (AcceptStage::Acquiring, AcceptEvent::Acquired) => (
            AcceptLoop { stage: AcceptStage::Accepting, ..l },
            AcceptAction::Accept,
        ),
        (AcceptStage::Acquiring, AcceptEvent::Exhausted) => (
            AcceptLoop { stage: AcceptStage::Stopped, ..l },
            AcceptAction::Stop,
        ),
        (AcceptStage::Accepting, AcceptEvent::Accepted(i)) => if i < l.listeners {
            (next_turn(l, i), AcceptAction::Serve(i))
        } else {
            (l, AcceptAction::Ignore)
        },
        (AcceptStage::Accepting, AcceptEvent::Failed(i)) => if i < l.listeners {
            (next_turn(l, i), AcceptAction::Release)
        } else {
            (l, AcceptAction::Ignore)
        },
        _ => (l, AcceptAction::Ignore),
    }
}

/// The listener that is looked at first.
pub open spec fn looked_at_first(l: AcceptLoop) -> int {
    if l.turn < l.listeners {
        l.turn as int
    } else {
        0
    }
}

/// The listener that is looked at after `k` others.
pub open spec fn looked_at(l: AcceptLoop, k: int) -> int {
    if looked_at_first(l) + k < l.listeners {
        looked_at_first(l) + k
    } else {
        looked_at_first(l) + k - l.listeners
    }
}

/// The listeners in the order in which they are looked at for a client: from
/// the one whose turn it is, round to the one before it.
pub open spec fn polling(l: AcceptLoop) -> Seq<int> {
    Seq::new(l.listeners as nat, |k: int| looked_at(l, k))
}

impl AcceptLoop {
    /// A loop over this many listeners, which starts by acquiring a slot if
    /// there are any.
    pub fn new(listeners: usize) -> (l: AcceptLoop)
        ensures
            l == accept_started(listeners),
    {
        let stage = if listeners == 0 {
            AcceptStage::Stopped
        } else {
            AcceptStage::Acquiring
        };
        AcceptLoop { listeners, turn: 0, stage }
    }

    /// Whether the loop has ended.
    pub fn is_stopped(&self) -> (stopped: bool)
        ensures
            stopped == (self.stage == AcceptStage::Stopped),
    {
        self.stage == AcceptStage::Stopped
    }

    /// The listeners in the order in which to look for a client.
    pub fn polling_order(&self) -> (order: Vec<usize>)
        ensures
            order@.map_values(|i: usize| i as int) == polling(*self),
    {
        let first: usize = if self.turn < self.listeners {
            self.turn
        } else {
            0
        };
        let mut order: Vec<usize> = Vec::new();
        let mut k: usize = 0;
        while k < self.listeners
            invariant
                first == looked_at_first(*self),
                first < self.listeners || self.listeners == 0,
                0 <= k <= self.listeners,
                order@.len() == k,
                forall|j: int| 0 <= j < k ==> order@[j] == looked_at(*self, j),
            decreases self.listeners - k,
        {
            let room: usize = self.listeners - first;
            if k < room {
                order.push(first + k);
            } else {
                order.push(k - room);
            }
            k = k + 1;
        }
        assert(order@.map_values(|i: usize| i as int) =~= polling(*self));
        order
    }

    /// Answer an event.
    pub fn on_event(&mut self, event: AcceptEvent) -> (next: AcceptAction)
        ensures
            (*final(self), next) == accept_step(*old(self), event),
    {
        match (self.stage, event) {
            (AcceptStage::Acquiring, AcceptEvent::Acquired) => {
                self.stage = AcceptStage::Accepting;
                AcceptAction::Accept
            },
            (AcceptStage::Acquiring, AcceptEvent::Exhausted) => {
                self.stage = AcceptStage::Stopped;
                AcceptAction::Stop
            },
            (AcceptStage::Accepting, AcceptEvent::Accepted(i)) => {
                if i < self.listeners {
                    self.pass_turn(i);
                    AcceptAction::Serve(i)
                } else {
                    AcceptAction::Ignore
                }
            },
            (AcceptStage::Accepting, AcceptEvent::Failed(i)) => {
                if i < self.listeners {
                    self.pass_turn(i);
                    AcceptAction::Release
                } else {
                    AcceptAction::Ignore
                }
            },
            _ => AcceptAction::Ignore,
        }
    }

    /// Go on to acquire a slot, and pass the turn to the listener after `i`.
    fn pass_turn(&mut self, i: usize)
        requires
            i < old(self).listeners,
        ensures
            *final(self) == next_turn(*old(self), i),
    {
        let next: usize = i + 1;
        self.turn = if next < self.listeners {
            next
        } else {
            0
        };
        self.stage = AcceptStage::Acquiring;
    }
}

/// How many listeners are looked at before listener `j`.
pub open spec fn ahead_of(l: AcceptLoop, j: int) -> int {
    if j >= looked_at_first(l) {
        j - looked_at_first(l)
    } else {
        j - looked_at_first(l) + l.listeners
    }
}

/// Every listener is looked at, exactly once in each round.
pub proof fn law_every_listener_is_looked_at(l: AcceptLoop, j: int)
    requires
        0 <= j < l.listeners,
    ensures
        0 <= ahead_of(l, j) < l.listeners,
        polling(l)[ahead_of(l, j)] == j,
        polling(l).no_duplicates(),
{
}

/// No listener is passed over for ever: whenever a listener that was looked at
/// before listener `j` has had its turn, fewer are looked at before `j` than
/// there were. So `j` is the first to be looked at after as many turns as there
/// are other listeners, at most.
pub proof fn law_every_listener_gets_its_turn(l: AcceptLoop, i: usize, j: int)
    requires
        i < l.listeners,
        0 <= j < l.listeners,
        ahead_of(l, i as int) < ahead_of(l, j),
        l.stage == AcceptStage::Accepting,
    ensures
        ahead_of(accept_step(l, AcceptEvent::Accepted(i)).0, j) < ahead_of(l, j),
        ahead_of(accept_step(l, AcceptEvent::Failed(i)).0, j) < ahead_of(l, j),
{
}

/// An accept loop after a run of events.
pub open spec fn after_accepts(listeners: usize, events: Seq<AcceptEvent>) -> AcceptLoop
    decreases events.len(),
{
    if events.len() == 0 {
        accept_started(listeners)
    } else {
        accept_step(after_accepts(listeners, events.drop_last()), events.last()).0
    }
}

/// How often an accept loop asked for what is `wanted` during a run of events.
pub open spec fn asked_for(
    listeners: usize,
    events: Seq<AcceptEvent>,
    wanted: spec_fn(AcceptAction) -> bool,
) -> nat
    decreases events.len(),
{
    if events.len() == 0 {
        0
    } else {
        let earlier = events.drop_last();
        let (_, action) = accept_step(after_accepts(listeners, earlier), events.last());
        asked_for(listeners, earlier, wanted) + if wanted(action) {
            1nat
        } else {
            0nat
        }
    }
}

/// Every slot is accounted for: each slot that a loop took to accept with was
/// passed on to exactly one connection, or given back, or is the one it holds
/// now. So no connection is served without a slot of its own, and no slot is
/// lost.
pub proof fn law_every_slot_is_accounted_for(listeners: usize, events: Seq<AcceptEvent>)
    ensures
        asked_for(listeners, events, |action: AcceptAction| action is Accept) == asked_for(
            listeners,
            events,
            |action: AcceptAction| action is Serve,
        ) + asked_for(listeners, events, |action: AcceptAction| action is Release)
            + if after_accepts(listeners, events).stage == AcceptStage::Accepting {
            1nat
        } else {
            0nat
        },
    decreases events.len(),
{
    if events.len() > 0 {
        law_every_slot_is_accounted_for(listeners, events.drop_last());
    }
}

/// A server at work: its accept loop, the slots that are free, and how many
/// clients are being served.
#[verifier::ext_equal]
pub struct Occupancy {
    pub accepting: AcceptLoop,
    pub free: int,
    pub active: int,
}

/// What can happen to a server at work.
pub enum Happening {
    /// Its accept loop is told something.
    Told(AcceptEvent),
    /// The connection of a client is closed, and its slot is free again.
    Closed,
}

/// Whether something can happen: a slot can only be acquired while one is
/// free, and a connection can only be closed while there is one.
pub open spec fn possible(at: Occupancy, happening: Happening) -> bool {
    match happening {
        Happening::Told(event) => event == AcceptEvent::Acquired && at.accepting.stage
            == AcceptStage::Acquiring ==> at.free > 0,
        Happening::Closed => at.active > 0,
    }
}

/// What becomes of a server at work.
pub open spec fn occupied(at: Occupancy, happening: Happening) -> Occupancy {
    match happening {
        Happening::Told(event) => {
            let (accepting, action) = accept_step(at.accepting, event);
            let at = Occupancy { accepting, ..at };
            match action {
                AcceptAction::Accept => Occupancy { free: at.free - 1, ..at },
                AcceptAction::Serve(_) => Occupancy { active: at.active + 1, ..at },
                AcceptAction::Release => Occupancy { free: at.free + 1, ..at },
                _ => at,
            }
        },
        Happening::Closed => Occupancy { free: at.free + 1, active: at.active - 1, ..at },
    }
}

/// A server that has just started, with this many listeners.
pub open spec fn opened(limit: usize, listeners: usize) -> Occupancy {
    Occupancy { accepting: accept_started(listeners), free: limit as int, active: 0 }
}

/// A server after a run of happenings, the last one at the end.
pub open spec fn after_happenings(
    limit: usize,
    listeners: usize,
    history: Seq<Happening>,
) -> Occupancy
    decreases history.len(),
{
    if history.len() == 0 {
        opened(limit, listeners)
    } else {
        occupied(after_happenings(limit, listeners, history.drop_last()), history.last())
    }
}

/// Whether everything in a run of happenings could happen when it did.
pub open spec fn could_happen(limit: usize, listeners: usize, history: Seq<Happening>) -> bool
    decreases history.len(),
{
    history.len() > 0 ==> {
        &&& could_happen(limit, listeners, history.drop_last())
        &&& possible(
            after_happenings(limit, listeners, history.drop_last()),
            history.last(),
        )
    }
}

/// How many slots the accept loop holds.
pub open spec fn held(at: Occupancy) -> int {
    if at.accepting.stage == AcceptStage::Accepting {
        1
    } else {
        0
    }
}

/// The number of clients served at once never exceeds the limit, however many
/// listeners they come from and whatever happens: every slot is free, or held
/// by the loop that accepts, or held by a connection.
pub proof fn law_connection_cap(limit: usize, listeners: usize, history: Seq<Happening>)
    requires
        could_happen(limit, listeners, history),
    ensures
        ({
            let at = after_happenings(limit, listeners, history);
            &&& 0 <= at.active <= limit
            &&& at.free >= 0
            &&& at.free + at.active + held(at) == limit
            &&& at.accepting.listeners == listeners
        }),
    decreases history.len(),
{
    if history.len() > 0 {
        law_connection_cap(limit, listeners, history.drop_last());
    }
}

/// While as many clients are served as the limit allows, no other is: whatever
/// the accept loop is told then, no further client is accepted or served.
pub proof fn law_excess_clients_wait(
    limit: usize,
    listeners: usize,
    history: Seq<Happening>,
    event: AcceptEvent,
)
    requires
        could_happen(limit, listeners, history),
        after_happenings(limit, listeners, history).active == limit,
        possible(after_happenings(limit, listeners, history), Happening::Told(event)),
    ensures
        ({
            let at = after_happenings(limit, listeners, history);
            let (_, action) = accept_step(at.accepting, event);
            &&& !(action is Accept)
            &&& !(action is Serve)
            &&& occupied(at, Happening::Told(event)).active == limit
        }),
{
    law_connection_cap(limit, listeners, history);
}

/// The accept loop of a server with listeners ends only when it is told that
/// no slot can be acquired any more.
pub proof fn law_accepting_goes_on(limit: usize, listeners: usize, history: Seq<Happening>)
    requires
        listeners >= 1,
        forall|k: int|
            0 <= k < history.len() ==> #[trigger] history[k] != Happening::Told(
                AcceptEvent::Exhausted,
            ),
    ensures
        after_happenings(limit, listeners, history).accepting.stage != AcceptStage::Stopped,
    decreases history.len(),
{
    if history.len() > 0 {
        let earlier = history.drop_last();
        assert forall|k: int| 0 <= k < earlier.len() implies #[trigger] earlier[k]
            != Happening::Told(AcceptEvent::Exhausted) by {
            assert(earlier[k] == history[k]);
        }
        law_accepting_goes_on(limit, listeners, earlier);
        assert(history[history.len() - 1] != Happening::Told(AcceptEvent::Exhausted));
    }
}

/// The server when its accept loop holds a slot, having acquired one if it has
/// to.
pub open spec fn with_slot(at: Occupancy) -> Occupancy {
    if at.accepting.stage == AcceptStage::Acquiring {
        occupied(at, Happening::Told(AcceptEvent::Acquired))
    } else {
        at
    }
}

/// Whether a client that waits at listener `i` can be served at once, without
/// any other coming or leaving: a slot can be acquired unless one is held, the
/// client can be accepted, and it is then served.
pub open spec fn served_at_once(at: Occupancy, i: usize) -> bool {
    let accepted = Happening::Told(AcceptEvent::Accepted(i));
    &&& at.accepting.stage == AcceptStage::Acquiring ==> possible(
        at,
        Happening::Told(AcceptEvent::Acquired),
    )
    &&& with_slot(at).accepting.stage == AcceptStage::Accepting
    &&& polling(with_slot(at).accepting).contains(i as int)
    &&& possible(with_slot(at), accepted)
    &&& accept_step(with_slot(at).accepting, AcceptEvent::Accepted(i)).1 == AcceptAction::Serve(i)
    &&& occupied(with_slot(at), accepted).active == at.active + 1
}

/// A waiting client is served at once while fewer are served than the limit
/// allows, whichever of the listeners it waits at and however many there are;
/// and where as many are served as the limit allows, as soon as one has left.
pub proof fn law_waiting_client_is_served(
    limit: usize,
    listeners: usize,
    history: Seq<Happening>,
    i: usize,
)
    requires
        limit >= 1,
        i < listeners,
        could_happen(limit, listeners, history),
        forall|k: int|
            0 <= k < history.len() ==> #[trigger] history[k] != Happening::Told(
                AcceptEvent::Exhausted,
            ),
    ensures
        ({
            let at = after_happenings(limit, listeners, history);
            &&& at.active < limit ==> served_at_once(at, i)
            &&& at.active == limit ==> possible(at, Happening::Closed) && served_at_once(
                occupied(at, Happening::Closed),
                i,
            )
        }),
{
    let at = after_happenings(limit, listeners, history);
    law_connection_cap(limit, listeners, history);
    law_accepting_goes_on(limit, listeners, history);
    let now = if at.active < limit {
        at
    } else {
        occupied(at, Happening::Closed)
    };
    let l = with_slot(now).accepting;
    law_every_listener_is_looked_at(l, i as int);
    assert(polling(l)[ahead_of(l, i as int)] == i as int);
}

/// The limit is the very number that was asked for, and one where that was
/// zero.
pub proof fn law_limit_is_what_was_asked_for(max: usize)
    ensures
        max >= 1 ==> clamped(max) == max,
        clamped(0) == 1,
{
}

/// A server starts with what it was given, and 1024 clients at once.
pub proof fn law_new_servers(
    bound: Seq<SocketAddr>,
    methods: Seq<u8>,
    users: Seq<auth::UserView>,
    timeout: Option<u128>,
)
    ensures
        ({
            let server = new_server(bound, methods, users, timeout);
            &&& server.bound == bound
            &&& server.methods == methods
            &&& server.users == users
            &&& server.timeout == timeout
            &&& server.max_connections == 1024
        }),
{
}

/// Every client gets the users, the methods and the budget of its server, the
/// address it came in at, thirty seconds for its handshake, and only `CONNECT`.
pub proof fn law_new_sessions(server: ServerView, local_addr: Option<SocketAddr>)
    ensures
        ({
            let c = new_session(server, local_addr);
            &&& c.users == server.users
            &&& c.methods == server.methods
            &&& c.timeout == server.timeout
            &&& c.local_addr == local_addr
            &&& c.handshake_timeout == 30_000_000_000
            &&& !c.bind_enabled
            &&& !c.udp_enabled
            &&& c.request is None
            &&& c.socks_version == 0
            &&& c.auth_nmethods == 0
        }),
{
}

/// Addresses are collapsed in the order in which they came: the ones so far
/// stay as they are, and another one is added at the end exactly when it is
/// new.
pub proof fn law_distinct_in_order(addrs: Seq<SocketAddr>, addr: SocketAddr)
    ensures
        distinct(addrs.push(addr)) == if addrs.contains(addr) {
            distinct(addrs)
        } else {
            distinct(addrs).push(addr)
        },
        distinct(seq![]) == Seq::<SocketAddr>::empty(),
{
    law_distinct_addresses(addrs);
    assert(addrs.push(addr).drop_last() =~= addrs);
    assert(distinct(addrs).contains(addr) <==> addrs.contains(addr));
}

/// Every attempt to bind counts in its order: a listener is added at the end,
/// and an error leaves the listeners alone and is the last one. What comes of
/// it all is the listeners, in that order.
pub proof fn law_attempts_in_order<L>(
    outcomes: Seq<Result<L, IoErrorView>>,
    listener: L,
    error: IoErrorView,
    ip: Seq<char>,
    port: u16,
)
    ensures
        ({
            let before = after_attempts(outcomes);
            let bound = after_attempts(outcomes.push(Ok(listener)));
            let failed = after_attempts(outcomes.push(Err(error)));
            &&& bound.listeners == before.listeners.push(listener)
            &&& bound.last_error == before.last_error
            &&& failed.listeners == before.listeners
            &&& failed.last_error == Some(error)
            &&& binding_result(bound, ip, port) == Ok::<_, IoErrorView>(
                before.listeners.push(listener),
            )
            &&& before.listeners.len() > 0 ==> binding_result(failed, ip, port) == Ok::<
                _,
                IoErrorView,
            >(before.listeners)
            &&& before.listeners.len() == 0 ==> binding_result(failed, ip, port) == Err::<
                Seq<L>,
                _,
            >(error)
        }),
{
    assert(outcomes.push(Ok(listener)).drop_last() =~= outcomes);
    assert(outcomes.push(Err(error)).drop_last() =~= outcomes);
}

/// The errors of a name that leads nowhere say so, and name it.
pub proof fn law_binding_errors(ip: Seq<char>, port: u16)
    ensures
        ({
            let error = unresolved_error(ip);
            let before = "no addresses resolved for "@;
            &&& error.kind == IoErrorKind::AddrNotAvailable
            &&& before.is_prefix_of(error.message)
            &&& error.message.skip(before.len() as int) == ip
        }),
        ({
            let error = unbound_error(ip, port);
            let before = "could not bind any address for "@;
            &&& error.kind == IoErrorKind::AddrNotAvailable
            &&& before.is_prefix_of(error.message)
            &&& error.message.skip(before.len() as int) == ip + ":"@ + text::digits(port as nat, 10)
        }),
        no_listeners_error().kind == IoErrorKind::AddrNotAvailable,
{
    let unresolved = "no addresses resolved for "@;
    assert(unresolved_error(ip).message.skip(unresolved.len() as int) =~= ip);
    let unbound = "could not bind any address for "@;
    assert(unbound_error(ip, port).message.skip(unbound.len() as int) =~= ip + ":"@ + text::digits(
        port as nat,
        10,
    ));
}

/// An accept loop takes every answer to what it asked for, and nothing else: a
/// slot, or the news that there will be none, while it acquires one; a client,
/// or a failure, at one of its listeners while it accepts. What it does not
/// take changes nothing.
pub proof fn law_accept_loop_answers(l: AcceptLoop, event: AcceptEvent, i: usize)
    ensures
        l.stage == AcceptStage::Acquiring ==> {
            &&& accept_step(l, AcceptEvent::Acquired).1 == AcceptAction::Accept
            &&& accept_step(l, AcceptEvent::Acquired).0.stage == AcceptStage::Accepting
            &&& accept_step(l, AcceptEvent::Acquired).0.turn == l.turn
            &&& accept_step(l, AcceptEvent::Exhausted).1 == AcceptAction::Stop
            &&& accept_step(l, AcceptEvent::Exhausted).0.stage == AcceptStage::Stopped
            &&& accept_step(l, AcceptEvent::Accepted(i)).1 == AcceptAction::Ignore
            &&& accept_step(l, AcceptEvent::Failed(i)).1 == AcceptAction::Ignore
        },
        l.stage == AcceptStage::Accepting ==> {
            &&& i < l.listeners ==> accept_step(l, AcceptEvent::Accepted(i)).1
                == AcceptAction::Serve(i)
            &&& i < l.listeners ==> accept_step(l, AcceptEvent::Failed(i)).1
                == AcceptAction::Release
            &&& i < l.listeners ==> accept_step(l, AcceptEvent::Accepted(i)).0.stage
                == AcceptStage::Acquiring
            &&& i < l.listeners ==> accept_step(l, AcceptEvent::Failed(i)).0.stage
                == AcceptStage::Acquiring
            &&& i >= l.listeners ==> accept_step(l, AcceptEvent::Accepted(i)).1
                == AcceptAction::Ignore
            &&& i >= l.listeners ==> accept_step(l, AcceptEvent::Failed(i)).1
                == AcceptAction::Ignore
            &&& accept_step(l, AcceptEvent::Acquired).1 == AcceptAction::Ignore
            &&& accept_step(l, AcceptEvent::Exhausted).1 == AcceptAction::Ignore
        },
        l.stage == AcceptStage::Stopped ==> accept_step(l, event).1 == AcceptAction::Ignore,
        accept_step(l, event).1 == AcceptAction::Ignore ==> accept_step(l, event).0 == l,
        accept_step(l, event).0.listeners == l.listeners,
        accept_started(i).listeners == i,
        accept_started(i).stage == AcceptStage::Stopped <==> i == 0,
        i > 0 ==> accept_started(i).stage == AcceptStage::Acquiring,
        i > 0 ==> looked_at_first(accept_started(i)) == 0,
{
}

/// After a listener has had its turn, it is looked at last.
pub proof fn law_turns_go_round(l: AcceptLoop, i: usize)
    requires
        i < l.listeners,
        l.stage == AcceptStage::Accepting,
    ensures
        polling(accept_step(l, AcceptEvent::Accepted(i)).0).last() == i,
        polling(accept_step(l, AcceptEvent::Failed(i)).0).last() == i,
        forall|k: int|
            0 <= k < l.listeners - 1 ==> (#[trigger] polling(l)[k] + 1 == polling(l)[k + 1]
                || polling(l)[k + 1] == 0 && polling(l)[k] == l.listeners - 1),
{
}

} // verus!
