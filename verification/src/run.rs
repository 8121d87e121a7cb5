//! Driving a single client connection to completion.
use vstd::prelude::*;

use crate::client::SOCKClient;
use crate::error::{ErrorView, MerinoError};
use crate::reply::SocksReply;
use crate::session::{Action, ActionView, ClientView, Event, EventView};
#[allow(unused_imports)]
use crate::{error, reply, session};

verus! {

/// How far a connection has come.
#[derive(Clone, Copy, Debug, PartialEq, Eq)]
pub enum Phase {
    /// The session is running.
    Serving,
    /// The session failed; the client is being told why.
    Replying,
    /// The client's stream is being shut down.
    Closing,
    /// The connection is done with.
    Closed,
}

/// A client connection: its session, and what follows when that fails.
///
/// A failed session is answered with an error reply and a shutdown, both of
/// which may fail without consequence.
pub struct ClientRun {
    client: SOCKClient,
    phase: Phase,
    failure: Option<MerinoError>,
}

/// The mathematical content of a [`ClientRun`].
#[verifier::ext_equal]
pub struct RunView {
    pub client: ClientView,
    pub phase: Phase,
    pub failure: Option<ErrorView>,
}

impl View for ClientRun {
    type V = RunView;

    closed spec fn view(&self) -> RunView {
        RunView {
            client: self.client@,
            phase: self.phase,
            failure: match self.failure {
                Some(error) => Some(error@),
                None => None,
            },
        }
    }
}

/// How a connection goes on after its session answered with `action`.
pub open spec fn after_action(run: RunView, client: ClientView, action: ActionView) -> (
    RunView,
    ActionView,
) {
    match action {
        ActionView::Finished(Err(error)) => (
            RunView { client, phase: Phase::Replying, failure: Some(error) },
            ActionView::Write(reply::reply_bytes(error::code_for(error), reply::unspecified())),
        ),
        ActionView::Finished(Ok(_)) => (RunView { client, phase: Phase::Closed, ..run }, action),
        _ => (RunView { client, ..run }, action),
    }
}

/// How a connection starts.
pub open spec fn run_started(run: RunView) -> (RunView, ActionView) {
    let (client, action) = session::started(run.client);
    (RunView { client, phase: Phase::Serving, failure: None }, action)
}

/// How a connection answers an event.
pub open spec fn run_step(run: RunView, event: EventView) -> (RunView, ActionView) {
    let settled = event is Done || event is Failed;
    match run.phase {
        Phase::Serving => {
            let (client, action) = session::step(run.client, event);
            after_action(run, client, action)
        },
        Phase::Replying => if settled {
            (RunView { phase: Phase::Closing, ..run }, ActionView::Shutdown)
        } else {
            (run, ActionView::Ignored)
        },
        Phase::Closing => match run.failure {
            Some(error) => if settled {
                (
                    RunView { phase: Phase::Closed, failure: None, ..run },
                    ActionView::Finished(Err(error)),
                )
            } else {
                (run, ActionView::Ignored)
            },
            None => (run, ActionView::Ignored),
        },
        Phase::Closed => (run, ActionView::Ignored),
    }
}

impl ClientRun {
    /// A connection that has not been started.
    pub fn new(client: SOCKClient) -> (run: ClientRun)
        ensures
            run@ == (RunView { client: client@, phase: Phase::Serving, failure: None }),
    {
        ClientRun { client, phase: Phase::Serving, failure: None }
    }

    /// Start the connection.
    pub fn start(&mut self) -> (next: Action)
        ensures
            (final(self)@, next@) == run_started(old(self)@),
    {
        self.phase = Phase::Serving;
        self.failure = None;
        self.client.init()
    }

    /// The session of this connection.
    pub fn client(&self) -> (client: &SOCKClient)
        ensures
            client@ == self@.client,
    {
        &self.client
    }

    /// Whether the handshake budget applies now.
    pub fn is_negotiating(&self) -> (negotiating: bool)
        ensures
            negotiating == (self@.phase == Phase::Serving && session::negotiating(self@.client)),
    {
        match self.phase {
            Phase::Serving => self.client.is_negotiating(),
            _ => false,
        }
    }

    /// Why the session failed, while the client is told so.
    pub fn failure(&self) -> (failure: Option<&MerinoError>)
        ensures
            match failure {
                Some(error) => self@.failure == Some(error@),
                None => self@.failure is None,
            },
    {
        match &self.failure {
            Some(error) => Some(error),
            None => None,
        }
    }

    /// Answer an event.
    pub fn on_event(&mut self, event: Event) -> (next: Action)
        ensures
            (final(self)@, next@) == run_step(old(self)@, event@),
    {
        match self.phase {
            Phase::Serving => match self.client.on_event(event) {
                Action::Finished(Err(error)) => {
                    let reply = SocksReply::new(error.response_code());
                    self.phase = Phase::Replying;
                    self.failure = Some(error);
                    Action::Write(reply.into_bytes())
                },
                Action::Finished(Ok(received)) => {
                    self.phase = Phase::Closed;
                    Action::Finished(Ok(received))
                },
                action => action,
            },
            Phase::Replying => match event {
                Event::Done | Event::Failed(_) => {
                    self.phase = Phase::Closing;
                    Action::Shutdown
                },
                _ => Action::Ignored,
            },
            Phase::Closing => match event {
                Event::Done | Event::Failed(_) => match self.failure.take() {
                    Some(error) => {
                        self.phase = Phase::Closed;
                        Action::Finished(Err(error))
                    },
                    None => Action::Ignored,
                },
                _ => Action::Ignored,
            },
            Phase::Closed => Action::Ignored,
        }
    }
}

} // verus!
