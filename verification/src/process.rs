//! Serving the requests of many callers, one at a time.
//!
//! Callers queue requests; a runtime takes them from the queue in turn and
//! runs each to its end before it takes the next. The queue and the waiting
//! are the caller's: this module holds the requests, the commands that each
//! stands for, and the decisions of the loop that serves them.

use crate::command::Command;
use crate::credentials::Credentials;
use crate::device::{credentials_commands, credentials_plan, subband2_commands, subband2_plan, Reply};
use crate::error::Error as LoraE5Error;
use crate::types::{Mode, Region, DR};
use vstd::prelude::*;
use vstd::string::*;

verus! {

/// What a caller may ask of the runtime.
#[derive(Debug, Clone, PartialEq, Eq)]
pub enum Request {
    /// Write a line to the modem and wait this many milliseconds for its answer.
    At(String, u64),
    /// Join the network; the flag forces a new session.
    Join(bool),
    /// Set the modem up for joining with these credentials.
    Configure(Credentials),
    /// Set the data rate.
    DataRate(DR),
    /// Ask for the identifier of the device.
    GetDevEui,
    /// Ask for the identifier of the application.
    GetAppEui,
    /// End the runtime.
    Shutdown,
    /// Send bytes on a port; the flag asks for confirmation.
    SendData(Vec<u8>, u8, bool),
    /// Send text on a port; the flag asks for confirmation.
    SendAscii(String, u8, bool),
}

/// Why the runtime, or a call of a client, failed.
#[derive(Debug, Clone, PartialEq, Eq)]
pub enum Error {
    /// The operation on the modem failed.
    LoraE5(LoraE5Error),
    /// The task that ran the operation did not come to its end.
    Join,
    /// The request could not be queued: the runtime has ended.
    RequestSendError,
    /// The reply did not come: the runtime has ended.
    ResponseReceiveError,
    /// The reply could not be handed over: the caller has gone.
    ResponseSendError,
}

impl Request {
    /// The commands that the request stands for, in the order in which they run.
    ///
    /// Configuring sets the mode to over-the-air activation and the region
    /// to US915, sets the credentials, and restricts the modem to the second
    /// sub-band. An uplink sets the port first.
    pub open spec fn plan(self) -> Seq<Command> {
        match self {
            Request::At(line, timeout_ms) => seq![Command::Raw(line, timeout_ms)],
            Request::Join(force) => if force {
                seq![Command::ForceJoin]
            } else {
                seq![Command::Join]
            },
            Request::Configure(credentials) => seq![
                Command::Mode(Mode::Otaa),
                Command::Region(Region::Us915),
            ] + credentials_plan(credentials) + subband2_plan(),
            Request::DataRate(dr) => seq![Command::DataRate(dr)],
            Request::GetDevEui => seq![Command::GetDevEui],
            Request::GetAppEui => seq![Command::GetAppEui],
            Request::Shutdown => Seq::empty(),
            Request::SendData(data, port, confirmed) => seq![
                Command::Port(port),
                Command::MsgHex(data, confirmed),
            ],
            Request::SendAscii(text, port, confirmed) => seq![
                Command::Port(port),
                Command::Msg(text, confirmed),
            ],
        }
    }

    /// The commands that the request stands for, in the order in which they run.
    pub fn script(self) -> (r: Vec<Command>)
        ensures
            r@ == self.plan(),
    {
        let mut plan: Vec<Command> = Vec::new();
        match self {
            Request::At(line, timeout_ms) => {
                plan.push(Command::Raw(line, timeout_ms));
            },
            Request::Join(force) => {
                plan.push(
                    if force {
                        Command::ForceJoin
                    } else {
                        Command::Join
                    },
                );
            },
            Request::Configure(credentials) => {
                plan.push(Command::Mode(Mode::Otaa));
                plan.push(Command::Region(Region::Us915));
                let mut set = credentials_commands(&credentials);
                plan.append(&mut set);
                let mut restrict = subband2_commands();
                plan.append(&mut restrict);
            },
            Request::DataRate(dr) => {
                plan.push(Command::DataRate(dr));
            },
            Request::GetDevEui => {
                plan.push(Command::GetDevEui);
            },
            Request::GetAppEui => {
                plan.push(Command::GetAppEui);
            },
            Request::Shutdown => {},
            Request::SendData(data, port, confirmed) => {
                plan.push(Command::Port(port));
                plan.push(Command::MsgHex(data, confirmed));
            },
            Request::SendAscii(text, port, confirmed) => {
                plan.push(Command::Port(port));
                plan.push(Command::Msg(text, confirmed));
            },
        }
        assert(plan@ =~= self.plan());
        plan
    }
}

/// The requests that a client makes.
pub struct Client;

impl Client {
    /// The request to write the line `cmd` and to wait `timeout_ms`
    /// milliseconds for its answer. The line is queued as it is given: the
    /// line feed that ends a command is added when the command is written.
    pub fn at_command(cmd: &str, timeout_ms: u64) -> (r: Request)
        ensures
            r matches Request::At(line, wait) && line@ == cmd@ && wait == timeout_ms,
    {
        Request::At(cmd.to_owned(), timeout_ms)
    }

    /// The request to join the network.
    pub fn join(force: bool) -> (r: Request)
        ensures
            r == Request::Join(force),
    {
        Request::Join(force)
    }

    /// The request to set the data rate.
    pub fn data_rate(dr: DR) -> (r: Request)
        ensures
            r == Request::DataRate(dr),
    {
        Request::DataRate(dr)
    }

    /// The request for the identifier of the device.
    pub fn get_dev_eui() -> (r: Request)
        ensures
            r == Request::GetDevEui,
    {
        Request::GetDevEui
    }

    /// The request for the identifier of the application.
    pub fn get_app_eui() -> (r: Request)
        ensures
            r == Request::GetAppEui,
    {
        Request::GetAppEui
    }

    /// The request to set the modem up with credentials.
    pub fn configure(credentials: Credentials) -> (r: Request)
        ensures
            r == Request::Configure(credentials),
    {
        Request::Configure(credentials)
    }

    /// The request to send bytes.
    pub fn send(data: Vec<u8>, port: u8, confirmed: bool) -> (r: Request)
        ensures
            r == Request::SendData(data, port, confirmed),
    {
        Request::SendData(data, port, confirmed)
    }

    /// The request to send text.
    pub fn send_ascii(data: String, port: u8, confirmed: bool) -> (r: Request)
        ensures
            r == Request::SendAscii(data, port, confirmed),
    {
        Request::SendAscii(data, port, confirmed)
    }

    /// The request to end the runtime.
    pub fn send_shutdown() -> (r: Request)
        ensures
            r == Request::Shutdown,
    {
        Request::Shutdown
    }
}

/// The making of a runtime and of its clients: it holds the number of
/// requests that the queue between them takes.
pub struct Setup {
    capacity: usize,
}

impl Setup {
    /// The number of requests that the queue takes.
    pub closed spec fn queue_capacity(&self) -> usize {
        self.capacity
    }

    /// A setup with a queue of `C` requests.
    pub fn new<const C: usize>() -> (r: Self)
        ensures
            r.queue_capacity() == C,
    {
        Setup { capacity: C }
    }

    /// The number of requests that the queue takes.
    pub fn capacity(&self) -> (r: usize)
        ensures
            r == self.queue_capacity(),
    {
        self.capacity
    }

    /// A client of the runtime that is being set up.
    pub fn get_client(&self) -> Client {
        Client
    }

    /// The runtime: it runs, and serves nothing yet.
    pub fn complete(self) -> (r: Runtime)
        ensures
            r.state() == State::Running,
            !r.busy(),
    {
        Runtime::new()
    }
}

impl Default for Setup {
    /// A setup with a queue of 32 requests.
    fn default() -> (r: Self)
        ensures
            r.queue_capacity() == 32,
    {
        Setup::new::<32>()
    }
}

/// The commands of one request as they are run: in order, up to the first
/// that fails.
pub struct Sequence {
    plan: Vec<Command>,
    next: usize,
}

impl Sequence {
    #[verifier::type_invariant]
    spec fn within(&self) -> bool {
        self.next <= self.plan@.len()
    }

    /// The commands of the sequence.
    pub closed spec fn commands(&self) -> Seq<Command> {
        self.plan@
    }

    /// The number of commands that are done with.
    pub closed spec fn done(&self) -> int {
        self.next as int
    }

    /// A sequence of which no command has run.
    pub fn new(plan: Vec<Command>) -> (r: Self)
        ensures
            r.commands() == plan@,
            r.done() == 0,
    {
        Sequence { plan, next: 0 }
    }

    /// The command to run now, if one is left.
    pub fn current(&self) -> (r: Option<&Command>)
        ensures
            0 <= self.done() <= self.commands().len(),
            match r {
                Some(command) => self.done() < self.commands().len() && *command
                    == self.commands()[self.done()],
                None => self.done() == self.commands().len(),
            },
    {
        proof {
            use_type_invariant(self);
        }
        if self.next < self.plan.len() {
            Some(&self.plan[self.next])
        } else {
            None
        }
    }

    /// Takes the outcome of the command that ran, and returns the result of
    /// the whole sequence once it is known.
    ///
    /// An error ends the sequence, and is its result: no command behind it
    /// runs. The reply to the last command is the result of a sequence in
    /// which every command went well. In between there is no result yet.
    pub fn advance(&mut self, outcome: Result<Reply, LoraE5Error>) -> (r: Option<Result<Reply, LoraE5Error>>)
        ensures
            final(self).commands() == old(self).commands(),
            match outcome {
                Err(e) => r == Some(Err::<Reply, LoraE5Error>(e)) && final(self).done() == old(
                    self,
                ).commands().len(),
                Ok(reply) => if old(self).done() + 1 < old(self).commands().len() {
                    r is None && final(self).done() == old(self).done() + 1
                } else {
                    r == Some(Ok::<Reply, LoraE5Error>(reply)) && final(self).done() == old(
                        self,
                    ).commands().len()
                },
            },
    {
        proof {
            use_type_invariant(&*self);
        }
        match outcome {
            Err(e) => {
                self.next = self.plan.len();
                Some(Err(e))
            },
            Ok(reply) => {
                if self.plan.len() >= 2 && self.next < self.plan.len() - 1 {
                    self.next = self.next + 1;
                    None
                } else {
                    self.next = self.plan.len();
                    Some(Ok(reply))
                }
            },
        }
    }
}

/// Whether a runtime serves requests.
#[derive(Debug, Clone, Copy, PartialEq, Eq, Structural)]
pub enum State {
    /// The runtime takes requests and serves them.
    Running,
    /// The runtime has ended. It serves nothing any more.
    Terminated,
}

/// What the loop of the runtime does with what it has taken from the queue.
#[derive(Debug, Clone, Copy, PartialEq, Eq, Structural)]
pub enum Action {
    /// Run the request to its end, then take the next.
    Serve,
    /// End the loop.
    Stop,
    /// A request is still being served: this one is not taken.
    Busy,
}

/// The request ends the runtime.
pub open spec fn ends_runtime(request: Request) -> bool {
    request is Shutdown
}

/// What a runtime in the given state does with what the queue hands it: a
/// request, or `None` where every client has gone. The result is the state
/// it is in then, whether it is serving a request then, and what the loop
/// has to do.
///
/// A runtime that has ended stops, whatever comes. One that is serving a
/// request takes no other. Else the end of the queue and the request to shut
/// down end the runtime, and any other request is served.
pub open spec fn accepted(state: State, busy: bool, received: Option<Request>) -> (State, bool, Action) {
    match state {
        State::Terminated => (State::Terminated, busy, Action::Stop),
        State::Running => if busy {
            (State::Running, true, Action::Busy)
        } else {
            match received {
                None => (State::Terminated, false, Action::Stop),
                Some(request) => if ends_runtime(request) {
                    (State::Terminated, false, Action::Stop)
                } else {
                    (State::Running, true, Action::Serve)
                },
            }
        },
    }
}

/// The requests that a runtime serves of those that the queue hands it in
/// the given order, where it starts in the given state, serves nothing at
/// the start, and runs each request to its end before it takes the next.
pub open spec fn served(state: State, received: Seq<Option<Request>>) -> Seq<Request>
    decreases received.len(),
{
    if received.len() == 0 {
        Seq::empty()
    } else {
        let (then, _, action) = accepted(state, false, received[0]);
        let rest = served(then, received.subrange(1, received.len() as int));
        if action == Action::Serve {
            seq![received[0]->0] + rest
        } else {
            rest
        }
    }
}

/// The number of requests at the beginning of `received` that come before
/// the first request to shut down and before the end of the queue.
pub open spec fn open_run(received: Seq<Option<Request>>) -> int
    decreases received.len(),
{
    if received.len() == 0 {
        0
    } else {
        match received[0] {
            Some(request) => if ends_runtime(request) {
                0
            } else {
                1 + open_run(received.subrange(1, received.len() as int))
            },
            None => 0,
        }
    }
}

/// A runtime that has ended serves nothing, whatever is queued.
pub proof fn lemma_terminated_serves_nothing(received: Seq<Option<Request>>)
    ensures
        served(State::Terminated, received) == Seq::<Request>::empty(),
    decreases received.len(),
{
    if received.len() > 0 {
        lemma_terminated_serves_nothing(received.subrange(1, received.len() as int));
    }
}

/// A running runtime serves the requests in the order in which the queue
/// hands them over, each once, up to the first request to shut down or the
/// end of the queue, and nothing that comes behind that.
pub proof fn lemma_served_in_order(received: Seq<Option<Request>>)
    ensures
        0 <= open_run(received) <= received.len(),
        served(State::Running, received).len() == open_run(received),
        forall|i: int|
            0 <= i < open_run(received) ==> received[i] == Some(
                #[trigger] served(State::Running, received)[i],
            ),
        open_run(received) < received.len() ==> (received[open_run(received)] matches Some(request)
            ==> ends_runtime(request)),
    decreases received.len(),
{
    if received.len() > 0 {
        let rest = received.subrange(1, received.len() as int);
        let (then, _, action) = accepted(State::Running, false, received[0]);
        if action == Action::Serve {
            lemma_served_in_order(rest);
            let all = served(State::Running, received);
            assert(all == seq![received[0]->0] + served(State::Running, rest));
            assert forall|i: int| 0 <= i < open_run(received) implies received[i] == Some(
                #[trigger] all[i],
            ) by {
                if i > 0 {
                    assert(all[i] == served(State::Running, rest)[i - 1]);
                    assert(rest[i - 1] == received[i]);
                }
            }
            if open_run(received) < received.len() {
                assert(rest[open_run(rest)] == received[open_run(received)]);
            }
        } else {
            lemma_terminated_serves_nothing(rest);
        }
    }
}

/// The loop that serves requests, as far as it decides anything.
pub struct Runtime {
    state: State,
    busy: bool,
}

impl Runtime {
    /// Whether the runtime serves requests.
    pub closed spec fn state(&self) -> State {
        self.state
    }

    /// Whether the runtime is serving a request.
    pub closed spec fn busy(&self) -> bool {
        self.busy
    }

    /// A runtime that runs and serves nothing yet.
    pub fn new() -> (r: Self)
        ensures
            r.state() == State::Running,
            !r.busy(),
    {
        Runtime { state: State::Running, busy: false }
    }

    /// Tells whether the runtime has ended.
    pub fn is_terminated(&self) -> (r: bool)
        ensures
            r == (self.state() == State::Terminated),
    {
        self.state == State::Terminated
    }

    /// Tells whether the runtime is serving a request.
    pub fn is_busy(&self) -> (r: bool)
        ensures
            r == self.busy(),
    {
        self.busy
    }

    /// Takes what the queue has handed over, a request or `None` where
    /// every client has gone, and says what the loop has to do.
    pub fn accept(&mut self, received: Option<&Request>) -> (r: Action)
        ensures
            (final(self).state(), final(self).busy(), r) == accepted(
                old(self).state(),
                old(self).busy(),
                match received {
                    Some(request) => Some(*request),
                    None => None,
                },
            ),
    {
        match self.state {
            State::Terminated => Action::Stop,
            State::Running => {
                if self.busy {
                    return Action::Busy;
                }
                let stop = match received {
                    None => true,
                    Some(Request::Shutdown) => true,
                    Some(_) => false,
                };
                if stop {
                    self.state = State::Terminated;
                    Action::Stop
                } else {
                    self.busy = true;
                    Action::Serve
                }
            },
        }
    }

    /// Takes note that the request that was being served has run to its end,
    /// and whether its reply could be handed to the caller. A reply that
    /// could not is reported; the runtime goes on all the same.
    pub fn finished(&mut self, delivered: bool) -> (r: Option<Error>)
        ensures
            final(self).state() == old(self).state(),
            !final(self).busy(),
            r == if old(self).busy() && !delivered {
                Some(Error::ResponseSendError)
            } else {
                None
            },
    {
        let report = if self.busy && !delivered {
            Some(Error::ResponseSendError)
        } else {
            None
        };
        self.busy = false;
        report
    }
}

} // verus!
