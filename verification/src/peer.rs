//! A client node's view of each server it knows: the stream formats the
//! server advertised and the state of audio IO with it, and how both change
//! on each message from the server and on each command of the application.
//!
//! The node's loop (receiving, keeping the table of servers, answering the
//! application, sending audio) performs the actions these functions decide.

use vstd::prelude::*;
use crate::format::{Format, StreamFormats};
use crate::message::{AudioMessageHeader, Error, IOState, Server};
use crate::message::server::{Connected, Control};

verus! {

/// A command of the application about a server's audio IO.
#[derive(Clone, Copy, Debug, PartialEq, Eq, Structural)]
pub enum IOStateCommand {
    StartIO,
    StopIO,
}

/// The state of audio IO with a server.
#[derive(Clone, Copy, Debug, PartialEq, Eq, Structural)]
pub enum PeerState {
    /// No IO (also the state a server starts in).
    Inactive,
    /// The application asked to start IO; the server has not answered.
    PendingActivation,
    /// IO runs: one stream per advertised format.
    Active,
    /// The application asked to stop IO; the server has not answered.
    PendingDeactivation,
}

/// What a client node remembers of a server.
#[derive(Clone, Debug)]
pub struct PeerEntry {
    pub formats: StreamFormats,
    pub state: PeerState,
}

/// What follows from a server's message.
#[derive(Clone, Debug)]
pub struct MessageOutcome {
    /// The server's entry afterwards; `None` when the server is not (or no
    /// longer) known.
    pub entry: Option<PeerEntry>,
    /// The application's pending request is answered: `true` when granted.
    pub confirmation: Option<bool>,
    /// The server connected again with other formats: the application is told.
    pub reconnected: bool,
    /// The server left: the application is told.
    pub disconnected: bool,
    /// IO started: the streams of the server's formats are to be created
    /// (when they cannot be, the server goes back to inactive).
    pub activate: bool,
    /// The audio payload goes to this output stream.
    pub deliver_to: Option<u32>,
    /// The server answered a request that was not pending.
    pub unexpected: bool,
}

/// Two lists of formats are equal, element by element.
pub fn same_format_list(a: &Vec<Format>, b: &Vec<Format>) -> (r: bool)
    ensures
        r == (a@ == b@),
{
    if a.len() != b.len() {
        return false;
    }
    let mut i: usize = 0;
    while i < a.len()
        invariant
            a@.len() == b@.len(),
            i <= a@.len(),
            a@.take(i as int) == b@.take(i as int),
        decreases a@.len() - i,
    {
        if a[i] != b[i] {
            assert(a@[i as int] != b@[i as int]);
            return false;
        }
        assert(a@.take(i + 1) =~= a@.take(i as int).push(a@[i as int]));
        assert(b@.take(i + 1) =~= b@.take(i as int).push(b@[i as int]));
        i = i + 1;
    }
    assert(a@ =~= a@.take(i as int));
    assert(b@ =~= b@.take(i as int));
    true
}

/// Two sets of stream formats are equal.
pub fn same_formats(a: &StreamFormats, b: &StreamFormats) -> (r: bool)
    ensures
        r == (a.inputs@ == b.inputs@ && a.outputs@ == b.outputs@),
{
    same_format_list(&a.inputs, &b.inputs) && same_format_list(&a.outputs, &b.outputs)
}

/// An entry, seen through its formats' contents.
pub open spec fn entry_view(e: Option<PeerEntry>) -> Option<(Seq<Format>, Seq<Format>, PeerState)> {
    match e {
        None => None,
        Some(p) => Some((p.formats.inputs@, p.formats.outputs@, p.state)),
    }
}

/// The outcome in which nothing but the entry is set.
pub open spec fn quiet(entry: Option<(Seq<Format>, Seq<Format>, PeerState)>) -> (
    Option<(Seq<Format>, Seq<Format>, PeerState)>,
    Option<bool>,
    bool,
    bool,
    bool,
    Option<u32>,
    bool,
) {
    (entry, None, false, false, false, None, false)
}

/// What follows from server message `msg` for a server whose entry is
/// `entry`, as (entry afterwards, confirmation, reconnected, disconnected,
/// activate, deliver to, unexpected).
///
/// An answer to a start or stop request always leaves the server inactive
/// unless IO starts; it confirms (or denies) the application's request only
/// when that request was pending.
pub open spec fn spec_handle_msg(entry: Option<(Seq<Format>, Seq<Format>, PeerState)>, msg: Server) -> (
    Option<(Seq<Format>, Seq<Format>, PeerState)>,
    Option<bool>,
    bool,
    bool,
    bool,
    Option<u32>,
    bool,
) {
    match msg {
        Server::Connect(f) => match entry {
            None => quiet(Some((f.inputs@, f.outputs@, PeerState::Inactive))),
            Some((i, o, s)) => if i == f.inputs@ && o == f.outputs@ {
                quiet(entry)
            } else {
                (Some((f.inputs@, f.outputs@, PeerState::Inactive)), None, true, false, false, None, false)
            },
        },
        Server::Connected(Connected::Control(Control::IOStateChangeResult(res))) => match entry {
            None => quiet(None),
            Some((i, o, s)) => {
                let pending = match res {
                    IOState::Start(_) => s == PeerState::PendingActivation,
                    IOState::Stop(_) => s == PeerState::PendingDeactivation,
                };
                let granted = match res {
                    IOState::Start(r) => r is Ok,
                    IOState::Stop(r) => r is Ok,
                };
                let activate = pending && granted && res is Start;
                let next = if activate { PeerState::Active } else { PeerState::Inactive };
                (
                    Some((i, o, next)),
                    if pending { Some(granted) } else { None },
                    false,
                    false,
                    activate,
                    None,
                    !pending && !(res is Stop && granted),
                )
            },
        },
        Server::Connected(Connected::Audio(h)) => match entry {
            Some((i, o, PeerState::Active)) => (
                entry,
                None,
                false,
                false,
                false,
                if h.stream_idx < o.len() { Some(h.stream_idx) } else { None },
                false,
            ),
            _ => quiet(entry),
        },
        Server::Disconnect => match entry {
            None => quiet(None),
            Some(_) => (None, None, false, true, false, None, false),
        },
    }
}

/// The outcome, seen through its entry's formats' contents.
pub open spec fn outcome_view(o: MessageOutcome) -> (
    Option<(Seq<Format>, Seq<Format>, PeerState)>,
    Option<bool>,
    bool,
    bool,
    bool,
    Option<u32>,
    bool,
) {
    (entry_view(o.entry), o.confirmation, o.reconnected, o.disconnected, o.activate, o.deliver_to, o.unexpected)
}

fn quiet_outcome(entry: Option<PeerEntry>) -> (r: MessageOutcome)
    ensures
        outcome_view(r) == quiet(entry_view(entry)),
{
    MessageOutcome {
        entry,
        confirmation: None,
        reconnected: false,
        disconnected: false,
        activate: false,
        deliver_to: None,
        unexpected: false,
    }
}

/// Decides what a message from a server changes: `entry` is what the node
/// knows of the server (`None` when it does not know it).
pub fn handle_msg(entry: Option<PeerEntry>, msg: Server) -> (r: MessageOutcome)
    ensures
        outcome_view(r) == spec_handle_msg(entry_view(entry), msg),
{
    match msg {
        Server::Connect(f) => match entry {
            None => quiet_outcome(Some(PeerEntry { formats: f, state: PeerState::Inactive })),
            Some(p) => {
                if same_formats(&p.formats, &f) {
                    quiet_outcome(Some(p))
                } else {
                    MessageOutcome {
                        entry: Some(PeerEntry { formats: f, state: PeerState::Inactive }),
                        confirmation: None,
                        reconnected: true,
                        disconnected: false,
                        activate: false,
                        deliver_to: None,
                        unexpected: false,
                    }
                }
            },
        },
        Server::Connected(Connected::Control(Control::IOStateChangeResult(res))) => match entry {
            None => quiet_outcome(None),
            Some(p) => {
                let (pending, granted, starting) = match res {
                    IOState::Start(r) => (p.state == PeerState::PendingActivation, r.is_ok(), true),
                    IOState::Stop(r) => (p.state == PeerState::PendingDeactivation, r.is_ok(), false),
                };
                let activate = pending && granted && starting;
                let next = if activate { PeerState::Active } else { PeerState::Inactive };
                MessageOutcome {
                    entry: Some(PeerEntry { formats: p.formats, state: next }),
                    confirmation: if pending { Some(granted) } else { None },
                    reconnected: false,
                    disconnected: false,
                    activate,
                    deliver_to: None,
                    unexpected: !pending && !(!starting && granted),
                }
            },
        },
        Server::Connected(Connected::Audio(h)) => match entry {
            Some(p) => {
                if p.state == PeerState::Active {
                    let deliver = if (h.stream_idx as usize) < p.formats.outputs.len() {
                        Some(h.stream_idx)
                    } else {
                        None
                    };
                    MessageOutcome {
                        entry: Some(p),
                        confirmation: None,
                        reconnected: false,
                        disconnected: false,
                        activate: false,
                        deliver_to: deliver,
                        unexpected: false,
                    }
                } else {
                    quiet_outcome(Some(p))
                }
            },
            None => quiet_outcome(None),
        },
        Server::Disconnect => match entry {
            None => quiet_outcome(None),
            Some(_) => MessageOutcome {
                entry: None,
                confirmation: None,
                reconnected: false,
                disconnected: true,
                activate: false,
                deliver_to: None,
                unexpected: false,
            },
        },
    }
}

/// The state a command of the application puts a server in, and whether the
/// command comes at an unexpected time (starting IO that is not inactive,
/// stopping IO that is not active).
pub open spec fn spec_io_state_command(cmd: IOStateCommand, state: PeerState) -> (PeerState, bool) {
    match cmd {
        IOStateCommand::StartIO => (PeerState::PendingActivation, state != PeerState::Inactive),
        IOStateCommand::StopIO => (PeerState::PendingDeactivation, state != PeerState::Active),
    }
}

/// Applies a command of the application to a server's state; returns
/// whether the command came at an unexpected time. The command's
/// confirmation is kept by the caller until the server answers.
pub fn handle_io_state_command(cmd: IOStateCommand, state: &mut PeerState) -> (unexpected: bool)
    ensures
        (*final(state), unexpected) == spec_io_state_command(cmd, *old(state)),
{
    match cmd {
        IOStateCommand::StartIO => {
            let unexpected = *state != PeerState::Inactive;
            *state = PeerState::PendingActivation;
            unexpected
        },
        IOStateCommand::StopIO => {
            let unexpected = *state != PeerState::Active;
            *state = PeerState::PendingDeactivation;
            unexpected
        },
    }
}

/// A request to start IO that the server grants makes IO run, and a
/// request to stop it that the server grants makes it stop; either answer
/// confirms the request. A refusal leaves IO stopped and denies it.
pub proof fn lemma_request_then_answer(i: Seq<Format>, o: Seq<Format>, s: PeerState, cmd: IOStateCommand, granted: bool)
    ensures
        ({
            let (pending, _) = spec_io_state_command(cmd, s);
            let res: Result<(), Error> = if granted { Ok(()) } else { Err(Error::Failure) };
            let answer = match cmd {
                IOStateCommand::StartIO => IOState::Start(res),
                IOStateCommand::StopIO => IOState::Stop(res),
            };
            let out = spec_handle_msg(
                Some((i, o, pending)),
                Server::Connected(Connected::Control(Control::IOStateChangeResult(answer))),
            );
            &&& out.0 == Some((i, o, if granted && cmd == IOStateCommand::StartIO {
                PeerState::Active
            } else {
                PeerState::Inactive
            }))
            &&& out.1 == Some(granted)
            &&& out.4 == (granted && cmd == IOStateCommand::StartIO)
            &&& !out.6
        }),
{
}

/// A server that connects again with the same formats keeps its state; with
/// other formats it starts over, inactive.
pub proof fn lemma_reconnect(i: Seq<Format>, o: Seq<Format>, s: PeerState, f: StreamFormats)
    ensures
        ({
            let out = spec_handle_msg(Some((i, o, s)), Server::Connect(f));
            &&& (i == f.inputs@ && o == f.outputs@) ==> out.0 == Some((i, o, s)) && !out.2
            &&& !(i == f.inputs@ && o == f.outputs@) ==> out.0 == Some((f.inputs@, f.outputs@, PeerState::Inactive)) && out.2
        }),
{
}

/// Audio reaches a stream only while IO is active, and only a stream that
/// exists.
pub proof fn lemma_audio_only_when_active(e: Option<(Seq<Format>, Seq<Format>, PeerState)>, h: AudioMessageHeader)
    ensures
        ({
            let out = spec_handle_msg(e, Server::Connected(Connected::Audio(h)));
            &&& out.0 == e
            &&& out.5 matches Some(k) ==> (e matches Some((i, o, s)) && s == PeerState::Active && k < o.len() && k == h.stream_idx)
        }),
{
}

/// The stream of audio data coming from a server, and the byte index of the
/// next byte expected on it.
pub struct ServerConsumer<P> {
    pub byte_index: u64,
    pub consumer: P,
}

impl<P> ServerConsumer<P> {
    /// A consumer expecting the stream's first byte.
    pub fn new(consumer: P) -> (r: ServerConsumer<P>)
        ensures
            r.byte_index == 0,
            r.consumer == consumer,
    {
        ServerConsumer { consumer, byte_index: 0 }
    }
}

} // verus!
