use syfala::format::{Format, StreamFormats};
use syfala::message::server::{Connected, Control};
use syfala::message::{AudioMessageHeader, AudioStreamMessageHeader, Error, IOState, Server};
use syfala::peer::{handle_io_state_command, handle_msg, same_formats, IOStateCommand, PeerEntry, PeerState, ServerConsumer};

fn formats(n_outputs: usize) -> StreamFormats {
    StreamFormats { inputs: vec![Format::standard()], outputs: vec![Format::standard(); n_outputs] }
}

fn entry(state: PeerState) -> Option<PeerEntry> {
    Some(PeerEntry { formats: formats(2), state })
}

fn io_result(r: IOState<Result<(), Error>, Result<(), Error>>) -> Server {
    Server::Connected(Connected::Control(Control::IOStateChangeResult(r)))
}

fn audio(stream_idx: u32) -> Server {
    Server::Connected(Connected::Audio(AudioMessageHeader {
        stream_idx,
        stream_msg: AudioStreamMessageHeader { byte_idx: 0, n_bytes: 4 },
    }))
}

#[test]
fn new_server_is_remembered_inactive() {
    let o = handle_msg(None, Server::Connect(formats(1)));
    let e = o.entry.unwrap();
    assert_eq!(e.state, PeerState::Inactive);
    assert_eq!(e.formats.outputs.len(), 1);
    assert!(!o.reconnected);
}

#[test]
fn reconnecting_with_same_formats_keeps_state() {
    let o = handle_msg(entry(PeerState::Active), Server::Connect(formats(2)));
    assert_eq!(o.entry.unwrap().state, PeerState::Active);
    assert!(!o.reconnected);
}

#[test]
fn reconnecting_with_new_formats_starts_over() {
    let o = handle_msg(entry(PeerState::Active), Server::Connect(formats(3)));
    let e = o.entry.unwrap();
    assert_eq!(e.state, PeerState::Inactive);
    assert_eq!(e.formats.outputs.len(), 3);
    assert!(o.reconnected);
}

#[test]
fn start_granted_activates() {
    let o = handle_msg(entry(PeerState::PendingActivation), io_result(IOState::Start(Ok(()))));
    assert_eq!(o.entry.unwrap().state, PeerState::Active);
    assert_eq!(o.confirmation, Some(true));
    assert!(o.activate);
    assert!(!o.unexpected);
}

#[test]
fn start_refused_denies() {
    let o = handle_msg(entry(PeerState::PendingActivation), io_result(IOState::Start(Err(Error::Refusal))));
    assert_eq!(o.entry.unwrap().state, PeerState::Inactive);
    assert_eq!(o.confirmation, Some(false));
    assert!(!o.activate);
}

#[test]
fn unexpected_start_answer() {
    let o = handle_msg(entry(PeerState::Active), io_result(IOState::Start(Ok(()))));
    assert_eq!(o.entry.unwrap().state, PeerState::Inactive);
    assert_eq!(o.confirmation, None);
    assert!(o.unexpected);
}

#[test]
fn stop_answers() {
    let o = handle_msg(entry(PeerState::PendingDeactivation), io_result(IOState::Stop(Ok(()))));
    assert_eq!(o.entry.unwrap().state, PeerState::Inactive);
    assert_eq!(o.confirmation, Some(true));
    let o = handle_msg(entry(PeerState::PendingDeactivation), io_result(IOState::Stop(Err(Error::Failure))));
    assert_eq!(o.confirmation, Some(false));
    let o = handle_msg(entry(PeerState::Active), io_result(IOState::Stop(Ok(()))));
    assert_eq!(o.confirmation, None);
    assert!(!o.unexpected);
    let o = handle_msg(entry(PeerState::Active), io_result(IOState::Stop(Err(Error::Failure))));
    assert!(o.unexpected);
}

#[test]
fn answers_from_unknown_servers_are_ignored() {
    let o = handle_msg(None, io_result(IOState::Start(Ok(()))));
    assert!(o.entry.is_none());
    assert_eq!(o.confirmation, None);
}

#[test]
fn audio_goes_to_existing_streams_while_active() {
    assert_eq!(handle_msg(entry(PeerState::Active), audio(1)).deliver_to, Some(1));
    assert_eq!(handle_msg(entry(PeerState::Active), audio(2)).deliver_to, None);
    assert_eq!(handle_msg(entry(PeerState::Inactive), audio(0)).deliver_to, None);
    assert_eq!(handle_msg(None, audio(0)).deliver_to, None);
}

#[test]
fn disconnect_forgets_the_server() {
    let o = handle_msg(entry(PeerState::Active), Server::Disconnect);
    assert!(o.entry.is_none());
    assert!(o.disconnected);
    let o = handle_msg(None, Server::Disconnect);
    assert!(!o.disconnected);
}

#[test]
fn application_commands() {
    let mut s = PeerState::Inactive;
    assert!(!handle_io_state_command(IOStateCommand::StartIO, &mut s));
    assert_eq!(s, PeerState::PendingActivation);
    let mut s = PeerState::Active;
    assert!(!handle_io_state_command(IOStateCommand::StopIO, &mut s));
    assert_eq!(s, PeerState::PendingDeactivation);
    let mut s = PeerState::Active;
    assert!(handle_io_state_command(IOStateCommand::StartIO, &mut s));
    assert_eq!(s, PeerState::PendingActivation);
}

#[test]
fn format_comparison_and_consumers() {
    assert!(same_formats(&formats(2), &formats(2)));
    assert!(!same_formats(&formats(2), &formats(1)));
    let c = ServerConsumer::new(7u8);
    assert_eq!(c.byte_index, 0);
    assert_eq!(c.consumer, 7);
}
