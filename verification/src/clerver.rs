//! The exchange with one peer, which is both a client and a server.
use crate::audio::codec::EncodedChunk;
use crate::managed_peer::AppEvent;
use crate::protocol::ProtocolMessage;
use vstd::prelude::*;

verus! {

/// What comes from the own input.
#[derive(Debug)]
pub enum HubEvent {
    Frame(EncodedChunk),
    /// Frames were missed; the peer sees that from the numbers.
    Lagged,
    Closed,
}

/// What a sender does next.
#[derive(Debug)]
pub enum SenderStep {
    Send(ProtocolMessage),
    GoOn,
    Stop,
}

/// What is sent for an event of the own input.
pub fn send_step(event: HubEvent) -> (step: SenderStep)
    ensures
        step == match event {
            HubEvent::Frame(frame) => SenderStep::Send(ProtocolMessage::Encoded(frame)),
            HubEvent::Lagged => SenderStep::GoOn,
            HubEvent::Closed => SenderStep::Stop,
        },
{
    match event {
        HubEvent::Frame(frame) => SenderStep::Send(ProtocolMessage::Encoded(frame)),
        HubEvent::Lagged => SenderStep::GoOn,
        HubEvent::Closed => SenderStep::Stop,
    }
}

/// Whether audio is sent on, after one frame could be written and sent or not.
pub fn audio_goes_on(written: bool, sent: bool) -> (on: bool)
    ensures
        on == (written && sent),
{
    written && sent
}

/// Whether messages are sent on, after one could be written and sent or not. One that could not
/// be written is left out.
pub fn messages_go_on(written: bool, sent: bool) -> (on: bool)
    ensures
        on == (!written || sent),
{
    !written || sent
}

/// What is done about a message of the peer.
#[derive(Debug)]
pub enum ReceiverStep {
    /// Pass a frame on to the mixer.
    Push(EncodedChunk),
    /// Tell the user interface.
    Tell(AppEvent),
    Ignore,
}

/// What is done about a message of the peer `peer_id`.
pub fn receive_step(message: ProtocolMessage, peer_id: &String) -> (step: ReceiverStep)
    ensures
        match message {
            ProtocolMessage::Encoded(frame) => step == ReceiverStep::Push(frame),
            ProtocolMessage::ChatMessage(chat_message) => step == ReceiverStep::Tell(
                AppEvent::NewMessage(*peer_id, chat_message),
            ),
            _ => step == ReceiverStep::Ignore,
        },
{
    match message {
        ProtocolMessage::Encoded(frame) => ReceiverStep::Push(frame),
        ProtocolMessage::ChatMessage(chat_message) => ReceiverStep::Tell(
            AppEvent::NewMessage(peer_id.clone(), chat_message),
        ),
        _ => ReceiverStep::Ignore,
    }
}

/// What the user interface is told once a frame was passed on: how loud the peer is.
pub fn loudness_event(pushed: bool, level: u64, peer_id: &String) -> (event: Option<AppEvent>)
    ensures
        event == (if pushed {
            Some(AppEvent::Loudness(*peer_id, level))
        } else {
            None
        }),
{
    if pushed {
        Some(AppEvent::Loudness(peer_id.clone(), level))
    } else {
        None
    }
}

} // verus!
