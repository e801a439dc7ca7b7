use insanity::audio::codec::{AudioCodec, EncodedChunk};
use insanity::audio::AudioFormat;
use insanity::audio::device::AudioDevice;
use insanity::clerver::{
    audio_goes_on, loudness_event, messages_go_on, receive_step, send_step, HubEvent,
    ReceiverStep, SenderStep,
};
use insanity::connection_manager::{
    bind_plan, opening_events, own_key_event, plan_room, read_action, reconnect, ActionError,
    BindPlan, ConnectionManagerBuilder, Effect, InvalidId, PeerRequest, PeerTable, Reconnection,
    RoomPlan,
};
use insanity::identity::snow_public_keys_to_uuid;
use insanity::managed_peer::{
    AppEvent, AugmentedInfo, ConnectingStatus, ConnectionInfo, ConnectionStatus, LoopAction,
    LoopEvent, ManagedPeer, NotRunning, PeerState,
};
use insanity::options::IpVersion;
use insanity::protocol::{AudioFrame, PeerIdentity, ProtocolMessage};
use insanity::user_input_event::{DenoiseSelection, UserInputEvent};

const ID: &str = "00000000-0000-0000-0000-00000000002a";

fn info(key: &str, name: &str) -> AugmentedInfo {
    AugmentedInfo {
        connection_info: ConnectionInfo {
            public_key: key.to_owned(),
            addresses: vec!["10.0.0.1:1".to_owned(), "10.0.0.2:2".to_owned()],
        },
        display_name: name.to_owned(),
    }
}

fn peer() -> ManagedPeer {
    let known = info("key", "Ada [box]");
    ManagedPeer::new(
        42,
        known.connection_info,
        known.display_name,
        DenoiseSelection::Off,
        900,
    )
}

fn table() -> PeerTable {
    let mut table = PeerTable::new();
    table.peers.push(peer());
    table
}

#[test]
fn status_numbers() {
    for status in [
        ConnectionStatus::Disabled,
        ConnectionStatus::Connecting,
        ConnectionStatus::Connected,
    ] {
        assert_eq!(ConnectionStatus::from_u8(status.to_u8()), status);
    }
    assert_eq!(ConnectionStatus::from_u8(7), ConnectionStatus::Disabled);
    assert_eq!(ConnectionStatus::Connected.to_u8(), 2);
}

#[test]
fn peer_settings_are_told() {
    let mut peer = peer();
    assert_eq!(peer.volume, 500);
    assert_eq!(
        peer.set_volume(501),
        AppEvent::SetPeerVolume(ID.to_owned(), 500)
    );
    assert_eq!(
        peer.set_denoise(DenoiseSelection::Nnnoiseless),
        AppEvent::SetPeerDenoise(ID.to_owned(), DenoiseSelection::Nnnoiseless)
    );
    assert!(peer.info().same(&info("key", "Ada [box]")));
    assert!(!peer.info().same(&info("key", "Bob")));
    peer.set_info(info("other", "Bob"));
    assert!(peer.info().same(&info("other", "Bob")));
    assert!(peer.send_message("hi".to_owned(), 0).is_none());
    assert!(matches!(
        peer.send_message("hi".to_owned(), 1),
        Some(ProtocolMessage::ChatMessage(text)) if text == "hi"
    ));
}

#[test]
fn connection_loop_runs_through() {
    let mut peer = peer();
    peer.enable();
    assert_eq!(
        peer.run_connection_loop(LoopEvent::Retry),
        LoopAction::Connect(None)
    );
    assert_eq!(peer.connection_status(), ConnectionStatus::Connecting);
    match peer.run_connection_loop(LoopEvent::Connected("1.2.3.4:5".to_owned())) {
        LoopAction::Subscribe(AppEvent::AddPeer(shown), None) => {
            assert_eq!(shown.id, ID);
            assert_eq!(shown.display_name, Some("Ada [box]".to_owned()));
            assert_eq!(shown.state, PeerState::Connected("1.2.3.4:5".to_owned()));
            assert_eq!(shown.volume, 500);
        }
        other => panic!("unexpected {other:?}"),
    }
    assert_eq!(peer.connection_status(), ConnectionStatus::Connected);
    assert_eq!(peer.audio_endpoint(), None);
    assert_eq!(
        peer.run_connection_loop(LoopEvent::Subscribed(Some(3))),
        LoopAction::Exchange(3)
    );
    assert_eq!(peer.audio_endpoint(), Some(3));
    assert_eq!(
        peer.run_connection_loop(LoopEvent::ExchangeEnded),
        LoopAction::Connect(Some(3))
    );
    assert_eq!(peer.connection_status(), ConnectionStatus::Connecting);
    assert_eq!(peer.audio_endpoint(), None);
    assert_eq!(
        peer.run_connection_loop(LoopEvent::Subscribed(None)),
        LoopAction::Connect(None)
    );
}

#[test]
fn disabling_needs_a_running_connection() {
    let mut peer = peer();
    assert_eq!(peer.disable(), Err(NotRunning(None)));
    peer.run_connection_loop(LoopEvent::Subscribed(Some(7)));
    assert_eq!(peer.disable(), Err(NotRunning(Some(7))));
    assert_eq!(peer.audio_endpoint(), None);
    peer.enable();
    peer.run_connection_loop(LoopEvent::Subscribed(Some(8)));
    match peer.disable() {
        Ok((Some(8), AppEvent::AddPeer(shown))) => {
            assert_eq!(shown.state, PeerState::Disabled);
        }
        other => panic!("unexpected {other:?}"),
    }
    assert!(!peer.running);
    assert_eq!(peer.connection_status(), ConnectionStatus::Disabled);
}

#[test]
fn addresses_are_shown_in_turn() {
    let peer = peer();
    let mut status = ConnectingStatus::new(vec!["a".to_owned(), "b".to_owned()]);
    let mut shown = Vec::new();
    for _ in 0..3 {
        if let Some(AppEvent::AddPeer(peer)) = status.update_app_connecting_status(&peer) {
            if let PeerState::Connecting(address) = peer.state {
                shown.push(address);
            }
        }
    }
    assert_eq!(shown, vec!["a", "b", "a"]);
    let mut nowhere = ConnectingStatus::new(Vec::new());
    assert!(nowhere.update_app_connecting_status(&peer).is_none());
}

#[test]
fn actions_are_read() {
    assert_eq!(
        read_action(UserInputEvent::SetVolume(ID.to_owned(), 7)),
        Ok(PeerRequest::SetVolume(42, 7))
    );
    assert_eq!(
        read_action(UserInputEvent::EnablePeer(ID.to_uppercase())),
        Ok(PeerRequest::Enable(42))
    );
    assert_eq!(
        read_action(UserInputEvent::DisablePeer("nobody".to_owned())),
        Err(InvalidId)
    );
    assert_eq!(
        read_action(UserInputEvent::SetDenoise(
            String::new(),
            DenoiseSelection::Off
        )),
        Err(InvalidId)
    );
    assert_eq!(
        read_action(UserInputEvent::SetMuteSelf(true)),
        Ok(PeerRequest::MuteSelf(true))
    );
}

#[test]
fn user_actions_reach_the_peer() {
    let mut table = table();
    assert_eq!(
        table.handle_user_action(UserInputEvent::SetVolume(ID.to_owned(), 30)),
        Ok(Effect::Notify(AppEvent::SetPeerVolume(ID.to_owned(), 30)))
    );
    assert_eq!(table.peers[0].volume, 30);
    assert_eq!(
        table.handle_user_action(UserInputEvent::SetDenoise(
            ID.to_owned(),
            DenoiseSelection::Nnnoiseless
        )),
        Ok(Effect::Notify(AppEvent::SetPeerDenoise(
            ID.to_owned(),
            DenoiseSelection::Nnnoiseless
        )))
    );
    assert_eq!(
        table.handle_user_action(UserInputEvent::EnablePeer(ID.to_owned())),
        Ok(Effect::Start(42))
    );
    assert!(matches!(
        table.handle_user_action(UserInputEvent::DisablePeer(ID.to_owned())),
        Ok(Effect::Stop(42, None, AppEvent::AddPeer(_)))
    ));
    assert_eq!(
        table.handle_user_action(UserInputEvent::DisablePeer(ID.to_owned())),
        Err(ActionError::NotRunning(None))
    );
    table.peers[0].run_connection_loop(LoopEvent::Subscribed(Some(5)));
    assert_eq!(
        table.handle_user_action(UserInputEvent::DisablePeer(ID.to_owned())),
        Err(ActionError::NotRunning(Some(5)))
    );
    assert_eq!(table.peers[0].audio_endpoint(), None);
    assert_eq!(
        table.handle_user_action(UserInputEvent::SendMessage("hi".to_owned())),
        Ok(Effect::Broadcast("hi".to_owned()))
    );
    assert_eq!(
        table.handle_user_action(UserInputEvent::SetMuteSelf(true)),
        Ok(Effect::Mute(true, AppEvent::MuteSelf(true)))
    );
    assert_eq!(
        table.handle_user_action(UserInputEvent::EnablePeer("x".to_owned())),
        Err(ActionError::InvalidId)
    );
    assert_eq!(
        table.handle_user_action(UserInputEvent::EnablePeer(
            "00000000-0000-0000-0000-000000000001".to_owned()
        )),
        Ok(Effect::Nothing)
    );
}

#[test]
fn both_ends_find_the_same_identifier() {
    let id = snow_public_keys_to_uuid("alpha", "beta");
    assert_eq!(id, snow_public_keys_to_uuid("beta", "alpha"));
    // The first half of the SHA-256 digest of "alphabeta".
    assert_eq!(id, 0xa4c4aeb92c20500f364b12b3771ef3a1_u128);
    assert_ne!(id, snow_public_keys_to_uuid("alpha", "gamma"));
}

#[test]
fn news_of_peers_start_connections() {
    let mut table = PeerTable::new();
    let own = "own".to_owned();
    assert!(table.hear_of(&own, info("own", "me")).is_none());
    assert!(table.peers.is_empty());
    let id = snow_public_keys_to_uuid("own", "key");
    assert_eq!(
        table.hear_of(&own, info("key", "Ada")),
        Some((id, Reconnection::Start))
    );
    assert_eq!(table.find(id), Some(0));
    assert_eq!(table.peers[0].volume, 100);
    assert_eq!(table.peers[0].denoise, DenoiseSelection::Nnnoiseless);
    assert!(table.peers[0].running);
    assert!(table.hear_of(&own, info("key", "Ada")).is_none());
    table.peers[0].run_connection_loop(LoopEvent::Retry);
    table.peers[0].run_connection_loop(LoopEvent::Subscribed(Some(4)));
    assert!(matches!(
        table.hear_of(&own, info("key", "Ada Lovelace")),
        Some((_, Reconnection::Restart(Some(4), AppEvent::AddPeer(_))))
    ));
    assert!(table.peers[0].running);
    assert_eq!(table.peers.len(), 1);
}

#[test]
fn an_update_shows_the_old_peer_and_the_new_one() {
    let mut table = PeerTable::new();
    let first = table.update_peer_info(9, info("key", "Ada")).expect("a new peer");
    assert_eq!(first.index, 0);
    assert!(first.old.is_none());
    assert_eq!(first.updated.id, 9);
    assert_eq!(first.updated.info(), info("key", "Ada"));
    assert_eq!(first.updated.volume, 100);
    table.update_peer_info(10, info("other", "Bob")).expect("another peer");
    assert!(table.update_peer_info(9, info("key", "Ada")).is_none());
    table.peers[0].set_volume(30);
    table.peers[0].enable();
    let second = table.update_peer_info(9, info("key", "Ada Lovelace")).expect("a new name");
    assert_eq!(second.index, 0);
    let old = second.old.expect("a known peer");
    assert_eq!(old.info(), info("key", "Ada"));
    assert_eq!(old.volume, 30);
    assert_eq!(second.updated.info(), info("key", "Ada Lovelace"));
    assert_eq!(second.updated.volume, 30);
    assert!(second.updated.running);
    assert_eq!(table.peers[0].info(), info("key", "Ada Lovelace"));
    assert_eq!(table.peers[1].info(), info("other", "Bob"));
    assert_eq!(table.peers.len(), 2);
}

#[test]
fn a_message_goes_where_anyone_listens() {
    let mut table = PeerTable::new();
    table.update_peer_info(1, info("a", "Ada"));
    table.update_peer_info(2, info("b", "Bob"));
    table.update_peer_info(3, info("c", "Cyd"));
    let sent: Vec<Option<String>> = table
        .deliveries(&"hi".to_owned(), &vec![1, 0, 2])
        .into_iter()
        .map(|message| match message {
            Some(ProtocolMessage::ChatMessage(text)) => Some(text),
            Some(_) => panic!("expected a chat message"),
            None => None,
        })
        .collect();
    assert_eq!(sent, vec![Some("hi".to_owned()), None, Some("hi".to_owned())]);
}

#[test]
fn a_connection_that_cannot_be_stopped_is_left() {
    let mut peer = peer();
    peer.run_connection_loop(LoopEvent::Retry);
    assert_eq!(reconnect(&mut peer), Reconnection::Leave(None));
    assert!(!peer.running);
}

#[test]
fn sockets_are_bound_by_version() {
    assert_eq!(
        bind_plan(IpVersion::Ipv4, 1337),
        BindPlan::Single("0.0.0.0:1337".to_owned())
    );
    assert_eq!(
        bind_plan(IpVersion::Ipv6, 65535),
        BindPlan::Single("[::]:65535".to_owned())
    );
    assert_eq!(
        bind_plan(IpVersion::Dualstack, 0),
        BindPlan::Dual("0.0.0.0:0".to_owned(), "[::]:0".to_owned())
    );
    assert_eq!(
        bind_plan(IpVersion::Dualstack, 1000),
        BindPlan::Dual("0.0.0.0:1000".to_owned(), "[::]:1001".to_owned())
    );
}

#[test]
fn rooms_need_readable_servers() {
    let good = vec!["HTTP://Example.com".to_owned()];
    let bad = vec!["http://a".to_owned(), "no address".to_owned()];
    assert_eq!(plan_room(None, &bad), RoomPlan::Alone);
    assert_eq!(
        plan_room(Some("room".to_owned()), &bad),
        RoomPlan::BadServer
    );
    assert_eq!(
        plan_room(Some("room".to_owned()), &good),
        RoomPlan::Join {
            room: "room".to_owned(),
            servers: vec!["http://example.com/".to_owned()]
        }
    );
}

#[test]
fn own_key_is_shown_in_base64() {
    assert_eq!(
        own_key_event(&[0xfb, 0xff, 0xfe, 0x01]),
        AppEvent::SetOwnPublicKey("-__-AQ==".to_owned())
    );
    assert_eq!(
        opening_events(vec!["s".to_owned()], Some("r".to_owned()), "n".to_owned()),
        vec![
            AppEvent::SetServer(vec!["s".to_owned()]),
            AppEvent::SetRoom("r".to_owned()),
            AppEvent::SetOwnDisplayName("n".to_owned()),
        ]
    );
    assert_eq!(
        opening_events(Vec::new(), None, "n".to_owned()).len(),
        2
    );
}

#[test]
fn builder_collects_settings() {
    let builder: ConnectionManagerBuilder<&str, u8, u16> =
        ConnectionManagerBuilder::new("dir", 5, Vec::new(), IpVersion::Ipv4)
            .room("room".to_owned())
            .display_name("name".to_owned())
            .cancellation_token(1)
            .app_event_sender(2);
    assert_eq!(builder.base_dir, "dir");
    assert_eq!(builder.listen_port, 5);
    assert_eq!(builder.room_name, Some("room".to_owned()));
    assert_eq!(builder.display_name, Some("name".to_owned()));
    assert_eq!(builder.cancellation_token, Some(1));
    assert_eq!(builder.app_event_sender, Some(2));
}

fn frame() -> EncodedChunk {
    EncodedChunk {
        sequence_number: 9,
        codec: AudioCodec::Opus,
        payload: vec![1, 2, 3],
        format: AudioFormat::new(2, 48000),
    }
}

#[test]
fn exchange_steps() {
    assert!(matches!(
        send_step(HubEvent::Frame(frame())),
        SenderStep::Send(ProtocolMessage::Encoded(sent)) if sent == frame()
    ));
    assert!(matches!(send_step(HubEvent::Lagged), SenderStep::GoOn));
    assert!(matches!(send_step(HubEvent::Closed), SenderStep::Stop));
    assert!(audio_goes_on(true, true));
    assert!(!audio_goes_on(false, true));
    assert!(!audio_goes_on(true, false));
    assert!(messages_go_on(false, false));
    assert!(!messages_go_on(true, false));
    let id = ID.to_owned();
    assert!(matches!(
        receive_step(ProtocolMessage::Encoded(frame()), &id),
        ReceiverStep::Push(pushed) if pushed == frame()
    ));
    assert!(matches!(
        receive_step(ProtocolMessage::ChatMessage("hi".to_owned()), &id),
        ReceiverStep::Tell(AppEvent::NewMessage(from, text)) if from == ID && text == "hi"
    ));
    assert!(matches!(
        receive_step(ProtocolMessage::PeerDiscovery(Vec::new()), &id),
        ReceiverStep::Ignore
    ));
    assert!(matches!(
        receive_step(
            ProtocolMessage::IdentityDeclaration(PeerIdentity::new("p".to_owned())),
            &id
        ),
        ReceiverStep::Ignore
    ));
    assert_eq!(
        loudness_event(true, 5, &id),
        Some(AppEvent::Loudness(ID.to_owned(), 5))
    );
    assert_eq!(loudness_event(false, 5, &id), None);
}

#[test]
fn frames_travel_without_their_format() {
    let sent = AudioFrame::from(frame());
    assert_eq!(sent.sequence_number, 9);
    assert_eq!(sent.payload, vec![1, 2, 3]);
    let identity = PeerIdentity::new("peer".to_owned());
    assert_eq!(identity.canonical_name, "peer");
    assert!(identity.display_name.is_none());
    assert!(identity.addresses.is_empty());
}

struct Device(Option<&'static str>);

impl AudioDevice for Device {
    fn try_name(&self) -> Option<String> {
        self.0.map(|name| name.to_owned())
    }
}

#[test]
fn nameless_devices_are_unknown() {
    assert_eq!(Device(Some("mic")).name(), "mic");
    assert_eq!(Device(None).name(), "unknown device");
}

#[test]
fn denoise_selections_cycle() {
    assert_eq!(DenoiseSelection::default(), DenoiseSelection::Nnnoiseless);
    assert_eq!(DenoiseSelection::Off.next(), DenoiseSelection::Nnnoiseless);
    assert_eq!(DenoiseSelection::Nnnoiseless.next(), DenoiseSelection::Off);
}
