//! All peers: who they are, and what the user and the network ask for.
use crate::audio::owner::NO_SLOT;
use crate::identity::{self, key_text, parse_servers, parse_uuid, snow_public_keys_to_uuid};
use crate::managed_peer::{
    self, AppEvent, AugmentedInfo, ConnectionStatus, ManagedPeer, NotRunning,
};
use crate::options::IpVersion;
use crate::protocol::ProtocolMessage;
use crate::text::{self, push_decimal};
use crate::user_input_event::{DenoiseSelection, UserInputEvent};
use vstd::prelude::*;
use vstd::string::StringExecFns;

verus! {

/// Where the private key stands in the database.
pub const DB_KEY_PRIVATE_KEY: &'static str = "private_key";

/// What a connection manager is started with. `P` is a place on disk, `C` what cancels it, and
/// `S` where events for the user interface go.
pub struct ConnectionManagerBuilder<P, C, S> {
    pub base_dir: P,
    pub listen_port: u16,
    pub bridge_servers: Vec<String>,
    pub ip_version: IpVersion,
    pub room_name: Option<String>,
    pub display_name: Option<String>,
    pub cancellation_token: Option<C>,
    pub app_event_sender: Option<S>,
}

impl<P, C, S> ConnectionManagerBuilder<P, C, S> {
    pub fn new(base_dir: P, listen_port: u16, bridge_servers: Vec<String>, ip_version: IpVersion) -> (
    builder: Self)
        ensures
            builder == (ConnectionManagerBuilder::<P, C, S> {
                base_dir,
                listen_port,
                bridge_servers,
                ip_version,
                room_name: None,
                display_name: None,
                cancellation_token: None,
                app_event_sender: None,
            }),
    {
        ConnectionManagerBuilder {
            base_dir,
            listen_port,
            bridge_servers,
            ip_version,
            room_name: None,
            display_name: None,
            cancellation_token: None,
            app_event_sender: None,
        }
    }

    pub fn room(self, room_name: String) -> (builder: Self)
        ensures
            builder == (ConnectionManagerBuilder { room_name: Some(room_name), ..self }),
    {
        ConnectionManagerBuilder { room_name: Some(room_name), ..self }
    }

    pub fn display_name(self, display_name: String) -> (builder: Self)
        ensures
            builder == (ConnectionManagerBuilder { display_name: Some(display_name), ..self }),
    {
        ConnectionManagerBuilder { display_name: Some(display_name), ..self }
    }

    pub fn cancellation_token(self, cancellation_token: C) -> (builder: Self)
        ensures
            builder == (ConnectionManagerBuilder {
                cancellation_token: Some(cancellation_token),
                ..self
            }),
    {
        ConnectionManagerBuilder { cancellation_token: Some(cancellation_token), ..self }
    }

    pub fn app_event_sender(self, app_event_sender: S) -> (builder: Self)
        ensures
            builder == (ConnectionManagerBuilder {
                app_event_sender: Some(app_event_sender),
                ..self
            }),
    {
        ConnectionManagerBuilder { app_event_sender: Some(app_event_sender), ..self }
    }
}

/// The addresses that the local socket is bound to.
#[derive(Debug, PartialEq)]
pub enum BindPlan {
    Single(String),
    Dual(String, String),
}

/// Every IPv4 address of this machine, at a port.
pub open spec fn any_v4(port: u16) -> Seq<char> {
    "0.0.0.0:"@ + text::decimal(port as nat)
}

/// Every IPv6 address of this machine, at a port.
pub open spec fn any_v6(port: u16) -> Seq<char> {
    "[::]:"@ + text::decimal(port as nat)
}

/// The IPv6 port beside an IPv4 port: the next one, unless the system is to choose.
pub open spec fn beside(port: u16) -> u16 {
    if port == 0 {
        0
    } else {
        (port + 1) as u16
    }
}

/// Where the local socket is bound.
pub fn bind_plan(ip_version: IpVersion, listen_port: u16) -> (plan: BindPlan)
    requires
        ip_version == IpVersion::Dualstack ==> listen_port < u16::MAX,
    ensures
        match ip_version {
            IpVersion::Ipv4 => plan matches BindPlan::Single(address) && address@ == any_v4(
                listen_port,
            ),
            IpVersion::Ipv6 => plan matches BindPlan::Single(address) && address@ == any_v6(
                listen_port,
            ),
            IpVersion::Dualstack => plan matches BindPlan::Dual(v4, v6) && v4@ == any_v4(
                listen_port,
            ) && v6@ == any_v6(beside(listen_port)),
        },
{
    let mut v4: String = "0.0.0.0:".to_owned();
    push_decimal(&mut v4, listen_port as u64);
    let mut v6: String = "[::]:".to_owned();
    match ip_version {
        IpVersion::Ipv4 => BindPlan::Single(v4),
        IpVersion::Ipv6 => {
            push_decimal(&mut v6, listen_port as u64);
            BindPlan::Single(v6)
        },
        IpVersion::Dualstack => {
            let v6_port: u16 = if listen_port == 0 {
                0
            } else {
                listen_port + 1
            };
            push_decimal(&mut v6, v6_port as u64);
            BindPlan::Dual(v4, v6)
        },
    }
}

/// What is done about a room.
#[derive(Debug, PartialEq)]
pub enum RoomPlan {
    /// No room was named.
    Alone,
    /// An address of a server cannot be read.
    BadServer,
    /// The room is joined through servers.
    Join { room: String, servers: Vec<String> },
}

/// Decides what is done about a room, on servers at given addresses.
pub fn plan_room(room_name: Option<String>, bridge_servers: &Vec<String>) -> (plan: RoomPlan)
    ensures
        match room_name {
            None => plan == RoomPlan::Alone,
            Some(name) => match plan {
                RoomPlan::Alone => false,
                RoomPlan::BadServer => exists|i: int|
                    0 <= i < bridge_servers@.len() && identity::url_parsed(
                        (#[trigger] bridge_servers@[i])@,
                    ) is None,
                RoomPlan::Join { room, servers } => room == name && servers@.len()
                    == bridge_servers@.len() && forall|i: int|
                    0 <= i < bridge_servers@.len() ==> identity::url_parsed(
                        (#[trigger] bridge_servers@[i])@,
                    ) == Some(servers@[i]@),
            },
        },
{
    match room_name {
        None => RoomPlan::Alone,
        Some(room) => match parse_servers(bridge_servers) {
            Some(servers) => RoomPlan::Join { room, servers },
            None => RoomPlan::BadServer,
        },
    }
}

/// What the user interface is told of the user's own key.
pub fn own_key_event(public_key: &[u8]) -> (event: AppEvent)
    requires
        4 * ((public_key@.len() + 2) / 3) <= isize::MAX,
    ensures
        event matches AppEvent::SetOwnPublicKey(key) && key@ == identity::base64_url(public_key@),
{
    AppEvent::SetOwnPublicKey(key_text(public_key))
}

/// What the user interface is told at the start.
pub fn opening_events(bridge: Vec<String>, room: Option<String>, display_name: String) -> (events:
    Vec<AppEvent>)
    ensures
        events@ == match room {
            Some(room) => seq![
                AppEvent::SetServer(bridge),
                AppEvent::SetRoom(room),
                AppEvent::SetOwnDisplayName(display_name),
            ],
            None => seq![
                AppEvent::SetServer(bridge),
                AppEvent::SetOwnDisplayName(display_name),
            ],
        },
{
    let mut events: Vec<AppEvent> = Vec::new();
    events.push(AppEvent::SetServer(bridge));
    if let Some(room) = room {
        events.push(AppEvent::SetRoom(room));
    }
    events.push(AppEvent::SetOwnDisplayName(display_name));
    events
}

/// What a user asks for, with the peer it is about.
#[derive(Debug, PartialEq)]
pub enum PeerRequest {
    SetDenoise(u128, DenoiseSelection),
    SetVolume(u128, usize),
    Disable(u128),
    Enable(u128),
    Send(String),
    MuteSelf(bool),
}

/// A text that was given for a peer is no identifier.
#[derive(Debug, Clone, Copy, PartialEq, Eq)]
pub struct InvalidId;

/// `request` is what `action` asks for, once the identifier in it has been read.
pub open spec fn asks_for(action: UserInputEvent, request: Result<PeerRequest, InvalidId>) -> bool {
    match action {
        UserInputEvent::DisablePeer(text) => request == (match identity::uuid_parsed(text@) {
            Some(id) => Ok::<PeerRequest, InvalidId>(PeerRequest::Disable(id)),
            None => Err(InvalidId),
        }),
        UserInputEvent::EnablePeer(text) => request == (match identity::uuid_parsed(text@) {
            Some(id) => Ok::<PeerRequest, InvalidId>(PeerRequest::Enable(id)),
            None => Err(InvalidId),
        }),
        UserInputEvent::SetDenoise(text, denoise) => request == (match identity::uuid_parsed(
            text@,
        ) {
            Some(id) => Ok::<PeerRequest, InvalidId>(PeerRequest::SetDenoise(id, denoise)),
            None => Err(InvalidId),
        }),
        UserInputEvent::SetVolume(text, volume) => request == (match identity::uuid_parsed(text@) {
            Some(id) => Ok::<PeerRequest, InvalidId>(PeerRequest::SetVolume(id, volume)),
            None => Err(InvalidId),
        }),
        UserInputEvent::SendMessage(message) => request == Ok::<PeerRequest, InvalidId>(
            PeerRequest::Send(message),
        ),
        UserInputEvent::SetMuteSelf(muted) => request == Ok::<PeerRequest, InvalidId>(
            PeerRequest::MuteSelf(muted),
        ),
    }
}

/// Reads the identifier in what a user asks for.
pub fn read_action(action: UserInputEvent) -> (request: Result<PeerRequest, InvalidId>)
    ensures
        asks_for(action, request),
{
    match action {
        UserInputEvent::DisablePeer(text) => match parse_uuid(text.as_str()) {
            Some(id) => Ok(PeerRequest::Disable(id)),
            None => Err(InvalidId),
        },
        UserInputEvent::EnablePeer(text) => match parse_uuid(text.as_str()) {
            Some(id) => Ok(PeerRequest::Enable(id)),
            None => Err(InvalidId),
        },
        UserInputEvent::SetDenoise(text, denoise) => match parse_uuid(text.as_str()) {
            Some(id) => Ok(PeerRequest::SetDenoise(id, denoise)),
            None => Err(InvalidId),
        },
        UserInputEvent::SetVolume(text, volume) => match parse_uuid(text.as_str()) {
            Some(id) => Ok(PeerRequest::SetVolume(id, volume)),
            None => Err(InvalidId),
        },
        UserInputEvent::SendMessage(message) => Ok(PeerRequest::Send(message)),
        UserInputEvent::SetMuteSelf(muted) => Ok(PeerRequest::MuteSelf(muted)),
    }
}

/// Why what a user asks for cannot be done.
#[derive(Debug, Clone, Copy, PartialEq, Eq)]
pub enum ActionError {
    /// A text that was given for a peer is no identifier.
    InvalidId,
    /// A peer was to be disabled, but no connection to it was being kept up. Its slot, if there
    /// is one, is to be handed back all the same.
    NotRunning(Option<u32>),
}

/// What is to be done for a request.
#[derive(Debug, PartialEq)]
pub enum Effect {
    Nothing,
    /// Tell the user interface.
    Notify(AppEvent),
    /// Hand a slot back, if there is one, stop the connection, and tell the user interface.
    Stop(u128, Option<u32>, AppEvent),
    /// Keep a connection up.
    Start(u128),
    /// Send a message to every peer.
    Broadcast(String),
    /// Mute, and tell the user interface.
    Mute(bool, AppEvent),
}

/// The peers, each under its identifier.
pub struct PeerTable {
    pub peers: Vec<ManagedPeer>,
}

/// Whether there is a peer with this identifier.
pub open spec fn has_peer(peers: Seq<ManagedPeer>, id: u128) -> bool {
    exists|i: int| 0 <= i < peers.len() && (#[trigger] peers[i]).id == id
}

/// `after` is `before` with peer `i` changed.
pub open spec fn one_changed(before: Seq<ManagedPeer>, i: int, after: Seq<ManagedPeer>) -> bool {
    &&& 0 <= i < before.len()
    &&& after == before.update(i, after[i])
    &&& after[i].id == before[i].id
}

/// What is to be done once a peer has been disabled, or could not be.
pub open spec fn stopped(
    id: u128,
    outcome: Result<(Option<u32>, AppEvent), NotRunning>,
) -> Result<Effect, NotRunning> {
    match outcome {
        Ok((slot, event)) => Ok(Effect::Stop(id, slot, event)),
        Err(not_running) => Err(not_running),
    }
}

/// What a user is answered to a request that has been met, or could not be.
pub open spec fn reported(met: Result<Effect, NotRunning>) -> Result<Effect, ActionError> {
    match met {
        Ok(effect) => Ok(effect),
        Err(NotRunning(slot)) => Err(ActionError::NotRunning(slot)),
    }
}

impl PeerTable {
    /// No identifier stands twice.
    pub open spec fn wf(&self) -> bool {
        forall|i: int, j: int|
            0 <= i < j < self.peers@.len() ==> (#[trigger] self.peers@[i]).id != (
            #[trigger] self.peers@[j]).id
    }

    pub fn new() -> (table: Self)
        ensures
            table.wf(),
            table.peers@.len() == 0,
    {
        PeerTable { peers: Vec::new() }
    }

    pub fn find(&self, id: u128) -> (index: Option<usize>)
        ensures
            match index {
                Some(i) => i < self.peers@.len() && self.peers@[i as int].id == id,
                None => !has_peer(self.peers@, id),
            },
    {
        let mut i: usize = 0;
        while i < self.peers.len()
            invariant
                i <= self.peers@.len(),
                forall|k: int| 0 <= k < i ==> (#[trigger] self.peers@[k]).id != id,
            decreases self.peers@.len() - i,
        {
            if self.peers[i].id == id {
                return Some(i);
            }
            i += 1;
        }
        None
    }

    /// What is sent to every peer, in the order of the table, for a message to all of them:
    /// nothing where no one listens.
    pub fn deliveries(&self, message: &String, listeners: &Vec<usize>) -> (sent: Vec<
        Option<ProtocolMessage>,
    >)
        requires
            listeners@.len() == self.peers@.len(),
        ensures
            sent@.len() == self.peers@.len(),
            forall|i: int|
                0 <= i < sent@.len() ==> match #[trigger] sent@[i] {
                    Some(ProtocolMessage::ChatMessage(text)) => listeners@[i] > 0 && text@
                        == message@,
                    Some(_) => false,
                    None => listeners@[i] == 0,
                },
    {
        let mut sent: Vec<Option<ProtocolMessage>> = Vec::new();
        let mut i: usize = 0;
        while i < self.peers.len()
            invariant
                i <= self.peers@.len() == listeners@.len(),
                sent@.len() == i,
                forall|k: int|
                    0 <= k < i ==> match #[trigger] sent@[k] {
                        Some(ProtocolMessage::ChatMessage(text)) => listeners@[k] > 0 && text@
                            == message@,
                        Some(_) => false,
                        None => listeners@[k] == 0,
                    },
            decreases self.peers@.len() - i,
        {
            sent.push(self.peers[i].send_message(message.clone(), listeners[i]));
            i += 1;
        }
        sent
    }

    /// `effect` and `after` are what becomes of a request. One about a peer that is not known
    /// changes nothing. The only one that can fail is to disable a peer to which no connection is
    /// being kept up.
    pub open spec fn meets(
        self,
        request: PeerRequest,
        after: Self,
        effect: Result<Effect, NotRunning>,
    ) -> bool {
        let (before, peers) = (self.peers@, after.peers@);
        match request {
            PeerRequest::SetDenoise(id, denoise) => if has_peer(before, id) {
                exists|i: int| #[trigger]
                    one_changed(before, i, peers) && before[i].id == id && peers[i] == (
                    ManagedPeer { denoise, ..before[i] }) && (effect matches Ok(
                        Effect::Notify(AppEvent::SetPeerDenoise(text, selection)),
                    ) && text@ == identity::uuid_shown(id) && selection == denoise)
            } else {
                peers == before && effect == Ok::<Effect, NotRunning>(Effect::Nothing)
            },
            PeerRequest::SetVolume(id, volume) => if has_peer(before, id) {
                exists|i: int| #[trigger]
                    one_changed(before, i, peers) && before[i].id == id && peers[i] == (
                    ManagedPeer {
                        volume: managed_peer::bounded_volume(volume),
                        ..before[i]
                    }) && (effect matches Ok(Effect::Notify(AppEvent::SetPeerVolume(text, now)))
                        && text@ == identity::uuid_shown(id) && now
                        == managed_peer::bounded_volume(volume))
            } else {
                peers == before && effect == Ok::<Effect, NotRunning>(Effect::Nothing)
            },
            PeerRequest::Disable(id) => if has_peer(before, id) {
                exists|i: int, outcome: Result<(Option<u32>, AppEvent), NotRunning>|
                    #![trigger one_changed(before, i, peers), stopped(id, outcome)]
                    one_changed(before, i, peers) && before[i].id == id && managed_peer::stops(
                        before[i],
                        peers[i],
                        outcome,
                    ) && effect == stopped(id, outcome)
            } else {
                peers == before && effect == Ok::<Effect, NotRunning>(Effect::Nothing)
            },
            PeerRequest::Enable(id) => if has_peer(before, id) {
                exists|i: int| #[trigger]
                    one_changed(before, i, peers) && before[i].id == id && peers[i] == (
                    ManagedPeer { running: true, ..before[i] }) && effect == Ok::<
                        Effect,
                        NotRunning,
                    >(Effect::Start(id))
            } else {
                peers == before && effect == Ok::<Effect, NotRunning>(Effect::Nothing)
            },
            PeerRequest::Send(message) => peers == before && effect == Ok::<Effect, NotRunning>(
                Effect::Broadcast(message),
            ),
            PeerRequest::MuteSelf(muted) => peers == before && effect == Ok::<Effect, NotRunning>(
                Effect::Mute(muted, AppEvent::MuteSelf(muted)),
            ),
        }
    }

    /// Meets a request.
    pub fn meet(&mut self, request: PeerRequest) -> (effect: Result<Effect, NotRunning>)
        requires
            old(self).wf(),
        ensures
            final(self).wf(),
            old(self).meets(request, *final(self), effect),
    {
        match request {
            PeerRequest::SetDenoise(id, denoise) => match self.find(id) {
                Some(i) => {
                    let event: AppEvent = self.peers[i].set_denoise(denoise);
                    proof {
                        assert(one_changed(old(self).peers@, i as int, self.peers@));
                    }
                    Ok(Effect::Notify(event))
                },
                None => Ok(Effect::Nothing),
            },
            PeerRequest::SetVolume(id, volume) => match self.find(id) {
                Some(i) => {
                    let event: AppEvent = self.peers[i].set_volume(volume);
                    proof {
                        assert(one_changed(old(self).peers@, i as int, self.peers@));
                    }
                    Ok(Effect::Notify(event))
                },
                None => Ok(Effect::Nothing),
            },
            PeerRequest::Disable(id) => match self.find(id) {
                Some(i) => {
                    let outcome: Result<(Option<u32>, AppEvent), NotRunning> =
                        self.peers[i].disable();
                    let ghost told = outcome;
                    let effect: Result<Effect, NotRunning> = match outcome {
                        Ok((slot, event)) => Ok(Effect::Stop(id, slot, event)),
                        Err(not_running) => Err(not_running),
                    };
                    proof {
                        assert(one_changed(old(self).peers@, i as int, self.peers@));
                        assert(effect == stopped(id, told));
                    }
                    effect
                },
                None => Ok(Effect::Nothing),
            },
            PeerRequest::Enable(id) => match self.find(id) {
                Some(i) => {
                    self.peers[i].enable();
                    proof {
                        assert(one_changed(old(self).peers@, i as int, self.peers@));
                    }
                    Ok(Effect::Start(id))
                },
                None => Ok(Effect::Nothing),
            },
            PeerRequest::Send(message) => Ok(Effect::Broadcast(message)),
            PeerRequest::MuteSelf(muted) => Ok(Effect::Mute(muted, AppEvent::MuteSelf(muted))),
        }
    }

    /// Meets what a user asks for. Where the peer's identifier cannot be read, nothing changes.
    pub fn handle_user_action(&mut self, user_action: UserInputEvent) -> (effect: Result<
        Effect,
        ActionError,
    >)
        requires
            old(self).wf(),
        ensures
            final(self).wf(),
            exists|request: Result<PeerRequest, InvalidId>| #[trigger]
                asks_for(user_action, request) && match request {
                    Ok(request) => exists|met: Result<Effect, NotRunning>| #[trigger]
                        old(self).meets(request, *final(self), met) && effect == reported(met),
                    Err(_) => effect == Err::<Effect, ActionError>(ActionError::InvalidId)
                        && final(self).peers@ == old(self).peers@,
                },
    {
        let request: Result<PeerRequest, InvalidId> = read_action(user_action);
        proof {
            assert(asks_for(user_action, request));
        }
        match request {
            Ok(request) => {
                let ghost asked = request;
                let met: Result<Effect, NotRunning> = self.meet(request);
                proof {
                    assert(old(self).meets(asked, *self, met));
                }
                match met {
                    Ok(effect) => Ok(effect),
                    Err(NotRunning(slot)) => Err(ActionError::NotRunning(slot)),
                }
            },
            Err(_) => Err(ActionError::InvalidId),
        }
    }
}

/// What a new connection needs of an old one.
#[derive(Debug, PartialEq)]
pub enum Reconnection {
    /// No connection is kept up: start one.
    Start,
    /// Hand the slot back, if there is one, tell the user interface, and start anew.
    Restart(Option<u32>, AppEvent),
    /// The old connection could not be stopped: leave it, but hand the slot back, if there is
    /// one.
    Leave(Option<u32>),
}

/// What starting a peer's connection anew does to it.
pub open spec fn reconnected(
    before: ManagedPeer,
    after: ManagedPeer,
    reconnection: Reconnection,
) -> bool {
    if before.connection_status == ConnectionStatus::Disabled {
        &&& reconnection == Reconnection::Start
        &&& after == (ManagedPeer { running: true, ..before })
    } else {
        exists|
            stopped: ManagedPeer,
            outcome: Result<(Option<u32>, AppEvent), NotRunning>,
        | #[trigger]
            managed_peer::stops(before, stopped, outcome) && match outcome {
                Ok((slot, event)) => reconnection == Reconnection::Restart(slot, event) && after
                    == (ManagedPeer { running: true, ..stopped }),
                Err(NotRunning(slot)) => reconnection == Reconnection::Leave(slot) && after
                    == stopped,
            }
    }
}

/// Starts a peer's connection anew.
pub fn reconnect(peer: &mut ManagedPeer) -> (reconnection: Reconnection)
    ensures
        reconnected(*old(peer), *final(peer), reconnection),
        final(peer).id == old(peer).id,
{
    match peer.connection_status() {
        ConnectionStatus::Disabled => {
            peer.enable();
            Reconnection::Start
        },
        ConnectionStatus::Connecting | ConnectionStatus::Connected => {
            let outcome: Result<(Option<u32>, AppEvent), NotRunning> = peer.disable();
            proof {
                assert(managed_peer::stops(*old(peer), *peer, outcome));
            }
            match outcome {
                Ok((slot, event)) => {
                    peer.enable();
                    Reconnection::Restart(slot, event)
                },
                Err(NotRunning(slot)) => Reconnection::Leave(slot),
            }
        },
    }
}

/// A reconnected peer has a connection that is kept up and no slot left over, unless the old
/// connection could not be stopped.
pub proof fn reconnection_starts_clean(
    before: ManagedPeer,
    stopped: ManagedPeer,
    outcome: Result<(Option<u32>, AppEvent), NotRunning>,
)
    requires
        managed_peer::stops(before, stopped, outcome),
    ensures
        stopped.slot == NO_SLOT,
        before.slot != NO_SLOT ==> match outcome {
            Ok((slot, _)) => slot == Some(before.slot),
            Err(NotRunning(slot)) => slot == Some(before.slot),
        },
        outcome is Ok <==> before.running,
        stopped.keeps(before),
{
}

/// A peer of which something new has become known: where it stands, what it was, unless it is
/// new itself, and what it is now.
#[derive(Debug)]
pub struct PeerUpdate {
    pub index: usize,
    pub old: Option<ManagedPeer>,
    pub updated: ManagedPeer,
}

/// What follows once a table has learned of a peer.
pub open spec fn follows_up(
    learned: PeerTable,
    updated: Option<PeerUpdate>,
    id: u128,
    after: PeerTable,
    heard: Option<(u128, Reconnection)>,
) -> bool {
    match (updated, heard) {
        (None, None) => after.peers@ == learned.peers@,
        (Some(update), Some((whom, reconnection))) => {
            let i = update.index as int;
            &&& whom == id
            &&& one_changed(learned.peers@, i, after.peers@)
            &&& reconnected(learned.peers@[i], after.peers@[i], reconnection)
        },
        _ => false,
    }
}

impl PeerTable {
    /// `after` is the table once `info` has come in for a peer, and `updated` that peer, as it was
    /// and as it is, if anything is new.
    pub open spec fn learns(
        self,
        id: u128,
        info: AugmentedInfo,
        after: Self,
        updated: Option<PeerUpdate>,
    ) -> bool {
        let (before, peers) = (self.peers@, after.peers@);
        if has_peer(before, id) {
            exists|i: int|
                0 <= i < before.len() && (#[trigger] before[i]).id == id && if (
                before[i].connection_info@, before[i].display_name@) == info@ {
                    updated is None && peers == before
                } else {
                    &&& updated matches Some(update)
                    &&& update.index == i
                    &&& update.old == Some(before[i])
                    &&& update.updated.copies(peers[i])
                    &&& peers == before.update(
                        i,
                        ManagedPeer {
                            connection_info: info.connection_info,
                            display_name: info.display_name,
                            ..before[i]
                        },
                    )
                }
        } else {
            &&& updated matches Some(update)
            &&& update.index == before.len()
            &&& update.old is None
            &&& update.updated.copies(peers[before.len() as int])
            &&& peers == before.push(
                ManagedPeer {
                    id,
                    connection_info: info.connection_info,
                    display_name: info.display_name,
                    connection_status: ConnectionStatus::Disabled,
                    denoise: DenoiseSelection::Nnnoiseless,
                    volume: 100,
                    slot: NO_SLOT,
                    running: false,
                },
            )
        }
    }

    /// Takes in what has become known of a peer. The peer as it was and as it is now, or `None`
    /// where nothing is new.
    pub fn update_peer_info(&mut self, id: u128, new_info: AugmentedInfo) -> (updated: Option<
        PeerUpdate,
    >)
        requires
            old(self).wf(),
        ensures
            final(self).wf(),
            old(self).learns(id, new_info, *final(self), updated),
            updated matches Some(update) ==> update.index < final(self).peers@.len()
                && final(self).peers@[update.index as int].id == id,
    {
        match self.find(id) {
            Some(i) => {
                proof {
                    assert(old(self).peers@[i as int].id == id);
                }
                let known: AugmentedInfo = self.peers[i].info();
                if known.same(&new_info) {
                    None
                } else {
                    let mut peer: ManagedPeer = self.peers[i].copy();
                    peer.set_info(new_info);
                    let updated: ManagedPeer = peer.copy();
                    std::mem::swap(&mut peer, &mut self.peers[i]);
                    Some(PeerUpdate { index: i, old: Some(peer), updated })
                }
            },
            None => {
                let index: usize = self.peers.len();
                let peer: ManagedPeer = ManagedPeer::new(
                    id,
                    new_info.connection_info,
                    new_info.display_name,
                    DenoiseSelection::Nnnoiseless,
                    100,
                );
                let updated: ManagedPeer = peer.copy();
                self.peers.push(peer);
                Some(PeerUpdate { index, old: None, updated })
            },
        }
    }

    /// `after` is the table once `info` has come in for a peer whose connection is started anew
    /// where anything is new: `heard` tells for whom, and what that takes.
    pub open spec fn hears(
        self,
        id: u128,
        info: AugmentedInfo,
        after: Self,
        heard: Option<(u128, Reconnection)>,
    ) -> bool {
        exists|learned: PeerTable, updated: Option<PeerUpdate>| #[trigger]
            self.learns(id, info, learned, updated) && #[trigger] follows_up(
                learned,
                updated,
                id,
                after,
                heard,
            )
    }

    /// Takes in what the network has told of a peer, and starts its connection anew where that is
    /// new. What it tells of this machine's own key is passed over.
    pub fn hear_of(&mut self, own_key: &String, info: AugmentedInfo) -> (heard: Option<
        (u128, Reconnection),
    >)
        requires
            old(self).wf(),
        ensures
            final(self).wf(),
            if own_key@ == info.connection_info.public_key@ {
                heard is None && final(self).peers@ == old(self).peers@
            } else {
                old(self).hears(
                    identity::common_id(
                        vstd::utf8::encode_utf8(own_key@),
                        vstd::utf8::encode_utf8(info.connection_info.public_key@),
                    ) as u128,
                    info,
                    *final(self),
                    heard,
                )
            },
    {
        if *own_key == info.connection_info.public_key {
            return None;
        }
        let id: u128 = snow_public_keys_to_uuid(
            own_key.as_str(),
            info.connection_info.public_key.as_str(),
        );
        let updated: Option<PeerUpdate> = self.update_peer_info(id, info);
        let ghost learned = *self;
        let heard: Option<(u128, Reconnection)> = match &updated {
            None => None,
            Some(update) => {
                let i: usize = update.index;
                let reconnection: Reconnection = reconnect(&mut self.peers[i]);
                proof {
                    assert(one_changed(learned.peers@, i as int, self.peers@));
                }
                Some((id, reconnection))
            },
        };
        proof {
            assert(old(self).learns(id, info, learned, updated));
            assert(follows_up(learned, updated, id, *self, heard));
        }
        heard
    }
}

/// Hearing something new of a known peer shows the peer as it was and as it is now: only what was
/// heard differs, and no other peer is touched.
pub proof fn update_shows_old_and_new(
    table: PeerTable,
    id: u128,
    info: AugmentedInfo,
    after: PeerTable,
    updated: Option<PeerUpdate>,
    i: int,
)
    requires
        table.wf(),
        0 <= i < table.peers@.len(),
        table.peers@[i].id == id,
        (table.peers@[i].connection_info@, table.peers@[i].display_name@) != info@,
        table.learns(id, info, after, updated),
    ensures
        updated matches Some(update) && update.index == i && update.old == Some(table.peers@[i])
            && update.updated.copies(
            ManagedPeer {
                connection_info: info.connection_info,
                display_name: info.display_name,
                ..table.peers@[i]
            },
        ),
        after.peers@.len() == table.peers@.len(),
        forall|k: int|
            0 <= k < table.peers@.len() && k != i ==> #[trigger] after.peers@[k]
                == table.peers@[k],
{
    assert(has_peer(table.peers@, id));
    assert forall|k: int|
        0 <= k < table.peers@.len() && (#[trigger] table.peers@[k]).id == id implies k == i by {
        if k < i {
            assert(table.peers@[k].id != table.peers@[i].id);
        } else if i < k {
            assert(table.peers@[i].id != table.peers@[k].id);
        }
    }
}

/// Hearing the same of a peer again changes nothing.
pub proof fn known_peer_is_left_alone(
    table: PeerTable,
    id: u128,
    info: AugmentedInfo,
    after: PeerTable,
    updated: Option<PeerUpdate>,
    i: int,
)
    requires
        table.wf(),
        0 <= i < table.peers@.len(),
        table.peers@[i].id == id,
        (table.peers@[i].connection_info@, table.peers@[i].display_name@) == info@,
        table.learns(id, info, after, updated),
    ensures
        updated is None,
        after.peers@ == table.peers@,
{
    assert(has_peer(table.peers@, id));
    assert forall|k: int|
        0 <= k < table.peers@.len() && (#[trigger] table.peers@[k]).id == id implies k == i by {
        if k < i {
            assert(table.peers@[k].id != table.peers@[i].id);
        } else if i < k {
            assert(table.peers@[i].id != table.peers@[k].id);
        }
    }
}

} // verus!
