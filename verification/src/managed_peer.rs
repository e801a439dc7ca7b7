//! One peer: what is known of it, and how its connection goes.
use crate::audio::owner::NO_SLOT;
use crate::audio::params::MAX_VOLUME;
use crate::identity::{self, show_uuid};
use crate::protocol::ProtocolMessage;
use crate::user_input_event::DenoiseSelection;
use vstd::prelude::*;

verus! {

#[derive(Clone, Copy, Debug, PartialEq, Eq, Structural)]
pub enum ConnectionStatus {
    Disabled,
    Connecting,
    Connected,
}

impl ConnectionStatus {
    pub open spec fn spec_from_u8(value: u8) -> Self {
        if value == 1 {
            ConnectionStatus::Connecting
        } else if value == 2 {
            ConnectionStatus::Connected
        } else {
            ConnectionStatus::Disabled
        }
    }

    pub open spec fn spec_to_u8(self) -> u8 {
        match self {
            ConnectionStatus::Disabled => 0,
            ConnectionStatus::Connecting => 1,
            ConnectionStatus::Connected => 2,
        }
    }

    /// The status that a number stands for. One that stands for none counts as disabled.
    pub fn from_u8(value: u8) -> (status: Self)
        ensures
            status == Self::spec_from_u8(value),
    {
        match value {
            1 => ConnectionStatus::Connecting,
            2 => ConnectionStatus::Connected,
            _ => ConnectionStatus::Disabled,
        }
    }

    pub fn to_u8(self) -> (value: u8)
        ensures
            value == self.spec_to_u8(),
    {
        match self {
            ConnectionStatus::Disabled => 0,
            ConnectionStatus::Connecting => 1,
            ConnectionStatus::Connected => 2,
        }
    }
}

/// A status comes back from its number.
pub proof fn status_comes_back(status: ConnectionStatus)
    ensures
        ConnectionStatus::spec_from_u8(status.spec_to_u8()) == status,
{
}

/// A peer's public key, and where it can be reached.
#[derive(Debug, PartialEq)]
pub struct ConnectionInfo {
    pub public_key: String,
    pub addresses: Vec<String>,
}

/// What is known of a peer.
#[derive(Debug, PartialEq)]
pub struct AugmentedInfo {
    pub connection_info: ConnectionInfo,
    pub display_name: String,
}

/// Texts, as values.
pub open spec fn texts(list: Seq<String>) -> Seq<Seq<char>> {
    Seq::new(list.len(), |i: int| list[i]@)
}

impl View for ConnectionInfo {
    type V = (Seq<char>, Seq<Seq<char>>);

    open spec fn view(&self) -> (Seq<char>, Seq<Seq<char>>) {
        (self.public_key@, texts(self.addresses@))
    }
}

impl View for AugmentedInfo {
    type V = ((Seq<char>, Seq<Seq<char>>), Seq<char>);

    open spec fn view(&self) -> ((Seq<char>, Seq<Seq<char>>), Seq<char>) {
        (self.connection_info@, self.display_name@)
    }
}

fn copy_texts(list: &Vec<String>) -> (copy: Vec<String>)
    ensures
        texts(copy@) == texts(list@),
{
    let mut copy: Vec<String> = Vec::new();
    let mut i: usize = 0;
    while i < list.len()
        invariant
            i <= list@.len(),
            copy@.len() == i,
            forall|k: int| 0 <= k < i ==> (#[trigger] copy@[k])@ == list@[k]@,
        decreases list@.len() - i,
    {
        copy.push(list[i].clone());
        i += 1;
    }
    proof {
        assert(texts(copy@) =~= texts(list@));
    }
    copy
}

fn same_texts(a: &Vec<String>, b: &Vec<String>) -> (same: bool)
    ensures
        same == (texts(a@) == texts(b@)),
{
    if a.len() != b.len() {
        proof {
            assert(texts(a@).len() != texts(b@).len());
        }
        return false;
    }
    let mut i: usize = 0;
    while i < a.len()
        invariant
            i <= a@.len() == b@.len(),
            forall|k: int| 0 <= k < i ==> (#[trigger] a@[k])@ == b@[k]@,
        decreases a@.len() - i,
    {
        if a[i] != b[i] {
            proof {
                assert(texts(a@)[i as int] != texts(b@)[i as int]);
            }
            return false;
        }
        i += 1;
    }
    proof {
        assert(texts(a@) =~= texts(b@));
    }
    true
}

impl ConnectionInfo {
    pub fn copy(&self) -> (copy: Self)
        ensures
            copy@ == self@,
    {
        ConnectionInfo {
            public_key: self.public_key.clone(),
            addresses: copy_texts(&self.addresses),
        }
    }
}

impl AugmentedInfo {
    pub fn same(&self, other: &Self) -> (same: bool)
        ensures
            same == (self@ == other@),
    {
        self.connection_info.public_key == other.connection_info.public_key && self.display_name
            == other.display_name && same_texts(
            &self.connection_info.addresses,
            &other.connection_info.addresses,
        )
    }
}

/// How a peer is shown.
#[derive(Debug, PartialEq)]
pub enum PeerState {
    Disabled,
    Connecting(String),
    Connected(String),
}

/// A peer, as it is shown.
#[derive(Debug, PartialEq)]
pub struct Peer {
    pub id: String,
    pub display_name: Option<String>,
    pub state: PeerState,
    pub denoise: DenoiseSelection,
    pub volume: usize,
}

/// What the user interface is told.
#[derive(Debug, PartialEq)]
pub enum AppEvent {
    AddPeer(Peer),
    SetPeerDenoise(String, DenoiseSelection),
    SetPeerVolume(String, usize),
    MuteSelf(bool),
    Loudness(String, u64),
    NewMessage(String, String),
    SetOwnPublicKey(String),
    SetServer(Vec<String>),
    SetRoom(String),
    SetOwnDisplayName(String),
}

/// A peer, and how far the connection to it is.
#[derive(Debug)]
pub struct ManagedPeer {
    pub id: u128,
    pub connection_info: ConnectionInfo,
    pub display_name: String,
    pub connection_status: ConnectionStatus,
    pub denoise: DenoiseSelection,
    pub volume: usize,
    /// Its number in the mixer, or `NO_SLOT`.
    pub slot: u32,
    /// Whether a connection to it is being kept up.
    pub running: bool,
}

/// What is lost of a volume above the maximum.
pub open spec fn bounded_volume(volume: usize) -> usize {
    if volume < MAX_VOLUME {
        volume
    } else {
        MAX_VOLUME
    }
}

/// The slot to give up, if there is one.
pub open spec fn held_slot(slot: u32) -> Option<u32> {
    if slot == NO_SLOT {
        None
    } else {
        Some(slot)
    }
}

/// No connection to a peer was being kept up when it was to be given up. The slot that the peer
/// had all the same is handed back.
#[derive(Debug, Clone, Copy, PartialEq, Eq)]
pub struct NotRunning(pub Option<u32>);

/// What disabling a peer does to it: the connection is given up, and with it the slot. Where none
/// was being kept up only the slot is, and that is an error.
pub open spec fn stops(
    before: ManagedPeer,
    after: ManagedPeer,
    outcome: Result<(Option<u32>, AppEvent), NotRunning>,
) -> bool {
    if before.running {
        &&& after == (ManagedPeer {
            slot: NO_SLOT,
            running: false,
            connection_status: ConnectionStatus::Disabled,
            ..before
        })
        &&& outcome matches Ok((slot, AppEvent::AddPeer(peer)))
        &&& slot == held_slot(before.slot)
        &&& before.shows(peer)
        &&& peer.state == PeerState::Disabled
    } else {
        &&& after == (ManagedPeer { slot: NO_SLOT, ..before })
        &&& outcome == Err::<(Option<u32>, AppEvent), NotRunning>(
            NotRunning(held_slot(before.slot)),
        )
    }
}

impl ManagedPeer {
    /// `peer` shows `self`, but for its state.
    pub open spec fn shows(&self, peer: Peer) -> bool {
        &&& peer.id@ == identity::uuid_shown(self.id)
        &&& peer.display_name matches Some(name) && name@ == self.display_name@
        &&& peer.denoise == self.denoise
        &&& peer.volume == self.volume
    }

    /// Who the peer is, and how it is heard, is as in `other`.
    pub open spec fn keeps(&self, other: Self) -> bool {
        &&& self.id == other.id
        &&& self.connection_info == other.connection_info
        &&& self.display_name == other.display_name
        &&& self.denoise == other.denoise
        &&& self.volume == other.volume
    }

    /// All that is known of the peer is as in `other`, texts compared by what they say.
    pub open spec fn copies(&self, other: Self) -> bool {
        &&& self.id == other.id
        &&& self.connection_info@ == other.connection_info@
        &&& self.display_name@ == other.display_name@
        &&& self.connection_status == other.connection_status
        &&& self.denoise == other.denoise
        &&& self.volume == other.volume
        &&& self.slot == other.slot
        &&& self.running == other.running
    }

    pub fn copy(&self) -> (copy: Self)
        ensures
            copy.copies(*self),
    {
        ManagedPeer {
            id: self.id,
            connection_info: self.connection_info.copy(),
            display_name: self.display_name.clone(),
            connection_status: self.connection_status,
            denoise: self.denoise,
            volume: self.volume,
            slot: self.slot,
            running: self.running,
        }
    }

    pub fn new(
        id: u128,
        connection_info: ConnectionInfo,
        display_name: String,
        denoise: DenoiseSelection,
        volume: usize,
    ) -> (peer: ManagedPeer)
        ensures
            peer == (ManagedPeer {
                id,
                connection_info,
                display_name,
                connection_status: ConnectionStatus::Disabled,
                denoise,
                volume: bounded_volume(volume),
                slot: NO_SLOT,
                running: false,
            }),
    {
        ManagedPeer {
            id,
            connection_info,
            display_name,
            connection_status: ConnectionStatus::Disabled,
            denoise,
            volume: volume.min(MAX_VOLUME),
            slot: NO_SLOT,
            running: false,
        }
    }

    pub fn set_info(&mut self, info: AugmentedInfo)
        ensures
            *final(self) == (ManagedPeer {
                connection_info: info.connection_info,
                display_name: info.display_name,
                ..*old(self)
            }),
    {
        self.connection_info = info.connection_info;
        self.display_name = info.display_name;
    }

    pub fn info(&self) -> (info: AugmentedInfo)
        ensures
            info@ == (self.connection_info@, self.display_name@),
    {
        AugmentedInfo {
            connection_info: self.connection_info.copy(),
            display_name: self.display_name.clone(),
        }
    }

    pub fn connection_status(&self) -> (status: ConnectionStatus)
        ensures
            status == self.connection_status,
    {
        self.connection_status
    }

    fn show(&self, state: PeerState) -> (peer: Peer)
        ensures
            self.shows(peer),
            peer.state == state,
    {
        Peer {
            id: show_uuid(self.id),
            display_name: Some(self.display_name.clone()),
            state,
            denoise: self.denoise,
            volume: self.volume,
        }
    }

    /// Selects a denoiser, and tells the user interface.
    pub fn set_denoise(&mut self, denoise: DenoiseSelection) -> (event: AppEvent)
        ensures
            *final(self) == (ManagedPeer { denoise, ..*old(self) }),
            event matches AppEvent::SetPeerDenoise(id, selection) && id@ == identity::uuid_shown(
                old(self).id,
            ) && selection == denoise,
    {
        self.denoise = denoise;
        AppEvent::SetPeerDenoise(show_uuid(self.id), denoise)
    }

    /// Sets a volume, at most the maximum, and tells the user interface what it is now.
    pub fn set_volume(&mut self, volume: usize) -> (event: AppEvent)
        ensures
            *final(self) == (ManagedPeer { volume: bounded_volume(volume), ..*old(self) }),
            event matches AppEvent::SetPeerVolume(id, now) && id@ == identity::uuid_shown(
                old(self).id,
            ) && now == bounded_volume(volume),
    {
        self.volume = volume.min(MAX_VOLUME);
        AppEvent::SetPeerVolume(show_uuid(self.id), self.volume)
    }

    /// What is sent to the peer for a message, where anyone listens.
    pub fn send_message(&self, message: String, listeners: usize) -> (sent: Option<ProtocolMessage>)
        ensures
            sent == (if listeners > 0 {
                Some(ProtocolMessage::ChatMessage(message))
            } else {
                None
            }),
    {
        if listeners > 0 {
            Some(ProtocolMessage::ChatMessage(message))
        } else {
            None
        }
    }

    /// From now on a connection is kept up; the caller starts that.
    pub fn enable(&mut self)
        ensures
            *final(self) == (ManagedPeer { running: true, ..*old(self) }),
    {
        self.running = true;
    }

    /// Gives up the peer's slot in the mixer, if it has one.
    pub fn unsubscribe_mixer(&mut self) -> (slot: Option<u32>)
        ensures
            *final(self) == (ManagedPeer { slot: NO_SLOT, ..*old(self) }),
            slot == held_slot(old(self).slot),
    {
        let slot: u32 = self.slot;
        self.slot = NO_SLOT;
        if slot == NO_SLOT {
            None
        } else {
            Some(slot)
        }
    }

    /// The connection is given up, and with it the slot, which the caller hands back, and the user
    /// interface is told. Where none was being kept up only the slot is, and that is an error.
    pub fn disable(&mut self) -> (outcome: Result<(Option<u32>, AppEvent), NotRunning>)
        ensures
            stops(*old(self), *final(self), outcome),
    {
        let slot: Option<u32> = self.unsubscribe_mixer();
        if !self.running {
            return Err(NotRunning(slot));
        }
        self.running = false;
        self.connection_status = ConnectionStatus::Disabled;
        Ok((slot, AppEvent::AddPeer(self.show(PeerState::Disabled))))
    }

    /// The peer's slot in the mixer, if it has one.
    pub fn audio_endpoint(&self) -> (slot: Option<u32>)
        ensures
            slot == held_slot(self.slot),
    {
        if self.slot == NO_SLOT {
            None
        } else {
            Some(self.slot)
        }
    }
}

/// What happens to a connection that is kept up.
#[derive(Debug, PartialEq)]
pub enum LoopEvent {
    /// It is begun, the last attempt failed, or its progress can no longer be shown.
    Retry,
    /// The peer was reached at this address.
    Connected(String),
    /// The mixer has given the peer a slot, or has not.
    Subscribed(Option<u32>),
    /// The exchange with the peer is over.
    ExchangeEnded,
}

/// What is to be done next about it.
#[derive(Debug, PartialEq)]
pub enum LoopAction {
    /// Give up a slot, if there is one, and try to reach the peer.
    Connect(Option<u32>),
    /// Tell the user interface, give up a slot, if there is one, and ask the mixer for a new one.
    Subscribe(AppEvent, Option<u32>),
    /// Exchange audio and messages with the peer, through this slot.
    Exchange(u32),
}

impl ManagedPeer {
    /// `action` is what is to be done next about a connection, and `after` the peer then.
    pub open spec fn goes_on(self, event: LoopEvent, after: Self, action: LoopAction) -> bool {
        match event {
            LoopEvent::Retry => {
                &&& after == (ManagedPeer {
                    connection_status: ConnectionStatus::Connecting,
                    ..self
                })
                &&& action == LoopAction::Connect(None)
            },
            LoopEvent::Connected(address) => {
                &&& after == (ManagedPeer {
                    connection_status: ConnectionStatus::Connected,
                    slot: NO_SLOT,
                    ..self
                })
                &&& action matches LoopAction::Subscribe(AppEvent::AddPeer(peer), slot)
                &&& self.shows(peer)
                &&& peer.state == PeerState::Connected(address)
                &&& slot == held_slot(self.slot)
            },
            LoopEvent::Subscribed(slot) => match slot {
                Some(slot) if slot != NO_SLOT => {
                    &&& after == (ManagedPeer { slot, ..self })
                    &&& action == LoopAction::Exchange(slot)
                },
                _ => {
                    &&& after == (ManagedPeer {
                        connection_status: ConnectionStatus::Connecting,
                        slot: NO_SLOT,
                        ..self
                    })
                    &&& action == LoopAction::Connect(None)
                },
            },
            LoopEvent::ExchangeEnded => {
                &&& after == (ManagedPeer {
                    connection_status: ConnectionStatus::Connecting,
                    slot: NO_SLOT,
                    ..self
                })
                &&& action == LoopAction::Connect(held_slot(self.slot))
            },
        }
    }

    /// Takes the next step of a connection that is kept up. There is always one.
    pub fn run_connection_loop(&mut self, event: LoopEvent) -> (action: LoopAction)
        ensures
            old(self).goes_on(event, *final(self), action),
    {
        match event {
            LoopEvent::Retry => {
                self.connection_status = ConnectionStatus::Connecting;
                LoopAction::Connect(None)
            },
            LoopEvent::Connected(address) => {
                self.connection_status = ConnectionStatus::Connected;
                let shown: Peer = self.show(PeerState::Connected(address));
                let slot: Option<u32> = self.unsubscribe_mixer();
                LoopAction::Subscribe(AppEvent::AddPeer(shown), slot)
            },
            LoopEvent::Subscribed(slot) => {
                self.slot = match slot {
                    Some(slot) => slot,
                    None => NO_SLOT,
                };
                match self.audio_endpoint() {
                    Some(slot) => LoopAction::Exchange(slot),
                    None => {
                        self.connection_status = ConnectionStatus::Connecting;
                        LoopAction::Connect(None)
                    },
                }
            },
            LoopEvent::ExchangeEnded => {
                let slot: Option<u32> = self.unsubscribe_mixer();
                self.connection_status = ConnectionStatus::Connecting;
                LoopAction::Connect(slot)
            },
        }
    }
}

/// A peer has a slot only while audio is exchanged with it: whenever the next attempt to reach it
/// begins, the slot is free, and who the peer is has not changed.
pub proof fn slot_is_held_during_exchange_only(
    peer: ManagedPeer,
    event: LoopEvent,
    after: ManagedPeer,
    action: LoopAction,
)
    requires
        peer.goes_on(event, after, action),
        event is Retry ==> peer.slot == NO_SLOT,
    ensures
        after.keeps(peer),
        after.running == peer.running,
        after.slot != NO_SLOT <==> action is Exchange,
        action matches LoopAction::Exchange(slot) ==> slot == after.slot,
        action is Connect ==> after.connection_status == ConnectionStatus::Connecting,
        action is Subscribe ==> after.connection_status == ConnectionStatus::Connected,
{
}

/// The addresses that a peer is tried at, as they are shown in turn.
#[derive(Debug)]
pub struct ConnectingStatus {
    pub addresses: Vec<String>,
    pub next: usize,
}

impl ConnectingStatus {
    pub open spec fn wf(&self) -> bool {
        self.addresses@.len() > 0 ==> self.next < self.addresses@.len()
    }

    pub fn new(addresses: Vec<String>) -> (status: Self)
        ensures
            status.wf(),
            status.addresses == addresses,
            status.next == 0,
    {
        ConnectingStatus { addresses, next: 0 }
    }

    /// What is shown next: the addresses one after the other, and from the first again. Without
    /// an address nothing ever is.
    pub fn update_app_connecting_status(&mut self, peer: &ManagedPeer) -> (event: Option<AppEvent>)
        requires
            old(self).wf(),
        ensures
            final(self).wf(),
            final(self).addresses == old(self).addresses,
            if old(self).addresses@.len() == 0 {
                event is None && final(self).next == old(self).next
            } else {
                &&& event matches Some(AppEvent::AddPeer(shown))
                &&& peer.shows(shown)
                &&& shown.state matches PeerState::Connecting(address)
                &&& address@ == old(self).addresses@[old(self).next as int]@
                &&& final(self).next == (old(self).next + 1) % (old(self).addresses@.len() as int)
            },
    {
        let len: usize = self.addresses.len();
        if len == 0 {
            return None;
        }
        let address: String = self.addresses[self.next].clone();
        proof {
            if self.next + 1 < len {
                vstd::arithmetic::div_mod::lemma_small_mod((self.next + 1) as nat, len as nat);
            } else {
                vstd::arithmetic::div_mod::lemma_mod_self_0(len as int);
            }
        }
        self.next = if self.next + 1 < len {
            self.next + 1
        } else {
            0
        };
        Some(AppEvent::AddPeer(peer.show(PeerState::Connecting(address))))
    }
}

} // verus!
