//! Peers: what the user and the network can bring about, and what is told of it.
use crate::audio::codec::EncodedChunk;
use crate::clerver::{
    audio_goes_on, loudness_event, messages_go_on, receive_step, send_step, HubEvent, ReceiverStep,
    SenderStep,
};
use crate::connection_manager::{
    self, bind_plan, opening_events, own_key_event, plan_room, read_action, reconnect, ActionError,
    BindPlan, ConnectionManagerBuilder, Effect, InvalidId, PeerRequest, PeerTable, PeerUpdate,
    Reconnection, RoomPlan,
};
use crate::identity;
use crate::laws::naming;
use crate::managed_peer::{
    self, AppEvent, AugmentedInfo, ConnectingStatus, ConnectionInfo, ConnectionStatus, LoopAction,
    LoopEvent, ManagedPeer, NotRunning, Peer, PeerState,
};
use crate::options::IpVersion;
use crate::protocol::{AudioFrame, PeerIdentity, ProtocolMessage};
use crate::text;
use crate::user_input_event::{DenoiseSelection, UserInputEvent};
use vstd::prelude::*;

verus! {

/// A peer is shown under its own identifier, name and settings.
pub open spec fn is_shown(peer: ManagedPeer, shown: Peer) -> bool {
    &&& shown.id@ == identity::uuid_shown(peer.id)
    &&& shown.display_name is Some
    &&& shown.display_name->0@ == peer.display_name@
    &&& shown.denoise == peer.denoise
    &&& shown.volume == peer.volume
}

/// The slot that a peer gives up is the one it had, if it had one.
pub open spec fn gives_up(peer: ManagedPeer, slot: Option<u32>) -> bool {
    &&& slot is Some <==> peer.slot != u32::MAX
    &&& slot matches Some(slot) ==> slot == peer.slot
}

/// Who a peer is, and what was set for it, is the same.
pub open spec fn same_peer(a: ManagedPeer, b: ManagedPeer) -> bool {
    &&& a.id == b.id
    &&& a.connection_info == b.connection_info
    &&& a.display_name == b.display_name
    &&& a.denoise == b.denoise
    &&& a.volume == b.volume
}

/// What disabling does: the slot is given up in any case. A connection that was kept up is not any
/// more, and that is told; where none was, that is the answer.
pub open spec fn is_disabled(
    before: ManagedPeer,
    after: ManagedPeer,
    outcome: Result<(Option<u32>, AppEvent), NotRunning>,
) -> bool {
    &&& same_peer(before, after)
    &&& after.slot == u32::MAX
    &&& !after.running
    &&& outcome is Ok <==> before.running
    &&& outcome matches Ok((slot, event)) ==> {
        &&& gives_up(before, slot)
        &&& after.connection_status == ConnectionStatus::Disabled
        &&& event matches AppEvent::AddPeer(shown) && is_shown(before, shown) && shown.state
            == PeerState::Disabled
    }
    &&& outcome matches Err(NotRunning(slot)) ==> gives_up(before, slot)
        && after.connection_status == before.connection_status
}

/// Disabling a peer disables it.
pub proof fn disabled_peer_gives_up_all(
    peer: &mut ManagedPeer,
    outcome: Result<(Option<u32>, AppEvent), NotRunning>,
)
    requires
        call_ensures(ManagedPeer::disable, (peer,), outcome),
    ensures
        is_disabled(*old(peer), *final(peer), outcome),
{
}

/// Enabling, and giving up a slot, change that alone.
pub proof fn peer_is_enabled_and_frees_its_slot(
    enabled: &mut ManagedPeer,
    freed: &mut ManagedPeer,
    slot: Option<u32>,
    asked: ManagedPeer,
    endpoint: Option<u32>,
    status: ConnectionStatus,
)
    requires
        call_ensures(ManagedPeer::enable, (enabled,), ()),
        call_ensures(ManagedPeer::unsubscribe_mixer, (freed,), slot),
        call_ensures(ManagedPeer::audio_endpoint, (&asked,), endpoint),
        call_ensures(ManagedPeer::connection_status, (&asked,), status),
    ensures
        same_peer(*old(enabled), *final(enabled)),
        final(enabled).running,
        final(enabled).slot == old(enabled).slot,
        final(enabled).connection_status == old(enabled).connection_status,
        same_peer(*old(freed), *final(freed)),
        final(freed).running == old(freed).running,
        final(freed).slot == u32::MAX,
        final(freed).connection_status == old(freed).connection_status,
        gives_up(*old(freed), slot),
        gives_up(asked, endpoint),
        status == asked.connection_status,
{
}

/// A volume is kept up to 500.
pub open spec fn volume_kept(asked: usize, kept: usize) -> bool {
    &&& asked <= 500 ==> kept == asked
    &&& asked > 500 ==> kept == 500
}

/// What is set for a peer is kept, and told, under its own identifier.
pub proof fn settings_are_kept_and_told(
    chosen: &mut ManagedPeer,
    denoise: DenoiseSelection,
    told: AppEvent,
    turned: &mut ManagedPeer,
    volume: usize,
    event: AppEvent,
)
    requires
        call_ensures(ManagedPeer::set_denoise, (chosen, denoise), told),
        call_ensures(ManagedPeer::set_volume, (turned, volume), event),
    ensures
        final(chosen).denoise == denoise,
        same_peer(ManagedPeer { denoise: old(chosen).denoise, ..*final(chosen) }, *old(chosen)),
        final(chosen).slot == old(chosen).slot && final(chosen).running == old(chosen).running,
        told matches AppEvent::SetPeerDenoise(id, selection) && id@ == identity::uuid_shown(
            old(chosen).id,
        ) && selection == denoise,
        volume_kept(volume, final(turned).volume),
        same_peer(ManagedPeer { volume: old(turned).volume, ..*final(turned) }, *old(turned)),
        final(turned).slot == old(turned).slot && final(turned).running == old(turned).running,
        event matches AppEvent::SetPeerVolume(id, now) && id@ == identity::uuid_shown(
            old(turned).id,
        ) && now == final(turned).volume,
{
}

/// A new peer is as it was described, with nothing going on.
pub proof fn new_peer_is_idle(
    id: u128,
    connection_info: ConnectionInfo,
    display_name: String,
    denoise: DenoiseSelection,
    volume: usize,
    peer: ManagedPeer,
)
    requires
        call_ensures(
            ManagedPeer::new,
            (id, connection_info, display_name, denoise, volume),
            peer,
        ),
    ensures
        peer.id == id,
        peer.connection_info == connection_info,
        peer.display_name == display_name,
        peer.denoise == denoise,
        volume_kept(volume, peer.volume),
        peer.slot == u32::MAX && !peer.running,
        peer.connection_status == ConnectionStatus::Disabled,
{
}

/// Texts say the same, one by one.
pub open spec fn same_words(a: Seq<String>, b: Seq<String>) -> bool {
    a.len() == b.len() && forall|i: int| 0 <= i < a.len() ==> (#[trigger] a[i])@ == b[i]@
}

/// The same is known of a peer: its key, all its addresses and its name.
pub open spec fn same_info(a: AugmentedInfo, b: AugmentedInfo) -> bool {
    &&& a.connection_info.public_key@ == b.connection_info.public_key@
    &&& same_words(a.connection_info.addresses@, b.connection_info.addresses@)
    &&& a.display_name@ == b.display_name@
}

proof fn same_texts_say_the_same(a: Seq<String>, b: Seq<String>)
    ensures
        managed_peer::texts(a) == managed_peer::texts(b) <==> same_words(a, b),
{
    let (x, y) = (managed_peer::texts(a), managed_peer::texts(b));
    if x == y {
        assert(a.len() == x.len() && b.len() == y.len());
        assert forall|i: int| 0 <= i < a.len() implies (#[trigger] a[i])@ == b[i]@ by {
            assert(x[i] == y[i]);
        }
    }
    if same_words(a, b) {
        assert(x =~= y);
    }
}

/// What is known of a peer comes back as it was set, and two such compare as all their texts do.
pub proof fn info_comes_back(
    peer: &mut ManagedPeer,
    info: AugmentedInfo,
    known: AugmentedInfo,
    other: AugmentedInfo,
    same: bool,
)
    requires
        call_ensures(ManagedPeer::set_info, (peer, info), ()),
        call_ensures(ManagedPeer::info, (final(peer),), known),
        call_ensures(AugmentedInfo::same, (&info, &other), same),
    ensures
        same_info(info, known),
        final(peer).id == old(peer).id,
        final(peer).denoise == old(peer).denoise,
        final(peer).volume == old(peer).volume,
        final(peer).slot == old(peer).slot,
        final(peer).running == old(peer).running,
        final(peer).connection_status == old(peer).connection_status,
        same <==> same_info(info, other),
{
    same_texts_say_the_same(
        info.connection_info.addresses@,
        known.connection_info.addresses@,
    );
    same_texts_say_the_same(
        info.connection_info.addresses@,
        other.connection_info.addresses@,
    );
}

/// A status is its number, and every number is a status.
pub proof fn status_is_its_number(
    status: ConnectionStatus,
    number: u8,
    read: ConnectionStatus,
    any: u8,
    of_any: ConnectionStatus,
)
    requires
        call_ensures(ConnectionStatus::to_u8, (status,), number),
        call_ensures(ConnectionStatus::from_u8, (number,), read),
        call_ensures(ConnectionStatus::from_u8, (any,), of_any),
    ensures
        read == status,
        status == ConnectionStatus::Disabled <==> number == 0,
        status == ConnectionStatus::Connecting <==> number == 1,
        status == ConnectionStatus::Connected <==> number == 2,
        any > 2 ==> of_any == ConnectionStatus::Disabled,
{
}

/// A message is sent exactly where someone listens, as it was written.
pub proof fn message_is_sent_where_someone_listens(
    peer: ManagedPeer,
    message: String,
    listeners: usize,
    sent: Option<ProtocolMessage>,
)
    requires
        call_ensures(ManagedPeer::send_message, (&peer, message, listeners), sent),
    ensures
        sent is Some <==> listeners > 0,
        sent matches Some(sent) ==> sent == ProtocolMessage::ChatMessage(message),
{
}

/// How a connection that is kept up goes on: it is tried until the peer is reached, then shown and
/// given a slot, and audio is exchanged through that slot; without one, or when the exchange is
/// over, it is tried again. Every slot that is taken is given up once.
pub proof fn connection_is_kept_up(peer: &mut ManagedPeer, event: LoopEvent, action: LoopAction)
    requires
        call_ensures(ManagedPeer::run_connection_loop, (peer, event), action),
    ensures
        same_peer(*old(peer), *final(peer)),
        final(peer).running == old(peer).running,
        action is Subscribe <==> event is Connected,
        event matches LoopEvent::Connected(address) ==> ({
            &&& action matches LoopAction::Subscribe(AppEvent::AddPeer(shown), slot)
            &&& is_shown(*old(peer), shown)
            &&& shown.state == PeerState::Connected(address)
            &&& gives_up(*old(peer), slot)
            &&& final(peer).slot == u32::MAX
        }),
        action is Exchange <==> (event matches LoopEvent::Subscribed(Some(slot)) && slot
            != u32::MAX),
        action matches LoopAction::Exchange(slot) ==> event == LoopEvent::Subscribed(Some(slot))
            && final(peer).slot == slot && final(peer).connection_status
            == old(peer).connection_status,
        event is ExchangeEnded ==> (action matches LoopAction::Connect(slot) && gives_up(
            *old(peer),
            slot,
        )) && final(peer).slot == u32::MAX,
        event is Retry ==> action == LoopAction::Connect(None) && final(peer).slot
            == old(peer).slot,
        event is Subscribed && action is Connect ==> action == LoopAction::Connect(None)
            && final(peer).slot == u32::MAX,
        action is Connect ==> final(peer).connection_status == ConnectionStatus::Connecting,
        action is Subscribe ==> final(peer).connection_status == ConnectionStatus::Connected,
{
}

/// Addresses are shown one after the other, and from the first again behind the last.
pub proof fn addresses_are_shown_in_turn(
    addresses: Vec<String>,
    made: ConnectingStatus,
    status: &mut ConnectingStatus,
    peer: ManagedPeer,
    event: Option<AppEvent>,
)
    requires
        call_ensures(ConnectingStatus::new, (addresses,), made),
        old(status).wf(),
        call_ensures(
            ConnectingStatus::update_app_connecting_status,
            (status, &peer),
            event,
        ),
    ensures
        made.addresses == addresses && made.next == 0,
        final(status).addresses == old(status).addresses,
        event is Some <==> old(status).addresses@.len() > 0,
        event is Some ==> {
            &&& event->0 matches AppEvent::AddPeer(shown)
            &&& is_shown(peer, shown)
            &&& shown.state matches PeerState::Connecting(address)
            &&& address@ == old(status).addresses@[old(status).next as int]@
            &&& final(status).next == old(status).next + 1 || (final(status).next == 0
                && old(status).next + 1 == old(status).addresses@.len())
            &&& final(status).next < old(status).addresses@.len()
        },
{
    if event is Some {
        let (next, len) = (old(status).next as int, old(status).addresses@.len() as int);
        if next + 1 < len {
            vstd::arithmetic::div_mod::lemma_small_mod((next + 1) as nat, len as nat);
        } else {
            vstd::arithmetic::div_mod::lemma_mod_self_0(len);
        }
    }
}

/// The peer that a request is about, if it is about one.
pub open spec fn about(request: PeerRequest) -> Option<u128> {
    match request {
        PeerRequest::SetDenoise(id, _) => Some(id),
        PeerRequest::SetVolume(id, _) => Some(id),
        PeerRequest::Disable(id) => Some(id),
        PeerRequest::Enable(id) => Some(id),
        _ => None,
    }
}

/// What a request does to the peer it is about.
pub open spec fn done_to(
    before: ManagedPeer,
    request: PeerRequest,
    after: ManagedPeer,
    effect: Result<Effect, NotRunning>,
) -> bool {
    match request {
        PeerRequest::SetDenoise(_, denoise) => {
            &&& after == ManagedPeer { denoise, ..before }
            &&& effect matches Ok(Effect::Notify(AppEvent::SetPeerDenoise(text, selection)))
            &&& text@ == identity::uuid_shown(before.id)
            &&& selection == denoise
        },
        PeerRequest::SetVolume(_, volume) => {
            &&& volume_kept(volume, after.volume)
            &&& after == ManagedPeer { volume: after.volume, ..before }
            &&& effect matches Ok(Effect::Notify(AppEvent::SetPeerVolume(text, now)))
            &&& text@ == identity::uuid_shown(before.id)
            &&& now == after.volume
        },
        PeerRequest::Disable(_) => {
            &&& effect is Ok ==> (effect matches Ok(Effect::Stop(id, slot, event)) && id
                == before.id && is_disabled(
                before,
                after,
                Ok::<(Option<u32>, AppEvent), NotRunning>((slot, event)),
            ))
            &&& effect matches Err(not_running) ==> is_disabled(
                before,
                after,
                Err::<(Option<u32>, AppEvent), NotRunning>(not_running),
            )
        },
        PeerRequest::Enable(_) => {
            &&& after == ManagedPeer { running: true, ..before }
            &&& effect == Ok::<Effect, NotRunning>(Effect::Start(before.id))
        },
        _ => false,
    }
}

/// What becomes of a request. One about a peer is done to that peer, wherever it stands, and to no
/// other; where it is not known nothing happens. A message goes to all, and muting is told.
pub open spec fn is_done(
    before: Seq<ManagedPeer>,
    request: PeerRequest,
    after: Seq<ManagedPeer>,
    effect: Result<Effect, NotRunning>,
) -> bool {
    &&& after.len() == before.len()
    &&& forall|k: int|
        0 <= k < before.len() && Some(before[k].id) != about(request) ==> #[trigger] after[k]
            == before[k]
    &&& forall|k: int|
        0 <= k < before.len() && Some(before[k].id) == about(request) ==> done_to(
            before[k],
            request,
            #[trigger] after[k],
            effect,
        )
    &&& about(request) is Some && (forall|k: int|
        0 <= k < before.len() ==> Some((#[trigger] before[k]).id) != about(request)) ==> effect
        == Ok::<Effect, NotRunning>(Effect::Nothing)
    &&& request matches PeerRequest::Send(message) ==> effect == Ok::<Effect, NotRunning>(
        Effect::Broadcast(message),
    )
    &&& request matches PeerRequest::MuteSelf(muted) ==> effect == Ok::<Effect, NotRunning>(
        Effect::Mute(muted, AppEvent::MuteSelf(muted)),
    )
}

proof fn meeting_does(
    before: PeerTable,
    request: PeerRequest,
    after: PeerTable,
    effect: Result<Effect, NotRunning>,
)
    requires
        before.wf(),
        before.meets(request, after, effect),
    ensures
        is_done(before.peers@, request, after.peers@, effect),
{
    let (peers, then) = (before.peers@, after.peers@);
    if about(request) is Some && connection_manager::has_peer(peers, about(request)->0) {
        let id = about(request)->0;
        let i = choose|i: int| #[trigger]
            connection_manager::one_changed(peers, i, then) && peers[i].id == id && match request {
                PeerRequest::Disable(_) => exists|
                    outcome: Result<(Option<u32>, AppEvent), NotRunning>,
                |
                    managed_peer::stops(peers[i], then[i], outcome) && effect
                        == #[trigger] connection_manager::stopped(id, outcome),
                _ => done_to(peers[i], request, then[i], effect),
            };
        assert(done_to(peers[i], request, then[i], effect));
        assert forall|k: int| 0 <= k < peers.len() && (#[trigger] peers[k]).id == id implies k
            == i by {
            if k < i {
                assert(peers[k].id != peers[i].id);
            } else if i < k {
                assert(peers[i].id != peers[k].id);
            }
        }
        assert forall|k: int|
            0 <= k < peers.len() && Some(peers[k].id) == about(request) implies done_to(
            peers[k],
            request,
            #[trigger] then[k],
            effect,
        ) by {
            assert(peers[k].id == id);
        }
        assert(Some(peers[i].id) == about(request));
    } else if about(request) is Some {
        assert forall|k: int| 0 <= k < peers.len() implies Some((#[trigger] peers[k]).id) != about(
            request,
        ) by {}
    }
}

/// A request is done.
pub proof fn request_is_done_to_its_peer(
    table: &mut PeerTable,
    request: PeerRequest,
    effect: Result<Effect, NotRunning>,
)
    requires
        old(table).wf(),
        call_ensures(PeerTable::meet, (table, request), effect),
    ensures
        is_done(old(table).peers@, request, final(table).peers@, effect),
{
    meeting_does(*old(table), request, *final(table), effect);
}

/// The text that an action names a peer by, if it does.
pub open spec fn names(action: UserInputEvent) -> Option<Seq<char>> {
    match action {
        UserInputEvent::DisablePeer(text) => Some(text@),
        UserInputEvent::EnablePeer(text) => Some(text@),
        UserInputEvent::SetDenoise(text, _) => Some(text@),
        UserInputEvent::SetVolume(text, _) => Some(text@),
        _ => None,
    }
}

/// `request` is `action` with the peer's identifier in the place of its text.
pub open spec fn is_read(action: UserInputEvent, request: Result<PeerRequest, InvalidId>) -> bool {
    &&& request is Err <==> (names(action) is Some && identity::uuid_parsed(names(action)->0)
        is None)
    &&& request matches Ok(request) ==> {
        &&& about(request) is Some <==> names(action) is Some
        &&& about(request) matches Some(id) ==> identity::uuid_parsed(names(action)->0) == Some(id)
        &&& action is DisablePeer <==> request is Disable
        &&& action is EnablePeer <==> request is Enable
        &&& action matches UserInputEvent::SetDenoise(_, denoise) ==> (
        request matches PeerRequest::SetDenoise(_, asked) && asked == denoise)
        &&& action matches UserInputEvent::SetVolume(_, volume) ==> (
        request matches PeerRequest::SetVolume(_, asked) && asked == volume)
        &&& action matches UserInputEvent::SendMessage(message) ==> request == PeerRequest::Send(
            message,
        )
        &&& action matches UserInputEvent::SetMuteSelf(muted) ==> request
            == PeerRequest::MuteSelf(muted)
    }
}

/// An action is read as what it says.
pub proof fn action_is_read_as_it_says(
    action: UserInputEvent,
    request: Result<PeerRequest, InvalidId>,
)
    requires
        call_ensures(read_action, (action,), request),
    ensures
        is_read(action, request),
{
}

/// What a user asks for is done; where the peer's identifier cannot be read nothing is, and the
/// user is told.
pub proof fn user_is_obeyed(
    table: &mut PeerTable,
    action: UserInputEvent,
    effect: Result<Effect, ActionError>,
)
    requires
        old(table).wf(),
        call_ensures(PeerTable::handle_user_action, (table, action), effect),
    ensures
        exists|request: Result<PeerRequest, InvalidId>| #[trigger]
            is_read(action, request) && (request is Err ==> effect == Err::<Effect, ActionError>(
                ActionError::InvalidId,
            ) && final(table).peers@ == old(table).peers@) && (request matches Ok(request)
                ==> exists|met: Result<Effect, NotRunning>| #[trigger]
                is_done(old(table).peers@, request, final(table).peers@, met) && (met matches Ok(
                    done,
                ) ==> effect == Ok::<Effect, ActionError>(done)) && (met matches Err(
                    NotRunning(slot),
                ) ==> effect == Err::<Effect, ActionError>(ActionError::NotRunning(slot)))),
{
    let request = choose|request: Result<PeerRequest, InvalidId>| #[trigger]
        connection_manager::asks_for(action, request) && match request {
            Ok(request) => exists|met: Result<Effect, NotRunning>| #[trigger]
                old(table).meets(request, *final(table), met) && effect
                    == connection_manager::reported(met),
            Err(_) => effect == Err::<Effect, ActionError>(ActionError::InvalidId)
                && final(table).peers@ == old(table).peers@,
        };
    assert(is_read(action, request));
    if request is Ok {
        let asked = request->Ok_0;
        let met = choose|met: Result<Effect, NotRunning>| #[trigger]
            old(table).meets(asked, *final(table), met) && effect == connection_manager::reported(
                met,
            );
        meeting_does(*old(table), asked, *final(table), met);
        assert(is_done(old(table).peers@, asked, final(table).peers@, met));
    }
}

/// A peer is found exactly where one has the identifier; a message to all goes to each that
/// listens. A new table is empty.
pub proof fn peers_are_found_and_written_to(
    made: PeerTable,
    table: PeerTable,
    id: u128,
    index: Option<usize>,
    message: String,
    listeners: Vec<usize>,
    sent: Vec<Option<ProtocolMessage>>,
)
    requires
        call_ensures(PeerTable::new, (), made),
        call_ensures(PeerTable::find, (&table, id), index),
        call_ensures(PeerTable::deliveries, (&table, &message, &listeners), sent),
    ensures
        made.peers@.len() == 0,
        index matches Some(i) ==> i < table.peers@.len() && table.peers@[i as int].id == id,
        index is None ==> forall|k: int|
            0 <= k < table.peers@.len() ==> (#[trigger] table.peers@[k]).id != id,
        sent@.len() == table.peers@.len(),
        forall|k: int|
            0 <= k < sent@.len() ==> (#[trigger] sent@[k] is Some <==> listeners@[k] > 0),
        forall|k: int|
            0 <= k < sent@.len() && #[trigger] sent@[k] is Some ==> (
            sent@[k]->0 matches ProtocolMessage::ChatMessage(text) && text@ == message@),
{
}

/// What starting anew does to a peer: one without a connection just starts; one with a connection
/// is stopped first, and started only where that was possible.
pub open spec fn is_restarted(
    before: ManagedPeer,
    after: ManagedPeer,
    reconnection: Reconnection,
) -> bool {
    &&& same_peer(before, after)
    &&& reconnection is Start <==> before.connection_status == ConnectionStatus::Disabled
    &&& reconnection is Start ==> after.running && after.slot == before.slot
        && after.connection_status == ConnectionStatus::Disabled
    &&& reconnection matches Reconnection::Restart(slot, event) ==> {
        &&& before.running && after.running
        &&& gives_up(before, slot) && after.slot == u32::MAX
        &&& after.connection_status == ConnectionStatus::Disabled
        &&& event matches AppEvent::AddPeer(shown) && is_shown(before, shown) && shown.state
            == PeerState::Disabled
    }
    &&& reconnection matches Reconnection::Leave(slot) ==> {
        &&& !before.running && !after.running
        &&& gives_up(before, slot) && after.slot == u32::MAX
        &&& after.connection_status == before.connection_status
    }
}

/// Starting anew starts anew.
pub proof fn connection_starts_anew(peer: &mut ManagedPeer, reconnection: Reconnection)
    requires
        call_ensures(reconnect, (peer,), reconnection),
    ensures
        is_restarted(*old(peer), *final(peer), reconnection),
{
}

/// What is known of a peer.
pub open spec fn known_of(peer: ManagedPeer) -> AugmentedInfo {
    AugmentedInfo { connection_info: peer.connection_info, display_name: peer.display_name }
}

/// What learning of a peer does: one that is known and of which nothing is new is left alone; one
/// of which something is new has that taken in, and nothing else changes; one that is not known is
/// added behind the others, idle, with a denoiser and at full volume. No other peer is touched.
pub open spec fn takes_note(
    before: Seq<ManagedPeer>,
    id: u128,
    info: AugmentedInfo,
    after: Seq<ManagedPeer>,
    i: int,
    fresh: bool,
) -> bool {
    &&& 0 <= i < after.len()
    &&& after[i].id == id
    &&& before.len() <= after.len() <= before.len() + 1
    &&& forall|k: int| 0 <= k < before.len() && k != i ==> #[trigger] after[k] == before[k]
    &&& i < before.len() ==> {
        &&& after.len() == before.len()
        &&& before[i].id == id
        &&& fresh <==> !same_info(known_of(before[i]), info)
        &&& !fresh ==> after[i] == before[i]
        &&& fresh ==> after[i] == ManagedPeer {
            connection_info: info.connection_info,
            display_name: info.display_name,
            ..before[i]
        }
    }
    &&& i >= before.len() ==> {
        &&& fresh
        &&& i == before.len() && after.len() == before.len() + 1
        &&& forall|k: int| 0 <= k < before.len() ==> (#[trigger] before[k]).id != id
        &&& known_of(after[i]) == info
        &&& after[i].denoise == DenoiseSelection::Nnnoiseless && after[i].volume == 100
        &&& after[i].slot == u32::MAX && !after[i].running
        &&& after[i].connection_status == ConnectionStatus::Disabled
    }
}

proof fn learning_takes_note(
    before: PeerTable,
    id: u128,
    info: AugmentedInfo,
    after: PeerTable,
    updated: Option<PeerUpdate>,
) -> (i: int)
    requires
        before.learns(id, info, after, updated),
    ensures
        takes_note(before.peers@, id, info, after.peers@, i, updated is Some),
        updated is Some ==> updated->0.index == i,
{
    let (peers, then) = (before.peers@, after.peers@);
    if connection_manager::has_peer(peers, id) {
        let i = choose|i: int|
            0 <= i < peers.len() && (#[trigger] peers[i]).id == id && if (
            peers[i].connection_info@, peers[i].display_name@) == info@ {
                updated is None && then == peers
            } else {
                &&& updated matches Some(update)
                &&& update.index == i
                &&& update.old == Some(peers[i])
                &&& update.updated.copies(then[i])
                &&& then == peers.update(
                    i,
                    ManagedPeer {
                        connection_info: info.connection_info,
                        display_name: info.display_name,
                        ..peers[i]
                    },
                )
            };
        same_texts_say_the_same(
            peers[i].connection_info.addresses@,
            info.connection_info.addresses@,
        );
        i
    } else {
        peers.len() as int
    }
}

/// A table takes note of what has become known of a peer, and shows the peer as it was and as it
/// is where something was new.
pub proof fn news_are_taken_note_of(
    table: &mut PeerTable,
    id: u128,
    info: AugmentedInfo,
    updated: Option<PeerUpdate>,
)
    requires
        call_ensures(PeerTable::update_peer_info, (table, id, info), updated),
    ensures
        exists|i: int| #[trigger]
            takes_note(
                old(table).peers@,
                id,
                info,
                final(table).peers@,
                i,
                updated is Some,
            ) && (updated matches Some(update) ==> update.index == i && (update.old is Some <==> i
                < old(table).peers@.len()) && (update.old matches Some(was) ==> was
                == old(table).peers@[i]) && update.updated.id == id && same_info(
                known_of(update.updated),
                info,
            )),
{
    let i = learning_takes_note(*old(table), id, info, *final(table), updated);
    if updated is Some {
        same_texts_say_the_same(
            updated->0.updated.connection_info.addresses@,
            info.connection_info.addresses@,
        );
    }
    assert(takes_note(old(table).peers@, id, info, final(table).peers@, i, updated is Some));
}

/// What the network tells of this machine itself is passed over. What it tells of another is taken
/// note of, under the identifier that both ends find for their two keys, and where something is
/// new the connection starts anew; where nothing is, nothing changes.
pub proof fn news_start_a_connection(
    table: &mut PeerTable,
    own_key: String,
    info: AugmentedInfo,
    heard: Option<(u128, Reconnection)>,
)
    requires
        call_ensures(PeerTable::hear_of, (table, &own_key, info), heard),
    ensures
        own_key@ == info.connection_info.public_key@ ==> heard is None && final(table).peers@
            == old(table).peers@,
        own_key@ != info.connection_info.public_key@ ==> exists|
            id: u128,
            learned: Seq<ManagedPeer>,
            i: int,
        |
            naming::is_common_id(
                vstd::utf8::encode_utf8(own_key@),
                vstd::utf8::encode_utf8(info.connection_info.public_key@),
                id,
            ) && #[trigger] takes_note(
                old(table).peers@,
                id,
                info,
                learned,
                i,
                heard is Some,
            ) && (heard is None ==> final(table).peers@ == learned) && (heard matches Some(
                (whom, reconnection),
            ) ==> whom == id && final(table).peers@.len() == learned.len() && is_restarted(
                learned[i],
                final(table).peers@[i],
                reconnection,
            ) && forall|k: int|
                0 <= k < learned.len() && k != i ==> #[trigger] final(table).peers@[k]
                    == learned[k]),
{
    if own_key@ != info.connection_info.public_key@ {
        let (own, other) = (
            vstd::utf8::encode_utf8(own_key@),
            vstd::utf8::encode_utf8(info.connection_info.public_key@),
        );
        let id = identity::common_id(own, other) as u128;
        naming::common_id_is_made_of_the_digest(own, other);
        let (learned, updated) = choose|learned: PeerTable, updated: Option<PeerUpdate>| #[trigger]
            old(table).learns(id, info, learned, updated)
                && #[trigger] connection_manager::follows_up(
                learned,
                updated,
                id,
                *final(table),
                heard,
            );
        let i = learning_takes_note(*old(table), id, info, learned, updated);
        assert(takes_note(
            old(table).peers@,
            id,
            info,
            learned.peers@,
            i,
            heard is Some,
        ));
    }
}

/// Where the own socket is bound: on every address of the versions asked for, at the port asked
/// for. With both versions the second has the next port, or one that the system chooses where the
/// first has.
pub proof fn socket_is_bound_as_asked(version: IpVersion, port: u16, plan: BindPlan)
    requires
        call_ensures(bind_plan, (version, port), plan),
        version == IpVersion::Dualstack ==> port < u16::MAX,
    ensures
        plan is Dual <==> version == IpVersion::Dualstack,
        version == IpVersion::Ipv4 ==> is_address(plan->Single_0@, "0.0.0.0:"@, port as int),
        version == IpVersion::Ipv6 ==> is_address(plan->Single_0@, "[::]:"@, port as int),
        version == IpVersion::Dualstack ==> is_address(plan->Dual_0@, "0.0.0.0:"@, port as int)
            && is_address(
            plan->Dual_1@,
            "[::]:"@,
            if port == 0 {
                0
            } else {
                port + 1
            },
        ),
{
    naming::decimal_is_the_number(port as nat);
    naming::decimal_is_the_number((port + 1) as nat);
    assert(plan matches BindPlan::Single(address) ==> address@.skip(
        address@.len() - text::decimal(port as nat).len(),
    ) =~= text::decimal(port as nat));
    reveal_strlit("0.0.0.0:");
    reveal_strlit("[::]:");
    assert(forall|a: Seq<char>, b: Seq<char>|
        #![trigger (a + b)]
        (a + b).take(a.len() as int) =~= a && (a + b).skip(a.len() as int) =~= b);
}

/// An address is a host and a port in decimal notation.
pub open spec fn is_address(address: Seq<char>, host: Seq<char>, port: int) -> bool {
    &&& host.len() < address.len()
    &&& address.take(host.len() as int) == host
    &&& naming::writes(address.skip(host.len() as int), port)
}

/// A room is joined where one is named and the address of every server can be read; what the
/// user is told at the start is the servers, the room if there is one, and the name.
pub proof fn room_is_joined_through_all_servers(
    room: Option<String>,
    servers: Vec<String>,
    plan: RoomPlan,
    name: String,
    events: Vec<AppEvent>,
    key: &[u8],
    own: AppEvent,
)
    requires
        call_ensures(plan_room, (room, &servers), plan),
        call_ensures(opening_events, (servers, room, name), events),
        call_ensures(own_key_event, (key,), own),
    ensures
        plan is Alone <==> room is None,
        plan is Join <==> room is Some && forall|i: int|
            0 <= i < servers@.len() ==> identity::url_parsed((#[trigger] servers@[i])@) is Some,
        plan matches RoomPlan::Join { room: joined, servers: through } ==> Some(joined) == room
            && through@.len() == servers@.len() && forall|i: int|
            0 <= i < servers@.len() ==> identity::url_parsed((#[trigger] servers@[i])@) == Some(
                through@[i]@,
            ),
        events@.len() == if room is Some {
            3int
        } else {
            2
        },
        events@[0] == AppEvent::SetServer(servers),
        room matches Some(room) ==> events@[1] == AppEvent::SetRoom(room),
        events@.last() == AppEvent::SetOwnDisplayName(name),
        own matches AppEvent::SetOwnPublicKey(text) && text@ == identity::base64_url(key@),
{
}

/// A builder keeps what it is given, each in its place.
pub proof fn builder_keeps_what_it_is_given<P, C, S>(
    base_dir: P,
    port: u16,
    servers: Vec<String>,
    version: IpVersion,
    first: ConnectionManagerBuilder<P, C, S>,
    room: String,
    second: ConnectionManagerBuilder<P, C, S>,
    name: String,
    third: ConnectionManagerBuilder<P, C, S>,
    token: C,
    fourth: ConnectionManagerBuilder<P, C, S>,
    sender: S,
    last: ConnectionManagerBuilder<P, C, S>,
)
    requires
        call_ensures(
            ConnectionManagerBuilder::<P, C, S>::new,
            (base_dir, port, servers, version),
            first,
        ),
        call_ensures(ConnectionManagerBuilder::<P, C, S>::room, (first, room), second),
        call_ensures(ConnectionManagerBuilder::<P, C, S>::display_name, (second, name), third),
        call_ensures(
            ConnectionManagerBuilder::<P, C, S>::cancellation_token,
            (third, token),
            fourth,
        ),
        call_ensures(
            ConnectionManagerBuilder::<P, C, S>::app_event_sender,
            (fourth, sender),
            last,
        ),
    ensures
        first.room_name is None && first.display_name is None && first.cancellation_token is None
            && first.app_event_sender is None,
        last.base_dir == base_dir && last.listen_port == port && last.bridge_servers == servers
            && last.ip_version == version,
        last.room_name == Some(room) && last.display_name == Some(name),
        last.cancellation_token == Some(token) && last.app_event_sender == Some(sender),
        second.display_name is None && third.cancellation_token is None
            && fourth.app_event_sender is None,
{
}

/// A frame of the own input is sent as it is; sending ends with the input, and missed frames are
/// no reason to. Audio needs every frame to go through; a message that cannot be written is left
/// out, but one that cannot be sent is the end.
pub proof fn frames_and_messages_are_sent(
    event: HubEvent,
    step: SenderStep,
    written: bool,
    sent: bool,
    audio: bool,
    messages: bool,
)
    requires
        call_ensures(send_step, (event,), step),
        call_ensures(audio_goes_on, (written, sent), audio),
        call_ensures(messages_go_on, (written, sent), messages),
    ensures
        step is Stop <==> event is Closed,
        event matches HubEvent::Frame(frame) ==> step == SenderStep::Send(
            ProtocolMessage::Encoded(frame),
        ),
        event is Lagged <==> step is GoOn,
        !audio <==> !written || !sent,
        !messages <==> written && !sent,
{
}

/// A frame of a peer goes to the mixer and a message to the user, under the peer's name; anything
/// else is ignored. How loud a peer is is told once a frame has gone to the mixer.
pub proof fn what_comes_in_goes_where_it_belongs(
    message: ProtocolMessage,
    peer: String,
    step: ReceiverStep,
    pushed: bool,
    level: u64,
    event: Option<AppEvent>,
)
    requires
        call_ensures(receive_step, (message, &peer), step),
        call_ensures(loudness_event, (pushed, level, &peer), event),
    ensures
        step is Push <==> message is Encoded,
        message matches ProtocolMessage::Encoded(frame) ==> step == ReceiverStep::Push(frame),
        step is Tell <==> message is ChatMessage,
        message matches ProtocolMessage::ChatMessage(said) ==> (
        step matches ReceiverStep::Tell(AppEvent::NewMessage(whose, heard)) && whose@ == peer@
            && heard@ == said@),
        event is Some <==> pushed,
        event is Some ==> (event->0 matches AppEvent::Loudness(whose, loud) && whose@ == peer@
            && loud == level),
{
}

/// A frame without its format keeps its number and bytes; a new identity knows a name alone.
pub proof fn frame_keeps_number_and_bytes(
    chunk: EncodedChunk,
    frame: AudioFrame,
    name: String,
    identity: PeerIdentity,
)
    requires
        call_ensures(<AudioFrame as From<EncodedChunk>>::from, (chunk,), frame),
        call_ensures(PeerIdentity::new, (name,), identity),
    ensures
        frame.sequence_number == chunk.sequence_number,
        frame.payload@ == chunk.payload@,
        identity.canonical_name == name,
        identity.display_name is None,
        identity.addresses@.len() == 0,
{
}

/// The selections follow each other in a circle, and noise is taken out by default.
pub proof fn selections_go_round(
    selection: DenoiseSelection,
    next: DenoiseSelection,
    again: DenoiseSelection,
    default: DenoiseSelection,
)
    requires
        call_ensures(DenoiseSelection::next, (&selection,), next),
        call_ensures(DenoiseSelection::next, (&next,), again),
        call_ensures(<DenoiseSelection as Default>::default, (), default),
    ensures
        next != selection,
        again == selection,
        default == DenoiseSelection::Nnnoiseless,
{
}

} // verus!
