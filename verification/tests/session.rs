use nutblaster::blaster::payloads::{ClientMessage, LobbyListing, ServerMessage};
use nutblaster::blaster::BlasterOperation;
use nutblaster::clock::SECOND;
use nutblaster::frame::Frame;
use nutblaster::id::{GameId, IpAddr, LobbyId};
use nutblaster::protocol::aux::{BoundedString, FieldKey, FieldValue, Metadata};
use nutblaster::protocol::payloads::Kick;
use nutblaster::session::{Action, Event, Session};

const IP: IpAddr = IpAddr::V4(0x7f00_0001);

fn gid() -> GameId {
    GameId("game".to_string())
}

fn send(s: &mut Session, msg: ClientMessage) -> Action {
    s.handle(Event::Incoming { len: 10, frame: Frame::Payload(msg) }, 0)
}

fn guest() -> Session {
    Session::new(IP, 0)
}

fn player() -> Session {
    let mut s = guest();
    assert!(matches!(s.seated(Some(Ok(5))), Action::Rest));
    s
}

fn host(capacity: usize) -> ClientMessage {
    ClientMessage::Host {
        gid: gid(),
        capacity,
        listed: true,
        player_meta: Metadata::new(),
        lobby_meta: Metadata::new(),
    }
}

fn dismissal(a: &Action) -> Option<Kick> {
    match a {
        Action::Transmit(ServerMessage::Disconnected { reason }) => Some(reason.clone()),
        _ => None,
    }
}

fn bad_payload() -> Option<Kick> {
    Some(Kick::violation("bad_payload", "Invalid payload"))
}

#[test]
fn guests_list_host_and_join() {
    let mut s = guest();
    let a = send(&mut s, ClientMessage::List { gid: gid(), limit: 3 });
    assert!(matches!(
        a,
        Action::AskListing(BlasterOperation::ListLobbies { ip: IP, limit: 3, .. })
    ));
    let a = send(&mut s, host(4));
    assert!(matches!(
        a,
        Action::AskSeat(BlasterOperation::HostLobby { initiator: IP, capacity: 4, listed: true, .. })
    ));
    let lid = LobbyId { lid: 7, gid: gid() };
    let a = send(&mut s, ClientMessage::Join { lid, player_meta: Metadata::new() });
    assert!(matches!(
        a,
        Action::AskSeat(BlasterOperation::JoinLobby { ip: IP, lid: LobbyId { lid: 7, .. }, .. })
    ));
    assert!(matches!(send(&mut s, ClientMessage::Ping), Action::Rest));
    assert!(!s.stopped());
}

#[test]
fn guests_do_nothing_else() {
    let mut s = guest();
    let a = send(&mut s, ClientMessage::SetListed { listed: true });
    assert_eq!(dismissal(&a), bad_payload());
    assert!(s.stopped());
    assert!(s.finish().is_none());
}

#[test]
fn lobbies_hold_one_to_sixteen() {
    for capacity in [0, 17] {
        let mut s = guest();
        assert_eq!(dismissal(&send(&mut s, host(capacity))), bad_payload());
        let mut s = player();
        let a = send(&mut s, ClientMessage::SetCapacity { capacity });
        assert_eq!(dismissal(&a), bad_payload());
    }
    for capacity in [1, 16] {
        let mut s = guest();
        assert!(matches!(send(&mut s, host(capacity)), Action::AskSeat(_)));
    }
}

#[test]
fn players_stay_where_they_are() {
    let lid = LobbyId { lid: 7, gid: gid() };
    for msg in [
        ClientMessage::List { gid: gid(), limit: 3 },
        host(4),
        ClientMessage::Join { lid, player_meta: Metadata::new() },
    ] {
        let mut s = player();
        assert_eq!(dismissal(&send(&mut s, msg)), bad_payload());
    }
}

#[test]
fn players_speak_for_themselves() {
    let mut s = player();
    assert!(matches!(
        send(&mut s, ClientMessage::Ping),
        Action::Transmit(ServerMessage::Pong)
    ));
    assert!(matches!(
        send(&mut s, ClientMessage::SetListed { listed: true }),
        Action::Execute(BlasterOperation::SetListed { initiator: 5, listed: true })
    ));
    assert!(matches!(
        send(&mut s, ClientMessage::SetCapacity { capacity: 3 }),
        Action::Execute(BlasterOperation::SetCapacity { initiator: 5, capacity: 3 })
    ));
    assert!(matches!(
        send(&mut s, ClientMessage::Kick { pid: 6 }),
        Action::Execute(BlasterOperation::KickPlayer { kicker: 5, kickee: 6 })
    ));
    assert!(matches!(
        send(&mut s, ClientMessage::SetMaster { pid: 6 }),
        Action::Execute(BlasterOperation::SetMaster { initiator: 5, new_master: 6 })
    ));
    let key = || FieldKey("k".to_string());
    let value = || FieldValue("v".to_string());
    assert!(matches!(
        send(&mut s, ClientMessage::SetPlayerMeta { key: key(), value: value() }),
        Action::Execute(BlasterOperation::SetPlayerMeta { pid: 5, key, value }) if key == "k" && value == "v"
    ));
    assert!(matches!(
        send(&mut s, ClientMessage::ErasePlayerMeta { key: key() }),
        Action::Execute(BlasterOperation::ErasePlayerMeta { pid: 5, key }) if key == "k"
    ));
    assert!(matches!(
        send(&mut s, ClientMessage::SetLobbyMeta { key: key(), value: value() }),
        Action::Execute(BlasterOperation::SetLobbyMeta { initiator: 5, key, value }) if key == "k" && value == "v"
    ));
    assert!(matches!(
        send(&mut s, ClientMessage::EraseLobbyMeta { key: key() }),
        Action::Execute(BlasterOperation::EraseLobbyMeta { initiator: 5, key }) if key == "k"
    ));
    assert!(!s.stopped());
}

#[test]
fn players_have_messages_relayed() {
    let mut s = player();
    let text = |t: &str| BoundedString(t.to_string());
    let a = send(&mut s, ClientMessage::PassCandidate { to: 6, candidate: text("c"), mid: text("m") });
    assert!(matches!(
        a,
        Action::Execute(BlasterOperation::Relay {
            from: 5,
            to: 6,
            msg: ServerMessage::Candidate { from: 5, candidate, mid }
        }) if candidate == "c" && mid == "m"
    ));
    let a = send(&mut s, ClientMessage::PassOffer { to: 6, sdp: text("o") });
    assert!(matches!(
        a,
        Action::Execute(BlasterOperation::Relay { from: 5, to: 6, msg: ServerMessage::Offer { from: 5, sdp } })
            if sdp == "o"
    ));
    let a = send(&mut s, ClientMessage::PassAnswer { to: 6, sdp: text("a") });
    assert!(matches!(
        a,
        Action::Execute(BlasterOperation::Relay { from: 5, to: 6, msg: ServerMessage::Answer { from: 5, sdp } })
            if sdp == "a"
    ));
}

#[test]
fn a_player_who_has_too_much_relayed_leaves() {
    let mut s = player();
    let offer = || ClientMessage::PassOffer { to: 6, sdp: BoundedString("o".to_string()) };
    for _ in 0..40 {
        assert!(matches!(
            send(&mut s, offer()),
            Action::Execute(BlasterOperation::Relay { .. })
        ));
    }
    let a = send(&mut s, offer());
    let kick = Kick::violation("rate_limited", "Bandwidth patrol! (relays)");
    assert!(matches!(
        a,
        Action::Execute(BlasterOperation::RemovePlayer { pid: 5, reason: Some(k) }) if k == kick
    ));
    assert!(!s.stopped());
}

#[test]
fn sixty_payloads_can_be_sent_at_once() {
    let mut s = guest();
    for _ in 0..60 {
        assert!(matches!(send(&mut s, ClientMessage::Ping), Action::Rest));
    }
    let a = send(&mut s, ClientMessage::Ping);
    assert_eq!(
        dismissal(&a),
        Some(Kick::violation("rate_limited", "Bandwidth patrol! (payloads)"))
    );
    assert!(s.stopped());
}

#[test]
fn twelve_kilobytes_can_be_sent_at_once() {
    let mut s = guest();
    let ping = |len: usize| Event::Incoming { len, frame: Frame::Payload(ClientMessage::Ping) };
    assert!(matches!(s.handle(ping(12288), 0), Action::Rest));
    assert!(matches!(s.handle(ping(4096), SECOND), Action::Rest));
    let a = s.handle(ping(1), SECOND);
    assert_eq!(
        dismissal(&a),
        Some(Kick::violation("rate_limited", "Bandwidth patrol! (bandwidth)"))
    );
}

#[test]
fn frames_that_are_no_payloads() {
    let frame = |s: &mut Session, frame: Frame<ClientMessage>| {
        s.handle(Event::Incoming { len: 1, frame }, 0)
    };
    let mut s = guest();
    assert!(matches!(frame(&mut s, Frame::Other), Action::Rest));
    assert!(!s.stopped());
    assert!(matches!(frame(&mut s, Frame::Close), Action::Rest));
    assert!(s.stopped());
    let mut s = guest();
    assert_eq!(
        dismissal(&frame(&mut s, Frame::Garbled)),
        Some(Kick::violation("bad_json", "JSON parse error"))
    );
    let mut s = guest();
    assert_eq!(
        dismissal(&frame(&mut s, Frame::Binary)),
        Some(Kick::violation("binary_unsupported", "Binary messages not supported"))
    );
    let mut s = guest();
    assert!(matches!(s.handle(Event::Broken, 0), Action::Rest));
    assert!(s.stopped());
}

#[test]
fn idle_guests_go_and_idle_players_stay() {
    let mut s = guest();
    assert!(matches!(s.handle(Event::Idle, 0), Action::Rest));
    assert!(s.stopped());
    let mut s = player();
    assert!(matches!(s.handle(Event::Idle, 0), Action::Rest));
    assert!(!s.stopped());
}

#[test]
fn a_player_who_is_shown_the_door_leaves_for_that_reason() {
    let mut s = player();
    let kick = Kick::natural("kick", "Kicked by lobby's master");
    let a = s.handle(Event::Outgoing(ServerMessage::SetListed { listed: true }), 0);
    assert!(matches!(a, Action::Transmit(ServerMessage::SetListed { listed: true })));
    assert!(!s.stopped());
    let a = s.handle(Event::Outgoing(ServerMessage::Disconnected { reason: kick.clone() }), 0);
    assert_eq!(dismissal(&a), Some(kick.clone()));
    assert!(s.stopped());
    assert!(matches!(
        s.finish(),
        Some(BlasterOperation::RemovePlayer { pid: 5, reason: Some(k) }) if k == kick
    ));
    assert!(matches!(
        player().finish(),
        Some(BlasterOperation::RemovePlayer { pid: 5, reason: None })
    ));
}

#[test]
fn who_has_seen_the_lobbies_is_done() {
    let mut s = guest();
    let listing = LobbyListing { lid: 7, players: 1, max: 4, metadata: Metadata::new() };
    let a = s.listed(Some(Ok(vec![listing])));
    assert!(matches!(a, Action::Transmit(ServerMessage::List { list }) if list.len() == 1 && list[0].lid == 7));
    assert!(s.stopped());
    let mut s = guest();
    assert!(matches!(s.listed(None), Action::Rest));
    assert!(s.stopped());
    let mut s = guest();
    let kick = Kick::violation("rate_limited", "Sessions per IP cap");
    assert_eq!(dismissal(&s.listed(Some(Err(kick.clone())))), Some(kick));
    assert!(s.stopped());
}

#[test]
fn a_seat_is_given_or_refused() {
    let mut s = guest();
    assert!(matches!(s.seated(None), Action::Rest));
    assert!(!s.stopped());
    assert!(matches!(s.seated(Some(Ok(9))), Action::Rest));
    assert!(matches!(s.finish(), Some(BlasterOperation::RemovePlayer { pid: 9, .. })));
    let mut s = guest();
    let kick = Kick::violation("lobby_full", "Lobby is full");
    assert_eq!(dismissal(&s.seated(Some(Err(kick.clone())))), Some(kick));
    assert!(s.stopped());
    assert!(s.finish().is_none());
}
