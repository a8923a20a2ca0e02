use nutblaster::clock::{MILLISECOND, SECOND};
use nutblaster::frame::Frame;
use nutblaster::id::{GameId, LobbyId};
use nutblaster::mailbox::blaster::{BlasterImpl, BlasterOperation, Config, Reply};
use nutblaster::mailbox::connection::{first_swarm, Connection, Event, Pending, Step, SwarmRequest};
use nutblaster::protocol::aux::{deserialize_metadata, BoundedString, FieldKey, FieldValue, Metadata};
use nutblaster::protocol::payloads::{ClientMessage, Kick, ServerMessage};

fn lid(n: u64) -> LobbyId {
    LobbyId { lid: n, gid: GameId("game".to_string()) }
}

fn server() -> BlasterImpl {
    BlasterImpl::new(Config { ice_servers: vec!["stun:a".to_string()] })
}

/// Runs the dialogue between connection and server to its end.
fn settle(c: &mut Connection, s: &mut BlasterImpl, step: Result<Step, Kick>) -> Result<Step, Kick> {
    let mut step = step;
    loop {
        match step {
            Ok(Step::Ask(op, pending)) => {
                let reply = s.recv(op, 0);
                step = c.resume(pending, reply);
            }
            Ok(Step::Execute(op)) => {
                s.recv(op, 0);
                return Ok(Step::Continue);
            }
            Ok(Step::ExecuteBoth(op, then)) => {
                s.recv(op, 0);
                s.recv(then, 0);
                return Ok(Step::Continue);
            }
            other => return other,
        }
    }
}

fn say(c: &mut Connection, s: &mut BlasterImpl, msg: ClientMessage) -> Result<Step, Kick> {
    let step = c.handle_websock_msg(Event::Incoming(Frame::Payload(msg)));
    settle(c, s, step)
}

fn host(pid: u64, n: u64, capacity: usize) -> ClientMessage {
    ClientMessage::Host {
        pid,
        lid: lid(n),
        capacity,
        listed: true,
        player_meta: Metadata::new(),
        lobby_meta: Metadata::new(),
    }
}

fn join(pid: u64, n: u64) -> ClientMessage {
    ClientMessage::Join { pid, lid: lid(n), player_meta: Metadata::new() }
}

fn swarm(pid: u64) -> ClientMessage {
    ClientMessage::Swarm {
        pid,
        gid: GameId("game".to_string()),
        player_meta: Metadata::new(),
        lobby_meta: Metadata::new(),
    }
}

fn kick_of(r: Result<Step, Kick>) -> Option<Kick> {
    r.err()
}

fn bad_payload() -> Option<Kick> {
    Some(Kick::violation("bad_payload", "Invalid payload"))
}

fn goes_on(r: Result<Step, Kick>) -> bool {
    matches!(r, Ok(Step::Continue))
}

fn yes(s: &mut BlasterImpl, op: BlasterOperation) -> bool {
    matches!(s.recv(op, 0), Reply::Answer(true))
}

fn fetch(s: &mut BlasterImpl, c: &mut Connection) -> Vec<ServerMessage> {
    match c.flush_op() {
        Some(op) => match s.recv(op, 0) {
            Reply::Queue(q) => c.flush(q),
            _ => panic!("no answer"),
        },
        None => Vec::new(),
    }
}

#[test]
fn hosting_opens_a_lobby() {
    let mut s = server();
    let mut c = Connection::new();
    assert!(c.flush_op().is_none());
    assert!(c.timer_op().is_none());
    assert!(goes_on(say(&mut c, &mut s, host(1, 7, 4))));
    assert!(yes(&mut s, BlasterOperation::HasLobby { lid: lid(7) }));
    assert!(yes(&mut s, BlasterOperation::HasPlayer { pid: 1 }));
    assert!(matches!(s.recv(BlasterOperation::MasterOf { lid: lid(7) }, 0), Reply::Master(Some(1))));
    assert!(matches!(
        fetch(&mut s, &mut c).last(),
        Some(ServerMessage::Connected { ice_servers }) if ice_servers.len() == 1
    ));
    assert!(matches!(
        c.timer_op(),
        Some(BlasterOperation::AdvanceLobbyTimer { lid: LobbyId { lid: 7, .. } })
    ));
}

#[test]
fn hosting_is_refused_for_a_reason() {
    let mut s = server();
    let mut c = Connection::new();
    assert_eq!(kick_of(say(&mut c, &mut s, host(1, 7, 0))), bad_payload());
    assert_eq!(kick_of(say(&mut c, &mut s, host(1, 7, 17))), bad_payload());
    assert!(goes_on(say(&mut c, &mut s, host(1, 7, 4))));
    // whoever plays a player cannot be another
    assert_eq!(kick_of(say(&mut c, &mut s, host(2, 8, 4))), bad_payload());
    assert_eq!(kick_of(say(&mut c, &mut s, join(2, 7))), bad_payload());
    assert_eq!(kick_of(say(&mut c, &mut s, swarm(2))), bad_payload());
    // nor somebody else's
    let mut d = Connection::new();
    assert_eq!(kick_of(say(&mut d, &mut s, host(1, 8, 4))), bad_payload());
    let mut d = Connection::new();
    assert_eq!(
        kick_of(say(&mut d, &mut s, host(2, 7, 4))),
        Some(Kick::violation("lobby_exists", "Lobby already exists"))
    );
    let mut d = Connection::new();
    let nameless = ClientMessage::Join {
        pid: 3,
        lid: LobbyId { lid: 7, gid: GameId(String::new()) },
        player_meta: Metadata::new(),
    };
    assert_eq!(kick_of(say(&mut d, &mut s, nameless)), bad_payload());
    let many = (0..16).map(|i| (format!("k{i}"), String::new())).collect();
    let crowded = ClientMessage::Join {
        pid: 3,
        lid: lid(7),
        player_meta: deserialize_metadata(many).unwrap(),
    };
    assert_eq!(kick_of(say(&mut d, &mut s, crowded)), bad_payload());
}

#[test]
fn joining_needs_a_lobby_with_room() {
    let mut s = server();
    let mut a = Connection::new();
    assert!(goes_on(say(&mut a, &mut s, host(1, 7, 2))));
    let mut b = Connection::new();
    assert!(goes_on(say(&mut b, &mut s, join(2, 7))));
    let mut c = Connection::new();
    assert_eq!(
        kick_of(say(&mut c, &mut s, join(3, 7))),
        Some(Kick::violation("lobby_full", "Lobby is full"))
    );
    let mut c = Connection::new();
    assert_eq!(
        kick_of(say(&mut c, &mut s, join(3, 8))),
        Some(Kick::violation("lobby_not_found", "Lobby not found"))
    );
    let mut c = Connection::new();
    assert!(goes_on(say(&mut c, &mut s, swarm(4))));
    let mut d = Connection::new();
    let into_swarm = ClientMessage::Join {
        pid: 5,
        lid: first_swarm(GameId("game".to_string())),
        player_meta: Metadata::new(),
    };
    assert_eq!(
        kick_of(say(&mut d, &mut s, into_swarm)),
        Some(Kick::violation("lobby_not_found", "Lobby not found"))
    );
}

#[test]
fn swarms_are_named_after_the_hash_of_the_game() {
    let number = |gid: &str| first_swarm(GameId(gid.to_string())).lid;
    assert_eq!(number(""), 0xcbf29ce484222325);
    assert_eq!(number("a"), 0xaf63dc4c8601ec8c);
    assert_eq!(number("foobar"), 0x85944171f73967e8);
    assert_eq!(first_swarm(GameId("a".to_string())).gid.0, "a");
}

#[test]
fn a_swarm_that_is_full_is_followed_by_another() {
    let mut s = server();
    let first = first_swarm(GameId("game".to_string()));
    let second = LobbyId { lid: first.lid + 1, gid: GameId("game".to_string()) };
    for pid in 0..16 {
        let mut c = Connection::new();
        assert!(goes_on(say(&mut c, &mut s, swarm(pid))));
    }
    assert!(yes(&mut s, BlasterOperation::LobbyFull { lid: first.clone() }));
    assert!(!yes(&mut s, BlasterOperation::HasLobby { lid: second.clone() }));
    let mut c = Connection::new();
    assert!(goes_on(say(&mut c, &mut s, swarm(16))));
    assert!(yes(&mut s, BlasterOperation::LobbyIsSwarm { lid: second.clone() }));
    assert!(matches!(
        s.recv(BlasterOperation::MasterOf { lid: second }, 0),
        Reply::Master(Some(16))
    ));
    let mut d = Connection::new();
    let req = SwarmRequest {
        pid: 20,
        lid: first.clone(),
        player_meta: Metadata::new(),
        lobby_meta: Metadata::new(),
    };
    assert!(matches!(
        d.resume(Pending::SwarmFull(req), Reply::Answer(true)),
        Ok(Step::Ask(BlasterOperation::LobbyFull { lid }, Pending::SwarmFull(_))) if lid.lid == first.lid + 1
    ));
}

#[test]
fn only_the_master_commands() {
    let mut s = server();
    let mut a = Connection::new();
    let mut b = Connection::new();
    assert!(goes_on(say(&mut a, &mut s, host(1, 7, 4))));
    assert!(goes_on(say(&mut b, &mut s, join(2, 7))));
    fetch(&mut s, &mut a);
    fetch(&mut s, &mut b);
    let key = || FieldKey("k".to_string());
    let value = || FieldValue("v".to_string());
    let commands = || {
        vec![
            ClientMessage::SetListed { listed: false },
            ClientMessage::SetCapacity { capacity: 9 },
            ClientMessage::SetLobbyMeta { key: key(), value: value() },
            ClientMessage::EraseLobbyMeta { key: key() },
            ClientMessage::SetMaster { pid: 2 },
        ]
    };
    for msg in commands() {
        assert!(goes_on(say(&mut b, &mut s, msg)));
    }
    assert!(goes_on(say(&mut b, &mut s, ClientMessage::Kick { pid: 1 })));
    assert!(fetch(&mut s, &mut a).is_empty());
    for msg in commands() {
        assert!(goes_on(say(&mut a, &mut s, msg)));
    }
    let news = fetch(&mut s, &mut b);
    assert_eq!(news.len(), 5);
    assert!(matches!(news[0], ServerMessage::SetListed { listed: false }));
    assert!(matches!(news[1], ServerMessage::SetCapacity { capacity: 9 }));
    assert!(matches!(news[4], ServerMessage::SetMaster { pid: 2 }));
    assert!(goes_on(say(&mut b, &mut s, ClientMessage::Kick { pid: 2 })));
    assert!(fetch(&mut s, &mut b).is_empty());
    assert!(goes_on(say(&mut b, &mut s, ClientMessage::Kick { pid: 1 })));
    assert!(matches!(fetch(&mut s, &mut a).last(), Some(ServerMessage::Disconnected { .. })));
}

#[test]
fn fields_are_set_and_erased_over_a_connection() {
    let mut s = server();
    let mut a = Connection::new();
    assert!(goes_on(say(&mut a, &mut s, host(1, 7, 4))));
    fetch(&mut s, &mut a);
    let key = FieldKey("k".to_string());
    let set = ClientMessage::SetPlayerMeta { key: key.clone(), value: FieldValue("v".to_string()) };
    assert!(goes_on(say(&mut a, &mut s, set)));
    assert!(goes_on(say(&mut a, &mut s, ClientMessage::ErasePlayerMeta { key })));
    assert_eq!(fetch(&mut s, &mut a).len(), 2);
    let empty = || FieldKey(String::new());
    let long = || FieldValue("v".repeat(8192));
    for msg in [
        ClientMessage::SetPlayerMeta { key: empty(), value: FieldValue(String::new()) },
        ClientMessage::SetPlayerMeta { key: FieldKey("k".to_string()), value: long() },
        ClientMessage::ErasePlayerMeta { key: empty() },
        ClientMessage::SetLobbyMeta { key: empty(), value: FieldValue(String::new()) },
        ClientMessage::SetLobbyMeta { key: FieldKey("k".to_string()), value: long() },
        ClientMessage::EraseLobbyMeta { key: empty() },
    ] {
        assert_eq!(kick_of(say(&mut a, &mut s, msg)), bad_payload());
    }
}

#[test]
fn messages_are_passed_on() {
    let mut s = server();
    let mut a = Connection::new();
    let mut b = Connection::new();
    assert!(goes_on(say(&mut a, &mut s, host(1, 7, 4))));
    assert!(goes_on(say(&mut b, &mut s, join(2, 7))));
    fetch(&mut s, &mut b);
    let text = |t: &str| BoundedString(t.to_string());
    assert!(goes_on(say(&mut a, &mut s, ClientMessage::PassOffer { to: 2, sdp: text("o") })));
    assert!(goes_on(say(&mut a, &mut s, ClientMessage::PassAnswer { to: 2, sdp: text("a") })));
    let candidate = ClientMessage::PassCandidate { to: 2, candidate: text("c"), mid: text("m") };
    assert!(goes_on(say(&mut a, &mut s, candidate)));
    let got = fetch(&mut s, &mut b);
    assert!(matches!(&got[0], ServerMessage::Offer { from: 1, sdp } if sdp == "o"));
    assert!(matches!(&got[1], ServerMessage::Answer { from: 1, sdp } if sdp == "a"));
    assert!(matches!(&got[2], ServerMessage::Candidate { from: 1, candidate, mid } if candidate == "c" && mid == "m"));
    assert!(goes_on(say(&mut b, &mut s, ClientMessage::Ping)));
    assert!(matches!(fetch(&mut s, &mut b)[0], ServerMessage::Pong));
}

#[test]
fn who_plays_no_player_can_ask_for_little() {
    let mut s = server();
    let text = |t: &str| BoundedString(t.to_string());
    for msg in [
        ClientMessage::SetListed { listed: true },
        ClientMessage::SetCapacity { capacity: 3 },
        ClientMessage::SetPlayerMeta {
            key: FieldKey("k".to_string()),
            value: FieldValue("v".to_string()),
        },
        ClientMessage::ErasePlayerMeta { key: FieldKey("k".to_string()) },
        ClientMessage::SetLobbyMeta {
            key: FieldKey("k".to_string()),
            value: FieldValue("v".to_string()),
        },
        ClientMessage::EraseLobbyMeta { key: FieldKey("k".to_string()) },
        ClientMessage::PassCandidate { to: 1, candidate: text("c"), mid: text("m") },
        ClientMessage::PassOffer { to: 1, sdp: text("o") },
        ClientMessage::PassAnswer { to: 1, sdp: text("a") },
        ClientMessage::Kick { pid: 1 },
        ClientMessage::SetMaster { pid: 1 },
    ] {
        let mut c = Connection::new();
        assert_eq!(kick_of(say(&mut c, &mut s, msg)), bad_payload());
    }
    let mut c = Connection::new();
    assert!(goes_on(say(&mut c, &mut s, ClientMessage::Ping)));
    let mut a = Connection::new();
    assert!(goes_on(say(&mut a, &mut s, host(1, 7, 4))));
    let list = ClientMessage::List { gid: GameId("game".to_string()), limit: 5 };
    assert!(matches!(
        say(&mut c, &mut s, list),
        Ok(Step::Show(ServerMessage::List { list })) if list.len() == 1 && list[0].lid == 7
    ));
}

#[test]
fn a_kick_without_a_master_backfires() {
    let mut s = server();
    let mut a = Connection::new();
    assert!(goes_on(say(&mut a, &mut s, host(1, 7, 4))));
    s.recv(BlasterOperation::RemovePlayer { lid: lid(7), pid: 1, reason: None }, 0);
    assert_eq!(kick_of(say(&mut a, &mut s, ClientMessage::Kick { pid: 2 })), bad_payload());
}

#[test]
fn no_answer_is_no_yes() {
    let mut c = Connection::new();
    let step = c.handle_websock_msg(Event::Incoming(Frame::Payload(join(1, 7))));
    let pending = match step {
        Ok(Step::Ask(BlasterOperation::HasPlayer { pid: 1 }, pending)) => pending,
        _ => panic!("no question"),
    };
    let pending = match c.resume(pending, Reply::Nothing) {
        Ok(Step::Ask(BlasterOperation::HasLobby { .. }, pending)) => pending,
        _ => panic!("no question"),
    };
    assert_eq!(
        kick_of(c.resume(pending, Reply::Nothing)),
        Some(Kick::violation("lobby_not_found", "Lobby not found"))
    );
    assert!(matches!(
        c.resume(Pending::Listing, Reply::Nothing),
        Ok(Step::Show(ServerMessage::List { list })) if list.is_empty()
    ));
    assert_eq!(Connection::timed(Reply::Nothing), Ok(()));
    let kick = Kick::natural("inactive_lobby", "Inactive lobby");
    assert_eq!(Connection::timed(Reply::Timer(Err(kick.clone()))), Err(kick));
}

#[test]
fn twenty_nine_payloads_can_be_sent_at_once() {
    let mut s = server();
    let mut c = Connection::new();
    for _ in 0..29 {
        assert!(goes_on(say(&mut c, &mut s, ClientMessage::Ping)));
    }
    assert_eq!(
        kick_of(say(&mut c, &mut s, ClientMessage::Ping)),
        Some(Kick::violation("rate_limited", "Too many payloads"))
    );
}

#[test]
fn time_makes_up_for_payloads() {
    let mut s = server();
    let mut c = Connection::new();
    for i in 0..300u64 {
        assert!(goes_on(say(&mut c, &mut s, ClientMessage::Ping)));
        c.advance(i * 34 * MILLISECOND, (i + 1) * 34 * MILLISECOND);
    }
    for _ in 0..29 {
        assert!(goes_on(say(&mut c, &mut s, ClientMessage::Ping)));
    }
    c.advance(0, SECOND);
    assert!(goes_on(say(&mut c, &mut s, ClientMessage::Ping)));
}

#[test]
fn connections_get_frames_that_are_no_payloads() {
    let frame = |f: Frame<ClientMessage>| Connection::new().handle_websock_msg(Event::Incoming(f));
    assert!(matches!(frame(Frame::Other), Ok(Step::Continue)));
    assert!(matches!(frame(Frame::Close), Ok(Step::Stop)));
    assert_eq!(
        kick_of(frame(Frame::Garbled)),
        Some(Kick::violation("bad_json", "JSON parse error"))
    );
    assert_eq!(
        kick_of(frame(Frame::Binary)),
        Some(Kick::violation("binary_unsupported", "Binary messages not supported"))
    );
    assert!(matches!(Connection::new().handle_websock_msg(Event::Broken), Ok(Step::Stop)));
    assert!(matches!(Connection::new().handle_websock_msg(Event::Tick), Ok(Step::Continue)));
}

#[test]
fn nothing_is_sent_after_the_farewell() {
    let mut c = Connection::new();
    let bye = || ServerMessage::Disconnected { reason: Kick::natural("kick", "Bye") };
    let sent = c.flush(vec![ServerMessage::Pong, bye(), ServerMessage::Pong, bye()]);
    assert_eq!(sent.len(), 2);
    assert!(matches!(sent[0], ServerMessage::Pong));
    assert!(matches!(sent[1], ServerMessage::Disconnected { .. }));
    let mut c = Connection::new();
    assert_eq!(c.flush(vec![ServerMessage::Pong, ServerMessage::Pong]).len(), 2);
    assert!(c.flush(vec![]).is_empty());
}

#[test]
fn a_player_leaves_for_the_reason_they_were_told() {
    let mut s = server();
    let mut c = Connection::new();
    assert!(goes_on(say(&mut c, &mut s, host(1, 7, 4))));
    let kick = Kick::violation("rate_limited", "Too many payloads");
    let bye = c.dismiss(kick.clone());
    assert!(matches!(bye, ServerMessage::Disconnected { reason } if reason == kick));
    let (leave, cleanup) = c.finish();
    assert!(matches!(
        leave,
        Some(BlasterOperation::RemovePlayer { lid: LobbyId { lid: 7, .. }, pid: 1, reason: Some(k) }) if k == kick
    ));
    assert!(matches!(cleanup, BlasterOperation::CleanupLobbies));
    let (leave, _) = Connection::new().finish();
    assert!(leave.is_none());
}
