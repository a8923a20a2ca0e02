use nutblaster::clock::SECOND;
use nutblaster::id::{GameId, LobbyId};
use nutblaster::mailbox::blaster::{BlasterImpl, BlasterOperation, Config, Lobby, Reply};
use nutblaster::protocol::aux::{deserialize_metadata, Metadata};
use nutblaster::protocol::payloads::{Kick, ServerMessage};
use nutblaster::MAX_PLAYERS;

fn lid(n: u64) -> LobbyId {
    LobbyId { lid: n, gid: GameId("game".to_string()) }
}

fn meta(fields: &[(&str, &str)]) -> Metadata {
    let fields = fields.iter().map(|f| (f.0.to_string(), f.1.to_string())).collect();
    deserialize_metadata(fields).unwrap()
}

fn said(m: &Metadata) -> Vec<(String, String)> {
    let mut all = Vec::new();
    for i in 0..m.0.len() {
        all.push((m.0.key_at(i).clone(), m.0.value_at(i).clone()));
    }
    all
}

fn line(m: &ServerMessage) -> String {
    match m {
        ServerMessage::Pong => "pong".to_string(),
        ServerMessage::Connected { ice_servers } => format!("connected {}", ice_servers.join(" ")),
        ServerMessage::Disconnected { reason } => format!("disconnected {:?}", reason),
        ServerMessage::SetListed { listed } => format!("listed {}", listed),
        ServerMessage::SetCapacity { capacity } => format!("capacity {}", capacity),
        ServerMessage::SetPlayerMeta { pid, key, value } => format!("{} {}={}", pid, key, value),
        ServerMessage::ErasePlayerMeta { pid, key } => format!("{} {}", pid, key),
        ServerMessage::SetLobbyMeta { key, value } => format!("lobby {}={}", key, value),
        ServerMessage::EraseLobbyMeta { key } => format!("lobby {}", key),
        ServerMessage::SetMaster { pid } => format!("master {}", pid),
        ServerMessage::Joined { pid, meta } => format!("joined {} {:?}", pid, said(meta)),
        ServerMessage::Left { pid, reason } => format!("left {} {:?}", pid, reason),
        ServerMessage::Candidate { from, candidate, mid } => {
            format!("candidate {} {} {}", from, candidate, mid)
        }
        ServerMessage::Offer { from, sdp } => format!("offer {} {}", from, sdp),
        ServerMessage::Answer { from, sdp } => format!("answer {} {}", from, sdp),
        ServerMessage::List { list } => format!("list {}", list.len()),
    }
}

fn server() -> BlasterImpl {
    BlasterImpl::new(Config { ice_servers: vec!["stun:a".to_string(), "stun:b".to_string()] })
}

fn run(s: &mut BlasterImpl, op: BlasterOperation) {
    assert!(matches!(s.recv(op, 0), Reply::Nothing));
}

fn yes(s: &mut BlasterImpl, op: BlasterOperation) -> bool {
    match s.recv(op, 0) {
        Reply::Answer(b) => b,
        _ => panic!("no answer"),
    }
}

fn fetch(s: &mut BlasterImpl, pid: u64) -> Vec<String> {
    match s.recv(BlasterOperation::FlushPlayerQueue { pid }, 0) {
        Reply::Queue(q) => q.iter().map(line).collect(),
        _ => panic!("no answer"),
    }
}

fn master(s: &mut BlasterImpl, n: u64) -> Option<u64> {
    match s.recv(BlasterOperation::MasterOf { lid: lid(n) }, 0) {
        Reply::Master(m) => m,
        _ => panic!("no answer"),
    }
}

fn open(s: &mut BlasterImpl, n: u64, pid: u64, capacity: usize, listed: bool) {
    let lobby = Lobby::ugly_new(pid, meta(&[("mode", "fast")]), capacity, listed);
    run(s, BlasterOperation::InsertLobby { lid: lid(n), lobby });
    enter(s, n, pid);
}

fn enter(s: &mut BlasterImpl, n: u64, pid: u64) {
    let player_meta = meta(&[("name", "x")]);
    run(s, BlasterOperation::IntroducePlayer { pid, lid: lid(n), player_meta });
}

/// A server with a lobby 7 that 1, 2 and 3 are in, all messages fetched.
fn populated() -> BlasterImpl {
    let mut s = server();
    open(&mut s, 7, 1, 4, true);
    enter(&mut s, 7, 2);
    enter(&mut s, 7, 3);
    for pid in 1..4 {
        fetch(&mut s, pid);
    }
    s
}

#[test]
fn newcomers_are_greeted_and_announced() {
    let mut s = server();
    open(&mut s, 7, 1, 4, true);
    assert_eq!(
        fetch(&mut s, 1),
        vec!["listed true", "capacity 4", "lobby mode=fast", "master 1", "connected stun:a stun:b"]
    );
    assert!(fetch(&mut s, 1).is_empty());
    enter(&mut s, 7, 2);
    assert_eq!(fetch(&mut s, 1), vec!["joined 2 [(\"name\", \"x\")]"]);
    assert_eq!(
        fetch(&mut s, 2),
        vec![
            "listed true",
            "capacity 4",
            "lobby mode=fast",
            "joined 1 [(\"name\", \"x\")]",
            "master 1",
            "connected stun:a stun:b"
        ]
    );
    enter(&mut s, 9, 5);
    assert!(!yes(&mut s, BlasterOperation::HasPlayer { pid: 5 }));
    assert!(fetch(&mut s, 5).is_empty());
}

#[test]
fn questions_are_answered() {
    let mut s = populated();
    assert!(yes(&mut s, BlasterOperation::HasLobby { lid: lid(7) }));
    assert!(!yes(&mut s, BlasterOperation::HasLobby { lid: lid(8) }));
    assert!(yes(&mut s, BlasterOperation::HasPlayer { pid: 2 }));
    assert!(!yes(&mut s, BlasterOperation::HasPlayer { pid: 4 }));
    assert!(!yes(&mut s, BlasterOperation::LobbyFull { lid: lid(7) }));
    assert!(!yes(&mut s, BlasterOperation::LobbyFull { lid: lid(8) }));
    enter(&mut s, 7, 4);
    assert!(yes(&mut s, BlasterOperation::LobbyFull { lid: lid(7) }));
    assert!(!yes(&mut s, BlasterOperation::LobbyIsSwarm { lid: lid(7) }));
    assert!(!yes(&mut s, BlasterOperation::LobbyIsSwarm { lid: lid(8) }));
    let lobby = Lobby::new_swarm(9, meta(&[]));
    assert_eq!((lobby.capacity, lobby.listed, lobby.swarm), (MAX_PLAYERS, false, true));
    run(&mut s, BlasterOperation::InsertLobby { lid: lid(8), lobby });
    assert!(yes(&mut s, BlasterOperation::LobbyIsSwarm { lid: lid(8) }));
    assert_eq!(master(&mut s, 7), Some(1));
    assert_eq!(master(&mut s, 8), None);
    assert_eq!(master(&mut s, 6), None);
}

#[test]
fn settings_change_for_all() {
    let mut s = populated();
    run(&mut s, BlasterOperation::SetLobbyCapacity { lid: lid(7), capacity: 9 });
    run(&mut s, BlasterOperation::SetLobbyListed { lid: lid(7), listed: false });
    run(&mut s, BlasterOperation::SetLobbyCapacity { lid: lid(8), capacity: 9 });
    run(&mut s, BlasterOperation::SetLobbyListed { lid: lid(8), listed: false });
    for pid in 1..4 {
        assert_eq!(fetch(&mut s, pid), vec!["capacity 9", "listed false"]);
    }
}

#[test]
fn fields_are_set_and_erased() {
    let mut s = populated();
    let (k, v) = ("map".to_string(), "moon".to_string());
    run(&mut s, BlasterOperation::SetLobbyMeta { lid: lid(7), key: k.clone(), value: v.clone() });
    run(&mut s, BlasterOperation::SetPlayerMeta { pid: 2, key: k.clone(), value: v.clone() });
    run(&mut s, BlasterOperation::ErasePlayerMeta { pid: 2, key: k.clone() });
    run(&mut s, BlasterOperation::ErasePlayerMeta { pid: 2, key: k.clone() });
    run(&mut s, BlasterOperation::EraseLobbyMeta { lid: lid(7), key: k.clone() });
    run(&mut s, BlasterOperation::EraseLobbyMeta { lid: lid(7), key: k.clone() });
    run(&mut s, BlasterOperation::SetPlayerMeta { pid: 9, key: k.clone(), value: v.clone() });
    run(&mut s, BlasterOperation::SetLobbyMeta { lid: lid(8), key: k, value: v });
    for pid in 1..4 {
        assert_eq!(fetch(&mut s, pid), vec!["lobby map=moon", "2 map=moon", "2 map", "lobby map"]);
    }
}

#[test]
fn a_lobby_has_sixteen_fields() {
    let mut s = populated();
    for i in 0..20 {
        let op = BlasterOperation::SetLobbyMeta { lid: lid(7), key: format!("k{i}"), value: String::new() };
        run(&mut s, op);
    }
    // one was there before
    assert_eq!(fetch(&mut s, 1).len(), 15);
    let op = BlasterOperation::SetLobbyMeta {
        lid: lid(7),
        key: "mode".to_string(),
        value: "slow".to_string(),
    };
    run(&mut s, op);
    assert_eq!(fetch(&mut s, 1), vec!["lobby mode=slow"]);
}

#[test]
fn the_post_of_master_is_handed_on_by_the_master() {
    let mut s = populated();
    let hand = |a: u64, b: u64| BlasterOperation::SetLobbyMaster { initiator_pid: a, new_master_pid: b };
    run(&mut s, hand(2, 3));
    run(&mut s, hand(1, 1));
    run(&mut s, hand(1, 9));
    assert_eq!(master(&mut s, 7), Some(1));
    assert!(fetch(&mut s, 3).is_empty());
    run(&mut s, hand(1, 3));
    assert_eq!(master(&mut s, 7), Some(3));
    assert_eq!(fetch(&mut s, 2), vec!["master 3"]);
}

#[test]
fn the_longest_in_the_lobby_takes_over() {
    let mut s = populated();
    let reason = Some(Kick::natural("bye", "Bye"));
    run(&mut s, BlasterOperation::RemovePlayer { lid: lid(7), pid: 1, reason: reason.clone() });
    let left = format!("left 1 {:?}", reason);
    assert_eq!(fetch(&mut s, 2), vec![left.clone(), "master 2".to_string()]);
    assert_eq!(fetch(&mut s, 3), vec![left, "master 2".to_string()]);
    run(&mut s, BlasterOperation::RemovePlayer { lid: lid(7), pid: 3, reason: None });
    assert_eq!(fetch(&mut s, 2), vec!["left 3 None", "master 2"]);
}

#[test]
fn players_are_kicked_from_their_own_lobby() {
    let mut s = populated();
    run(&mut s, BlasterOperation::KickPlayer { lid: lid(8), pid: 2 });
    run(&mut s, BlasterOperation::KickPlayer { lid: lid(7), pid: 9 });
    assert!(fetch(&mut s, 2).is_empty());
    run(&mut s, BlasterOperation::KickPlayer { lid: lid(7), pid: 2 });
    let kick = Kick::natural("kick", "Kicked by lobby's master");
    assert_eq!(fetch(&mut s, 2), vec![format!("disconnected {:?}", kick)]);
    assert!(fetch(&mut s, 3).is_empty());
}

#[test]
fn messages_wait_in_order() {
    let mut s = populated();
    run(&mut s, BlasterOperation::SendTo { pid: 2, msg: ServerMessage::Pong });
    let msg = ServerMessage::Offer { from: 1, sdp: "o".to_string() };
    run(&mut s, BlasterOperation::SendTo { pid: 2, msg });
    run(&mut s, BlasterOperation::SendTo { pid: 9, msg: ServerMessage::Pong });
    assert_eq!(fetch(&mut s, 2), vec!["pong", "offer 1 o"]);
    assert!(fetch(&mut s, 2).is_empty());
    assert!(fetch(&mut s, 1).is_empty());
}

#[test]
fn lobbies_that_nobody_is_in_are_dropped() {
    let mut s = populated();
    open(&mut s, 8, 5, 4, true);
    run(&mut s, BlasterOperation::RemovePlayer { lid: lid(8), pid: 5, reason: None });
    assert!(yes(&mut s, BlasterOperation::HasLobby { lid: lid(8) }));
    run(&mut s, BlasterOperation::CleanupLobbies);
    assert!(!yes(&mut s, BlasterOperation::HasLobby { lid: lid(8) }));
    assert!(yes(&mut s, BlasterOperation::HasLobby { lid: lid(7) }));
    run(&mut s, BlasterOperation::CleanupLobbies);
    assert_eq!(s.lobbies.len(), 1);
}

#[test]
fn listed_lobbies_that_are_not_full_are_shown() {
    let mut s = populated();
    open(&mut s, 8, 5, 1, true);
    open(&mut s, 9, 6, 4, false);
    let lobby = Lobby { listed: true, ..Lobby::new_swarm(9, meta(&[])) };
    run(&mut s, BlasterOperation::InsertLobby { lid: lid(10), lobby });
    open(&mut s, 11, 11, 2, true);
    let mut list = |limit: usize| match s.recv(
        BlasterOperation::ListLobbies { gid: GameId("game".to_string()), limit },
        0,
    ) {
        Reply::Listing(l) => l,
        _ => panic!("no answer"),
    };
    let all = list(1000);
    assert_eq!(all.len(), 2);
    assert_eq!((all[0].lid, all[0].players, all[0].max), (7, 3, 4));
    assert_eq!(said(&all[0].meta), vec![("mode".to_string(), "fast".to_string())]);
    assert_eq!((all[1].lid, all[1].players, all[1].max), (11, 1, 2));
    assert_eq!(list(0).len(), 1);
    assert_eq!(list(1).len(), 1);
}

#[test]
fn a_lobby_that_is_opened_again_is_shown_once() {
    let mut s = server();
    open(&mut s, 3, 30, 4, true);
    open(&mut s, 4, 40, 4, true);
    open(&mut s, 3, 31, 8, true);
    let op = BlasterOperation::ListLobbies { gid: GameId("game".to_string()), limit: 100 };
    match s.recv(op, 0) {
        Reply::Listing(l) => {
            assert_eq!(l.iter().map(|e| (e.lid, e.players, e.max)).collect::<Vec<_>>(), vec![(3, 2, 8), (4, 1, 4)]);
        }
        _ => panic!("no answer"),
    }
}

#[test]
fn a_hundred_lobbies_are_shown() {
    let mut s = server();
    for i in 0..120 {
        open(&mut s, i, 1000 + i, 4, true);
    }
    let op = BlasterOperation::ListLobbies { gid: GameId("game".to_string()), limit: 500 };
    assert!(matches!(s.recv(op, 0), Reply::Listing(l) if l.len() == 100));
}

#[test]
fn loners_time_out_after_ten_minutes() {
    let mut s = server();
    open(&mut s, 7, 1, 4, true);
    let mut look = |s: &mut BlasterImpl, now: u64| {
        match s.recv(BlasterOperation::AdvanceLobbyTimer { lid: lid(7) }, now) {
            Reply::Timer(r) => r,
            _ => panic!("no answer"),
        }
    };
    assert_eq!(look(&mut s, 5 * SECOND), Ok(()));
    assert_eq!(look(&mut s, 605 * SECOND - 1), Ok(()));
    let kick = Kick::natural("inactive_lobby", "Inactive lobby");
    assert_eq!(look(&mut s, 605 * SECOND), Err(kick.clone()));
    enter(&mut s, 7, 2);
    assert_eq!(look(&mut s, 606 * SECOND), Ok(()));
    run(&mut s, BlasterOperation::RemovePlayer { lid: lid(7), pid: 2, reason: None });
    assert_eq!(look(&mut s, 607 * SECOND), Ok(()));
    assert_eq!(look(&mut s, 1206 * SECOND), Ok(()));
    assert_eq!(look(&mut s, 1207 * SECOND), Err(kick));
    assert!(matches!(
        s.recv(BlasterOperation::AdvanceLobbyTimer { lid: lid(9) }, 0),
        Reply::Nothing
    ));
}
