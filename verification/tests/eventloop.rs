use nutblaster::blaster::eventloop::{BlasterEventLoop, Delivery, Reply};
use nutblaster::blaster::payloads::{LobbyListing, ServerMessage};
use nutblaster::blaster::{BlasterOperation, Config, Credentials, IceServer};
use nutblaster::clock::{MILLISECOND, SECOND};
use nutblaster::id::{GameId, IpAddr, LobbyId};
use nutblaster::protocol::aux::{deserialize_metadata, Metadata};
use nutblaster::protocol::payloads::Kick;
use nutblaster::tokens::TokenBucket;

const LOOPBACK: IpAddr = IpAddr::V4(0x7f00_0001);
const OTHER: IpAddr = IpAddr::V6(1);

fn gid() -> GameId {
    GameId("game".to_string())
}

fn lobby(lid: u64) -> LobbyId {
    LobbyId { lid, gid: gid() }
}

fn meta(fields: &[(&str, &str)]) -> Metadata {
    let fields = fields.iter().map(|f| (f.0.to_string(), f.1.to_string())).collect();
    deserialize_metadata(fields).unwrap()
}

fn said(m: &Metadata) -> Vec<(String, String)> {
    let mut all = Vec::new();
    for i in 0..m.0.len() {
        all.push((m.0.key_at(i).clone(), m.0.value_at(i).clone()));
    }
    all
}

fn server() -> BlasterEventLoop {
    let ice = IceServer {
        urls: "stun:stun.example.org".to_string(),
        creds: Some(Credentials {
            username: "u".to_string(),
            credential: "c".to_string(),
        }),
    };
    let config = Config { ice_servers: vec![ice], trust_reverse_proxy_xff: None };
    BlasterEventLoop::new(config)
}

fn introduce(s: &mut BlasterEventLoop, ip: IpAddr, now: u64) -> bool {
    match s.recv(BlasterOperation::IntroduceSession { ip }, now) {
        Reply::Introduced(b) => b,
        _ => panic!("no answer"),
    }
}

fn host(s: &mut BlasterEventLoop, ip: IpAddr, capacity: usize, listed: bool, lid: u64, pid: u64, now: u64) -> Result<u64, Kick> {
    s.host_lobby(
        ip,
        gid(),
        meta(&[("mode", "fast")]),
        capacity,
        listed,
        meta(&[("name", "host")]),
        lid,
        pid,
        now,
    )
}

fn join(s: &mut BlasterEventLoop, ip: IpAddr, lid: u64, pid: u64, now: u64) -> Result<u64, Kick> {
    s.join_lobby(ip, lobby(lid), meta(&[("name", "guest")]), pid, now)
}

fn list(s: &mut BlasterEventLoop, ip: IpAddr, limit: usize, now: u64) -> Result<Vec<LobbyListing>, Kick> {
    match s.recv(BlasterOperation::ListLobbies { ip, gid: gid(), limit }, now) {
        Reply::Listing(r) => r,
        _ => panic!("no answer"),
    }
}

fn told(mail: &Vec<Delivery>, pid: u64) -> Vec<String> {
    let mut all = Vec::new();
    for d in mail {
        if d.pid == pid {
            for m in &d.msgs {
                all.push(line(m));
            }
        }
    }
    all
}

fn line(m: &ServerMessage) -> String {
    match m {
        ServerMessage::Pong => "pong".to_string(),
        ServerMessage::Connected { ice_servers, lid, pid, birth } => {
            format!("connected {} {} {} {}", ice_servers[0].urls, lid, pid, birth)
        }
        ServerMessage::Disconnected { reason } => format!("disconnected {:?}", reason),
        ServerMessage::SetListed { listed } => format!("listed {}", listed),
        ServerMessage::SetCapacity { capacity } => format!("capacity {}", capacity),
        ServerMessage::SetPlayerMeta { pid, key, value } => format!("{} {}={}", pid, key, value),
        ServerMessage::ErasePlayerMeta { pid, key } => format!("{} {}", pid, key),
        ServerMessage::SetLobbyMeta { key, value } => format!("lobby {}={}", key, value),
        ServerMessage::EraseLobbyMeta { key } => format!("lobby {}", key),
        ServerMessage::SetMaster { pid } => format!("master {}", pid),
        ServerMessage::Joined { pid, metadata, birth } => {
            format!("joined {} {:?} {}", pid, said(metadata), birth)
        }
        ServerMessage::Left { pid, reason } => format!("left {} {:?}", pid, reason),
        ServerMessage::Candidate { from, candidate, mid } => {
            format!("candidate {} {} {}", from, candidate, mid)
        }
        ServerMessage::Offer { from, sdp } => format!("offer {} {}", from, sdp),
        ServerMessage::Answer { from, sdp } => format!("answer {} {}", from, sdp),
        ServerMessage::List { list } => format!("list {}", list.len()),
    }
}

/// A server with a lobby 7 that 1, 2 and 3 are in, all messages delivered.
fn populated() -> BlasterEventLoop {
    let mut s = server();
    assert!(introduce(&mut s, LOOPBACK, 0));
    assert_eq!(host(&mut s, LOOPBACK, 4, true, 7, 1, 0), Ok(1));
    assert_eq!(join(&mut s, LOOPBACK, 7, 2, SECOND), Ok(2));
    assert_eq!(join(&mut s, LOOPBACK, 7, 3, 2 * SECOND), Ok(3));
    s.collect_mail();
    s
}

fn run(s: &mut BlasterEventLoop, op: BlasterOperation, now: u64) -> Vec<Delivery> {
    assert!(matches!(s.recv(op, now), Reply::Nothing));
    s.collect_mail()
}

#[test]
fn introduce_session_on_loopback() {
    let mut s = BlasterEventLoop::new(Config::default());
    let ip = IpAddr::V4(u32::from_be_bytes([127, 0, 0, 1]));
    assert!(introduce(&mut s, ip, 0));
}

#[test]
fn sessions_per_address_are_capped() {
    let mut s = server();
    for _ in 0..4 {
        assert!(introduce(&mut s, LOOPBACK, 0));
    }
    assert!(!introduce(&mut s, LOOPBACK, 0));
    assert!(introduce(&mut s, OTHER, 0));
    run(&mut s, BlasterOperation::CloseSession { ip: LOOPBACK }, 0);
    assert!(introduce(&mut s, LOOPBACK, 0));
    assert!(!introduce(&mut s, LOOPBACK, 0));
}

#[test]
fn addresses_are_capped() {
    let mut s = server();
    for i in 0..512 {
        assert!(introduce(&mut s, IpAddr::V4(i), 0));
    }
    assert!(!introduce(&mut s, IpAddr::V4(512), 0));
    assert!(introduce(&mut s, IpAddr::V4(0), 0));
}

#[test]
fn sessions_are_capped() {
    let mut s = server();
    for i in 0..256 {
        for _ in 0..4 {
            assert!(introduce(&mut s, IpAddr::V4(i), 0));
        }
    }
    assert!(!introduce(&mut s, IpAddr::V4(256), 0));
    run(&mut s, BlasterOperation::CloseSession { ip: IpAddr::V4(9) }, 0);
    assert!(introduce(&mut s, IpAddr::V4(256), 0));
}

#[test]
fn addresses_without_sessions_are_forgotten_after_a_minute() {
    let mut s = server();
    assert!(introduce(&mut s, LOOPBACK, 0));
    assert!(introduce(&mut s, OTHER, 0));
    run(&mut s, BlasterOperation::CloseSession { ip: OTHER }, 10 * SECOND);
    run(&mut s, BlasterOperation::CloseSession { ip: IpAddr::V6(99) }, 10 * SECOND);
    run(&mut s, BlasterOperation::Prune, 70 * SECOND - 1);
    assert_eq!(s.peers.len(), 2);
    run(&mut s, BlasterOperation::Prune, 70 * SECOND);
    assert_eq!(s.peers.len(), 1);
    assert!(s.peers.contains_key(&LOOPBACK));
    // an address with a session is remembered for ever
    run(&mut s, BlasterOperation::Prune, 7000 * SECOND);
    assert!(s.peers.contains_key(&LOOPBACK));
}

#[test]
fn closing_undoes_introducing() {
    let mut s = server();
    assert!(introduce(&mut s, LOOPBACK, 0));
    assert!(introduce(&mut s, LOOPBACK, 1));
    assert_eq!(s.peers.value_at(0).session_count(), 2);
    run(&mut s, BlasterOperation::CloseSession { ip: LOOPBACK }, 2);
    assert_eq!(s.peers.value_at(0).session_count(), 1);
    run(&mut s, BlasterOperation::CloseSession { ip: LOOPBACK }, 3);
    assert_eq!(s.peers.value_at(0).session_count(), 0);
    run(&mut s, BlasterOperation::CloseSession { ip: LOOPBACK }, 4);
    assert_eq!(s.peers.value_at(0).session_count(), 0);
}

#[test]
fn strangers_are_not_served() {
    let mut s = server();
    let kick = Kick::violation("rate_limited", "Sessions per IP cap");
    assert_eq!(host(&mut s, LOOPBACK, 4, true, 7, 1, 0), Err(kick.clone()));
    assert_eq!(join(&mut s, LOOPBACK, 7, 1, 0), Err(kick.clone()));
    assert_eq!(list(&mut s, LOOPBACK, 5, 0).unwrap_err(), kick);
}

#[test]
fn an_address_is_served_four_times_at_once() {
    let mut s = server();
    assert!(introduce(&mut s, LOOPBACK, 0));
    for _ in 0..4 {
        assert!(list(&mut s, LOOPBACK, 5, 0).is_ok());
    }
    assert!(list(&mut s, LOOPBACK, 5, 0).is_err());
    assert!(list(&mut s, LOOPBACK, 5, SECOND / 2).is_ok());
}

#[test]
fn the_host_is_welcomed() {
    let mut s = server();
    assert!(introduce(&mut s, LOOPBACK, 0));
    assert_eq!(host(&mut s, LOOPBACK, 4, true, 7, 1, 0), Ok(1));
    assert_eq!(
        told(&s.collect_mail(), 1),
        vec![
            "listed true",
            "capacity 4",
            "lobby mode=fast",
            "master 1",
            "connected stun:stun.example.org 7 1 0"
        ]
    );
    assert!(s.collect_mail().is_empty());
}

#[test]
fn newcomers_and_players_are_introduced() {
    let mut s = server();
    assert!(introduce(&mut s, LOOPBACK, 0));
    assert_eq!(host(&mut s, LOOPBACK, 4, true, 7, 1, 0), Ok(1));
    assert_eq!(join(&mut s, LOOPBACK, 7, 2, 1500 * MILLISECOND), Ok(2));
    s.collect_mail();
    assert_eq!(join(&mut s, LOOPBACK, 7, 3, 2750 * MILLISECOND), Ok(3));
    let mail = s.collect_mail();
    assert_eq!(
        told(&mail, 3),
        vec![
            "listed true",
            "capacity 4",
            "lobby mode=fast",
            "master 1",
            "connected stun:stun.example.org 7 3 2750",
            "joined 1 [(\"name\", \"host\")] 0",
            "joined 2 [(\"name\", \"guest\")] 1500"
        ]
    );
    assert_eq!(told(&mail, 1), vec!["joined 3 [(\"name\", \"guest\")] 2750"]);
    assert_eq!(told(&mail, 2), vec!["joined 3 [(\"name\", \"guest\")] 2750"]);
}

#[test]
fn joining_is_refused_for_a_reason() {
    let mut s = server();
    assert!(introduce(&mut s, LOOPBACK, 0));
    assert_eq!(
        join(&mut s, LOOPBACK, 7, 2, 0),
        Err(Kick::violation("lobby_not_found", "Lobby not found"))
    );
    assert_eq!(host(&mut s, LOOPBACK, 1, true, 7, 1, 0), Ok(1));
    s.collect_mail();
    assert_eq!(
        join(&mut s, LOOPBACK, 7, 2, 0),
        Err(Kick::violation("lobby_full", "Lobby is full"))
    );
    assert!(s.collect_mail().is_empty());
    assert_eq!(s.players.len(), 1);
}

#[test]
fn an_address_opens_one_listed_lobby_and_four_in_all() {
    let mut s = server();
    assert!(introduce(&mut s, LOOPBACK, 0));
    let kick = Kick::violation("rate_limited", "Lobbies per IP limit");
    assert_eq!(host(&mut s, LOOPBACK, 4, true, 1, 1, 0), Ok(1));
    assert_eq!(host(&mut s, LOOPBACK, 4, true, 2, 2, SECOND), Err(kick.clone()));
    assert_eq!(host(&mut s, LOOPBACK, 4, false, 2, 2, 2 * SECOND), Ok(2));
    assert_eq!(host(&mut s, LOOPBACK, 4, false, 3, 3, 3 * SECOND), Ok(3));
    assert_eq!(host(&mut s, LOOPBACK, 4, false, 4, 4, 4 * SECOND), Ok(4));
    assert_eq!(host(&mut s, LOOPBACK, 4, false, 5, 5, 5 * SECOND), Err(kick));
}

#[test]
fn a_game_has_thirty_two_listed_lobbies() {
    let mut s = server();
    for i in 0..32u32 {
        let ip = IpAddr::V4(i);
        assert!(introduce(&mut s, ip, 0));
        assert_eq!(host(&mut s, ip, 4, true, i as u64, 100 + i as u64, 0), Ok(100 + i as u64));
    }
    assert!(introduce(&mut s, OTHER, 0));
    assert_eq!(
        host(&mut s, OTHER, 4, true, 77, 777, 0),
        Err(Kick::violation("rate_limited", "Lobbies per GID limit"))
    );
    assert_eq!(host(&mut s, OTHER, 4, false, 77, 777, 0), Ok(777));
}

#[test]
fn listed_lobbies_with_room_are_shown() {
    let mut s = server();
    for i in 0..3u32 {
        let ip = IpAddr::V4(i);
        assert!(introduce(&mut s, ip, 0));
        assert!(host(&mut s, ip, 1 + i as usize, i != 1, i as u64, 100 + i as u64, 0).is_ok());
    }
    // 0 is full, 1 is not listed
    let shown = list(&mut s, IpAddr::V4(0), 10, 0).unwrap();
    assert_eq!(shown.len(), 1);
    assert_eq!((shown[0].lid, shown[0].players, shown[0].max), (2, 1, 3));
    assert_eq!(said(&shown[0].metadata), vec![("mode".to_string(), "fast".to_string())]);
    run(&mut s, BlasterOperation::SetListed { initiator: 101, listed: true }, 0);
    assert_eq!(list(&mut s, IpAddr::V4(0), 10, 0).unwrap().len(), 2);
    assert_eq!(list(&mut s, IpAddr::V4(0), 0, SECOND).unwrap().len(), 1);
    let elsewhere = BlasterOperation::ListLobbies {
        ip: IpAddr::V4(1),
        gid: GameId("other".to_string()),
        limit: 10,
    };
    assert!(matches!(s.recv(elsewhere, 0), Reply::Listing(Ok(l)) if l.is_empty()));
}

#[test]
fn no_lobby_is_shown_twice() {
    let mut s = server();
    for i in 0..5u32 {
        let ip = IpAddr::V4(i);
        assert!(introduce(&mut s, ip, 0));
        assert!(host(&mut s, ip, 4, true, i as u64, 100 + i as u64, 0).is_ok());
    }
    run(&mut s, BlasterOperation::SetListed { initiator: 102, listed: false }, 0);
    run(&mut s, BlasterOperation::SetListed { initiator: 102, listed: true }, SECOND);
    run(&mut s, BlasterOperation::SetListed { initiator: 102, listed: true }, 2 * SECOND);
    let shown = list(&mut s, IpAddr::V4(0), 10, 2 * SECOND).unwrap();
    let lids: Vec<u64> = shown.iter().map(|l| l.lid).collect();
    assert_eq!(lids, vec![0, 1, 2, 3, 4]);
}

#[test]
fn only_the_master_changes_the_lobby() {
    let mut s = populated();
    assert!(run(&mut s, BlasterOperation::SetCapacity { initiator: 2, capacity: 8 }, 3 * SECOND).is_empty());
    assert!(run(&mut s, BlasterOperation::SetCapacity { initiator: 1, capacity: 0 }, 3 * SECOND).is_empty());
    assert!(run(&mut s, BlasterOperation::SetCapacity { initiator: 1, capacity: 17 }, 3 * SECOND).is_empty());
    let mail = run(&mut s, BlasterOperation::SetCapacity { initiator: 1, capacity: 8 }, 3 * SECOND);
    for pid in 1..4 {
        assert_eq!(told(&mail, pid), vec!["capacity 8"]);
    }
    assert!(run(&mut s, BlasterOperation::SetListed { initiator: 3, listed: false }, 3 * SECOND).is_empty());
    let mail = run(&mut s, BlasterOperation::SetListed { initiator: 1, listed: false }, 3 * SECOND);
    assert_eq!(told(&mail, 3), vec!["listed false"]);
    // two changes at once are all there may be
    assert!(run(&mut s, BlasterOperation::SetListed { initiator: 1, listed: true }, 3 * SECOND).is_empty());
    assert!(!run(&mut s, BlasterOperation::SetListed { initiator: 1, listed: true }, 4 * SECOND).is_empty());
}

#[test]
fn the_post_of_master_is_handed_on() {
    let mut s = populated();
    assert!(run(&mut s, BlasterOperation::SetMaster { initiator: 2, new_master: 3 }, 3 * SECOND).is_empty());
    assert!(run(&mut s, BlasterOperation::SetMaster { initiator: 1, new_master: 1 }, 3 * SECOND).is_empty());
    assert!(run(&mut s, BlasterOperation::SetMaster { initiator: 1, new_master: 9 }, 3 * SECOND).is_empty());
    let mail = run(&mut s, BlasterOperation::SetMaster { initiator: 1, new_master: 3 }, 3 * SECOND);
    for pid in 1..4 {
        assert_eq!(told(&mail, pid), vec!["master 3"]);
    }
    assert!(run(&mut s, BlasterOperation::SetListed { initiator: 1, listed: false }, 3 * SECOND).is_empty());
}

#[test]
fn players_set_and_erase_their_fields() {
    let mut s = populated();
    let set = BlasterOperation::SetPlayerMeta {
        pid: 2,
        key: "colour".to_string(),
        value: "red".to_string(),
    };
    let mail = run(&mut s, set, 3 * SECOND);
    for pid in 1..4 {
        assert_eq!(told(&mail, pid), vec!["2 colour=red"]);
    }
    let erase = || BlasterOperation::ErasePlayerMeta { pid: 2, key: "colour".to_string() };
    let mail = run(&mut s, erase(), 3 * SECOND);
    assert_eq!(told(&mail, 1), vec!["2 colour"]);
    assert!(run(&mut s, erase(), 3 * SECOND).is_empty());
}

#[test]
fn setting_fields_is_paid_for_by_the_byte() {
    let mut s = populated();
    let set = |value: String| BlasterOperation::SetPlayerMeta { pid: 2, key: "k".to_string(), value };
    assert!(!run(&mut s, set("v".repeat(8191)), 3 * SECOND).is_empty());
    assert!(run(&mut s, set(String::new()), 3 * SECOND).is_empty());
    assert!(!run(&mut s, set("v".repeat(4095)), 4 * SECOND).is_empty());
}

#[test]
fn a_player_has_sixteen_fields() {
    let mut s = populated();
    for i in 0..15 {
        let set = BlasterOperation::SetPlayerMeta { pid: 2, key: format!("k{i}"), value: String::new() };
        assert!(!run(&mut s, set, 3 * SECOND).is_empty());
    }
    let set = |key: &str| BlasterOperation::SetPlayerMeta {
        pid: 2,
        key: key.to_string(),
        value: "new".to_string(),
    };
    assert!(run(&mut s, set("one too many"), 3 * SECOND).is_empty());
    assert!(!run(&mut s, set("k3"), 3 * SECOND).is_empty());
}

#[test]
fn the_master_sets_and_erases_the_lobbys_fields() {
    let mut s = populated();
    let set = |initiator: u64| BlasterOperation::SetLobbyMeta {
        initiator,
        key: "map".to_string(),
        value: "moon".to_string(),
    };
    assert!(run(&mut s, set(2), 3 * SECOND).is_empty());
    let mail = run(&mut s, set(1), 3 * SECOND);
    assert_eq!(told(&mail, 3), vec!["lobby map=moon"]);
    let erase = |initiator: u64| BlasterOperation::EraseLobbyMeta { initiator, key: "map".to_string() };
    assert!(run(&mut s, erase(3), 3 * SECOND).is_empty());
    let mail = run(&mut s, erase(1), 3 * SECOND);
    assert_eq!(told(&mail, 2), vec!["lobby map"]);
    assert!(run(&mut s, erase(1), 3 * SECOND).is_empty());
}

#[test]
fn the_master_kicks() {
    let mut s = populated();
    assert!(run(&mut s, BlasterOperation::KickPlayer { kicker: 2, kickee: 3 }, 3 * SECOND).is_empty());
    assert!(run(&mut s, BlasterOperation::KickPlayer { kicker: 1, kickee: 9 }, 3 * SECOND).is_empty());
    let mail = run(&mut s, BlasterOperation::KickPlayer { kicker: 1, kickee: 3 }, 3 * SECOND);
    assert_eq!(mail.len(), 1);
    assert_eq!(
        told(&mail, 3),
        vec![format!("disconnected {:?}", Kick::natural("kick", "Kicked by lobby's master"))]
    );
}

#[test]
fn messages_are_relayed_within_a_lobby() {
    let mut s = populated();
    assert!(introduce(&mut s, OTHER, 3 * SECOND));
    assert!(host(&mut s, OTHER, 4, false, 8, 4, 3 * SECOND).is_ok());
    s.collect_mail();
    let relay = |from: u64, to: u64| BlasterOperation::Relay {
        from,
        to,
        msg: ServerMessage::Offer { from, sdp: "sdp".to_string() },
    };
    let mail = run(&mut s, relay(2, 3), 4 * SECOND);
    assert_eq!(mail.len(), 1);
    assert_eq!(told(&mail, 3), vec!["offer 2 sdp"]);
    assert!(run(&mut s, relay(2, 4), 4 * SECOND).is_empty());
    assert!(run(&mut s, relay(9, 2), 4 * SECOND).is_empty());
    assert!(run(&mut s, relay(2, 9), 4 * SECOND).is_empty());
}

#[test]
fn the_next_master_is_who_has_been_there_the_longest() {
    let mut s = populated();
    let reason = Some(Kick::natural("bye", "Bye"));
    let mail = run(&mut s, BlasterOperation::RemovePlayer { pid: 1, reason: reason.clone() }, 3 * SECOND);
    let left = format!("left 1 {:?}", reason);
    assert_eq!(told(&mail, 2), vec!["master 2".to_string(), left.clone()]);
    assert_eq!(told(&mail, 3), vec!["master 2".to_string(), left]);
    let mail = run(&mut s, BlasterOperation::RemovePlayer { pid: 3, reason: None }, 3 * SECOND);
    assert_eq!(told(&mail, 2), vec!["left 3 None"]);
    assert!(run(&mut s, BlasterOperation::RemovePlayer { pid: 3, reason: None }, 3 * SECOND).is_empty());
}

#[test]
fn a_lobby_ends_with_its_last_player() {
    let mut s = populated();
    for pid in 1..4 {
        assert_eq!(s.lobbies.len(), 1);
        run(&mut s, BlasterOperation::RemovePlayer { pid, reason: None }, 3 * SECOND);
    }
    assert_eq!(s.lobbies.len(), 0);
    assert_eq!(s.gid_lobbies.len(), 0);
    assert_eq!(s.players.len(), 0);
}

#[test]
fn an_index_keeps_the_other_lobbies_of_the_game() {
    let mut s = populated();
    assert!(introduce(&mut s, OTHER, 3 * SECOND));
    assert!(host(&mut s, OTHER, 4, false, 8, 4, 3 * SECOND).is_ok());
    run(&mut s, BlasterOperation::RemovePlayer { pid: 4, reason: None }, 3 * SECOND);
    assert_eq!(s.lobbies.len(), 1);
    assert_eq!(s.gid_lobbies.value_at(0).ids, vec![7]);
}

#[test]
fn players_of_idle_lobbies_are_shown_the_door() {
    let mut s = server();
    assert!(introduce(&mut s, LOOPBACK, 0));
    assert!(host(&mut s, LOOPBACK, 4, true, 7, 1, 0).is_ok());
    s.collect_mail();
    assert!(run(&mut s, BlasterOperation::Prune, 180 * SECOND - 1).is_empty());
    let mail = run(&mut s, BlasterOperation::Prune, 180 * SECOND);
    assert_eq!(
        told(&mail, 1),
        vec![format!("disconnected {:?}", Kick::natural("inactive_lobby", "Inactive lobby"))]
    );
}

#[test]
fn company_keeps_a_lobby_from_being_idle() {
    let mut s = populated();
    assert!(run(&mut s, BlasterOperation::Prune, 1000 * SECOND).is_empty());
    run(&mut s, BlasterOperation::RemovePlayer { pid: 2, reason: None }, 1000 * SECOND);
    run(&mut s, BlasterOperation::RemovePlayer { pid: 3, reason: None }, 1010 * SECOND);
    assert!(run(&mut s, BlasterOperation::Prune, 1189 * SECOND).is_empty());
    assert_eq!(run(&mut s, BlasterOperation::Prune, 1190 * SECOND).len(), 1);
}

#[test]
fn numbers_are_drawn_at_random() {
    let mut s = server();
    let mut pids: Vec<u64> = Vec::new();
    for i in 0..20u32 {
        let ip = IpAddr::V4(i);
        assert!(introduce(&mut s, ip, 0));
        let op = BlasterOperation::HostLobby {
            initiator: ip,
            gid: gid(),
            lobby_meta: meta(&[]),
            capacity: 4,
            listed: false,
            player_metadata: meta(&[]),
        };
        match s.recv(op, 0) {
            Reply::Pid(Ok(pid)) => pids.push(pid),
            _ => panic!("refused"),
        }
    }
    assert_eq!(s.players.len(), 20);
    assert_eq!(s.lobbies.len(), 20);
    let lid = s.lobbies.key_at(0).clone();
    let op = BlasterOperation::JoinLobby { ip: IpAddr::V4(0), lid, player_metadata: meta(&[]) };
    match s.recv(op, 0) {
        Reply::Pid(Ok(pid)) => pids.push(pid),
        _ => panic!("refused"),
    }
    pids.sort();
    pids.dedup();
    assert_eq!(pids.len(), 21);
}

#[test]
fn a_player_who_overspends_is_booted() {

    let mut s = populated();
    let mut budget = TokenBucket::new("test", 1, 1, 1, 0);
    let player = s.players.player_mut(0);
    assert!(player.try_take_from_budget(&mut budget, 1, 0));
    assert!(!player.try_take_from_budget(&mut budget, 1, 0));
    assert_eq!(
        told(&s.collect_mail(), 1),
        vec![format!(
            "disconnected {:?}",
            Kick::violation("rate_limited", "Bandwidth patrol! (test)")
        )]
    );
}

#[test]
fn players_keep_the_order_in_which_they_came() {
    let mut s = populated();
    run(&mut s, BlasterOperation::RemovePlayer { pid: 2, reason: None }, 3 * SECOND);
    assert_eq!((s.players.pid_at(0), s.players.pid_at(1)), (1, 3));
    assert_eq!(s.players.find(3), Some(1));
    assert_eq!(s.players.find(2), None);
    assert_eq!(join(&mut s, LOOPBACK, 7, 2, 4 * SECOND), Ok(2));
    assert_eq!(s.players.find(2), Some(2));
}
