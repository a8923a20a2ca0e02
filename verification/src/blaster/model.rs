//! What the event-loop server holds, and what each operation makes of it.

use crate::assoc;
use crate::blaster;
use crate::blaster::eventloop::{
    CHUD_LOBBY_TIMEOUT, CHUD_THRESHOLD, GLOBAL_PEERS_CAP, GLOBAL_SESSIONS_CAP,
    LISTED_LOBBIES_PER_GID, LOBBIES_PER_IP, LOBBY_LISTING_CAP, SESSIONS_PER_IP_CAP,
    SESSION_IDLE_TIMEOUT,
};
use crate::blaster::payloads::{LobbyListingView, ServerMessageView};
use crate::blaster::PeerSessionCount;
use crate::clock;
use crate::clock::{Moment, MILLISECOND};
use crate::id;
use crate::id::{BasicId, IpAddr, LobbyKey};
use crate::protocol::aux;
use crate::protocol::aux::MetadataView;
use crate::protocol::payloads;
use crate::protocol::payloads::KickView;
use crate::text;
use crate::tokens::BucketView;
use crate::MAX_PLAYERS;
use vstd::prelude::*;

verus! {

pub struct IceServerView {
    pub urls: Seq<char>,
    pub creds: Option<(Seq<char>, Seq<char>)>,
}

/// An address that sessions come from.
pub struct PeerView {
    pub session_count: PeerSessionCount,
    pub sessions_budget: BucketView,
}

impl PeerView {
    /// An address with its first session.
    pub open spec fn fresh(now: Moment) -> PeerView {
        PeerView {
            session_count: PeerSessionCount::Active(1),
            sessions_budget: BucketView::fresh("sessions_per_ip"@, 2, 3, 4, now),
        }
    }

    /// The address once its budget has been asked for one session.
    pub open spec fn asked(self, now: Moment) -> PeerView {
        PeerView { sessions_budget: self.sessions_budget.asked(1, now), ..self }
    }

    /// The address with one session more.
    pub open spec fn opened(self) -> PeerView {
        PeerView {
            session_count: PeerSessionCount::Active(
                (blaster::open_sessions(self.session_count) + 1) as usize,
            ),
            ..self
        }
    }

    /// The address with one session less.
    pub open spec fn closed(self, now: Moment) -> PeerView {
        PeerView {
            session_count: match self.session_count {
                PeerSessionCount::Decaying(since) => PeerSessionCount::Decaying(since),
                PeerSessionCount::Active(count) => if count <= 1 {
                    PeerSessionCount::Decaying(now)
                } else {
                    PeerSessionCount::Active((count - 1) as usize)
                },
            },
            ..self
        }
    }

    /// Whether no session has come from the address for so long that it is forgotten.
    pub open spec fn decayed(self, now: Moment) -> bool {
        self.session_count matches PeerSessionCount::Decaying(since) && clock::elapsed(since, now)
            >= SESSION_IDLE_TIMEOUT
    }
}

/// A lobby.
pub struct LobbyView {
    pub players: Seq<BasicId>,
    pub initiator: IpAddr,
    pub master: BasicId,
    pub metadata: MetadataView,
    pub capacity: usize,
    pub listed: bool,
    pub idle_since: Option<Moment>,
    pub created_at: Moment,
    pub alterations_budget: BucketView,
    pub metadata_budget: BucketView,
}

impl LobbyView {
    pub open spec fn is_full(self) -> bool {
        self.players.len() >= self.capacity
    }

    /// A lobby that was just opened, before its host is in it.
    pub open spec fn opened(
        initiator: IpAddr,
        master: BasicId,
        metadata: MetadataView,
        capacity: usize,
        listed: bool,
        now: Moment,
    ) -> LobbyView {
        LobbyView {
            players: seq![],
            initiator,
            master,
            metadata,
            capacity,
            listed,
            idle_since: Some(now),
            created_at: now,
            alterations_budget: BucketView::fresh("alterations"@, 1, 2, 2, now),
            metadata_budget: BucketView::fresh_metadata("lobby_metadata"@, now),
        }
    }

    /// The lobby with one player more.
    pub open spec fn entered(self, pid: BasicId) -> LobbyView {
        let players = id::with_id(self.players, pid);
        LobbyView {
            players,
            idle_since: if players.len() >= CHUD_THRESHOLD {
                None
            } else {
                self.idle_since
            },
            ..self
        }
    }

    /// Whether the post of master passes on when the player goes.
    pub open spec fn passes_on(self, pid: BasicId) -> bool {
        pid == self.master && id::without_id(self.players, pid).len() > 0
    }

    /// The lobby without the player. If that was the master, the one who has been in the lobby the
    /// longest is the next.
    pub open spec fn left(self, pid: BasicId, now: Moment) -> LobbyView {
        let players = id::without_id(self.players, pid);
        LobbyView {
            players,
            master: if self.passes_on(pid) {
                players[0]
            } else {
                self.master
            },
            idle_since: if players.len() < CHUD_THRESHOLD && self.idle_since is None {
                Some(now)
            } else {
                self.idle_since
            },
            ..self
        }
    }

    /// The lobby once its budget has been asked for one change of its settings.
    pub open spec fn altered(self, now: Moment) -> LobbyView {
        LobbyView { alterations_budget: self.alterations_budget.asked(1, now), ..self }
    }

    /// Whether the lobby may change its settings now.
    pub open spec fn alterable(self, now: Moment) -> bool {
        self.alterations_budget.affords(1, now)
    }

    /// Whether too few players have been in the lobby for too long.
    pub open spec fn idle(self, now: Moment) -> bool {
        self.idle_since matches Some(since) && clock::elapsed(since, now) >= CHUD_LOBBY_TIMEOUT
    }

    /// How old the lobby is, in milliseconds.
    pub open spec fn age(self, now: Moment) -> u128 {
        (clock::elapsed(self.created_at, now) / (MILLISECOND as nat)) as u128
    }
}

/// A player, and the messages that are on their way to them.
pub struct PlayerView {
    pub lid: LobbyKey,
    pub metadata: MetadataView,
    pub outbox: Seq<ServerMessageView>,
    pub birth: u128,
    pub metadata_budget: BucketView,
}

impl PlayerView {
    /// The player once `msg` is on its way.
    pub open spec fn posted(self, msg: ServerMessageView) -> PlayerView {
        PlayerView { outbox: self.outbox.push(msg), ..self }
    }
}

/// The message by which a player is shown the door.
pub open spec fn boot(reason: KickView) -> ServerMessageView {
    ServerMessageView::Disconnected { reason }
}

/// What it costs to set a field: the bytes of its name and of its value.
pub open spec fn field_price(key: Seq<char>, value: Seq<char>) -> nat {
    let price = text::byte_len(key) + text::byte_len(value);
    if price > usize::MAX {
        usize::MAX as nat
    } else {
        price
    }
}

pub type Index = Seq<(Seq<char>, Seq<BasicId>)>;

pub type Lobbies = Seq<(LobbyKey, LobbyView)>;

pub type Players = Seq<(BasicId, PlayerView)>;

pub type Peers = Seq<(IpAddr, PeerView)>;

/// No lobby occurs twice among the lobbies of a game.
pub open spec fn listed_once(index: Index) -> bool {
    forall|i: int| 0 <= i < index.len() ==> (#[trigger] index[i]).1.no_duplicates()
}

/// `msg` is on its way to everybody in the lobby, and to nobody else.
pub open spec fn told(players: Players, lid: LobbyKey, msg: ServerMessageView) -> Players {
    players.map_values(
        |e: (BasicId, PlayerView)|
            if e.1.lid == lid {
                (e.0, e.1.posted(msg))
            } else {
                e
            },
    )
}

/// `msg` is on its way to the player `pid`, if there is one.
pub open spec fn sent(players: Players, pid: BasicId, msg: ServerMessageView) -> Players {
    if assoc::has(players, pid) {
        assoc::put(players, pid, assoc::value(players, pid).posted(msg))
    } else {
        players
    }
}

/// The news of a lobby's field.
pub open spec fn field_msg(f: (Seq<char>, Seq<char>)) -> ServerMessageView {
    ServerMessageView::SetLobbyMeta { key: f.0, value: f.1 }
}

/// The news of all of a lobby's fields.
pub open spec fn field_msgs(metadata: MetadataView) -> Seq<ServerMessageView> {
    metadata.map_values(|f: (Seq<char>, Seq<char>)| field_msg(f))
}

/// The news that a player is there.
pub open spec fn joined_msg(pid: BasicId, player: PlayerView) -> ServerMessageView {
    ServerMessageView::Joined { pid, metadata: player.metadata, birth: player.birth }
}

/// What a player is told on coming into a lobby: its settings, its fields, who the master is, and
/// how to reach the others.
pub open spec fn welcome(
    lobby: LobbyView,
    ice_servers: Seq<IceServerView>,
    lid: BasicId,
    pid: BasicId,
    birth: u128,
) -> Seq<ServerMessageView> {
    seq![
        ServerMessageView::SetListed { listed: lobby.listed },
        ServerMessageView::SetCapacity { capacity: lobby.capacity },
    ] + field_msgs(lobby.metadata) + seq![
        ServerMessageView::SetMaster { pid: lobby.master },
        ServerMessageView::Connected { ice_servers, lid, pid, birth },
    ]
}

/// The newcomer `pid` and each of the others, in turn, are told of each other.
pub open spec fn met(
    players: Players,
    others: Seq<BasicId>,
    pid: BasicId,
    newcomer: ServerMessageView,
) -> Players
    decreases others.len(),
{
    if others.len() == 0 {
        players
    } else {
        let earlier = met(players, others.drop_last(), pid, newcomer);
        let other = others.last();
        let shown = if assoc::has(earlier, other) {
            sent(earlier, pid, joined_msg(other, assoc::value(earlier, other)))
        } else {
            earlier
        };
        sent(shown, other, newcomer)
    }
}

/// The index of lobbies by game without the lobby; a game that has no lobby is not in it.
pub open spec fn unindexed(index: Index, lid: LobbyKey) -> Index {
    if assoc::has(index, lid.gid) {
        let ids = id::without_id(assoc::value(index, lid.gid), lid.lid);
        if ids.len() == 0 {
            assoc::without(index, lid.gid)
        } else {
            assoc::put(index, lid.gid, ids)
        }
    } else {
        index
    }
}

/// The index without those of the lobbies that are empty.
pub open spec fn swept(index: Index, lobbies: Lobbies) -> Index
    decreases lobbies.len(),
{
    if lobbies.len() == 0 {
        index
    } else {
        let earlier = swept(index, lobbies.drop_last());
        if lobbies.last().1.players.len() == 0 {
            unindexed(earlier, lobbies.last().0)
        } else {
            earlier
        }
    }
}

/// Whether somebody is in the lobby.
pub open spec fn inhabited() -> spec_fn((LobbyKey, LobbyView)) -> bool {
    |e: (LobbyKey, LobbyView)| e.1.players.len() != 0
}

/// Each of the players, in turn, is told `msg`.
pub open spec fn sent_all(players: Players, ids: Seq<BasicId>, msg: ServerMessageView) -> Players
    decreases ids.len(),
{
    if ids.len() == 0 {
        players
    } else {
        sent(sent_all(players, ids.drop_last(), msg), ids.last(), msg)
    }
}

/// The message by which the players of an idle lobby are shown the door.
pub open spec fn idle_msg() -> ServerMessageView {
    boot(payloads::natural("inactive_lobby"@, "Inactive lobby"@))
}

/// The players of those of the lobbies that are idle are shown the door.
pub open spec fn evicted(players: Players, lobbies: Lobbies, now: Moment) -> Players
    decreases lobbies.len(),
{
    if lobbies.len() == 0 {
        players
    } else {
        let earlier = evicted(players, lobbies.drop_last(), now);
        if lobbies.last().1.idle(now) {
            sent_all(earlier, lobbies.last().1.players, idle_msg())
        } else {
            earlier
        }
    }
}

/// The addresses that are not forgotten.
pub open spec fn remembered(now: Moment) -> spec_fn((IpAddr, PeerView)) -> bool {
    |e: (IpAddr, PeerView)| !e.1.decayed(now)
}

/// How many sessions are open.
pub open spec fn total_sessions(peers: Peers) -> nat
    decreases peers.len(),
{
    if peers.len() == 0 {
        0
    } else {
        total_sessions(peers.drop_last()) + blaster::open_sessions(peers.last().1.session_count)
    }
}

/// The lobbies that were opened from the address.
pub open spec fn hosted_by(ip: IpAddr) -> spec_fn((LobbyKey, LobbyView)) -> bool {
    |e: (LobbyKey, LobbyView)| e.1.initiator == ip
}

/// The lobbies that were opened from the address and are listed.
pub open spec fn listed_by(ip: IpAddr) -> spec_fn((LobbyKey, LobbyView)) -> bool {
    |e: (LobbyKey, LobbyView)| e.1.initiator == ip && e.1.listed
}

/// The players that messages are on their way to.
pub open spec fn has_mail() -> spec_fn((BasicId, PlayerView)) -> bool {
    |e: (BasicId, PlayerView)| e.1.outbox.len() > 0
}

/// A player's number and the messages on their way to them.
pub open spec fn delivery() -> spec_fn((BasicId, PlayerView)) -> (
    BasicId,
    Seq<ServerMessageView>,
) {
    |e: (BasicId, PlayerView)| (e.0, e.1.outbox)
}

/// What the server is asked to do.
pub enum OpView {
    SetCapacity { initiator: BasicId, capacity: usize },
    SetListed { initiator: BasicId, listed: bool },
    SetMaster { initiator: BasicId, new_master: BasicId },
    SetPlayerMeta { pid: BasicId, key: Seq<char>, value: Seq<char> },
    ErasePlayerMeta { pid: BasicId, key: Seq<char> },
    SetLobbyMeta { initiator: BasicId, key: Seq<char>, value: Seq<char> },
    EraseLobbyMeta { initiator: BasicId, key: Seq<char> },
    Relay { from: BasicId, to: BasicId, msg: ServerMessageView },
    ListLobbies { ip: IpAddr, gid: Seq<char>, limit: usize },
    HostLobby {
        initiator: IpAddr,
        gid: Seq<char>,
        lobby_meta: MetadataView,
        capacity: usize,
        listed: bool,
        player_metadata: MetadataView,
    },
    JoinLobby { ip: IpAddr, lid: LobbyKey, player_metadata: MetadataView },
    KickPlayer { kicker: BasicId, kickee: BasicId },
    RemovePlayer { pid: BasicId, reason: Option<KickView> },
    IntroduceSession { ip: IpAddr },
    Prune,
    CloseSession { ip: IpAddr },
}

impl OpView {
    /// The metadata that comes with the operation names each field once.
    pub open spec fn wf(self) -> bool {
        match self {
            OpView::HostLobby { lobby_meta, player_metadata, .. } => assoc::keyed(lobby_meta)
                && assoc::keyed(player_metadata),
            OpView::JoinLobby { player_metadata, .. } => assoc::keyed(player_metadata),
            _ => true,
        }
    }
}

/// What comes back for an operation.
pub enum ReplyView {
    /// No answer.
    Nothing,
    Listing(Result<Seq<LobbyListingView>, KickView>),
    Pid(Result<BasicId, KickView>),
    Introduced(bool),
}

/// All that the event-loop server holds.
pub struct LoopView {
    pub gid_lobbies: Index,
    pub lobbies: Lobbies,
    pub players: Players,
    pub peers: Peers,
    pub ice_servers: Seq<IceServerView>,
}

impl LoopView {
    /// Games, lobbies, players, their fields and addresses go by names that occur once, and no
    /// number occurs twice among the players of a lobby or the lobbies of a game.
    pub open spec fn named(self) -> bool {
        &&& assoc::keyed(self.gid_lobbies)
        &&& assoc::keyed(self.lobbies)
        &&& assoc::keyed(self.players)
        &&& assoc::keyed(self.peers)
        &&& forall|i: int|
            0 <= i < self.lobbies.len() ==> assoc::keyed((#[trigger] self.lobbies[i]).1.metadata)
        &&& forall|i: int|
            0 <= i < self.players.len() ==> assoc::keyed((#[trigger] self.players[i]).1.metadata)
        &&& forall|i: int|
            0 <= i < self.lobbies.len() ==> (#[trigger] self.lobbies[i]).1.players.no_duplicates()
        &&& listed_once(self.gid_lobbies)
    }

    /// There are no more addresses, and no more sessions from any of them, than there may be.
    pub open spec fn capped(self) -> bool {
        &&& self.peers.len() <= GLOBAL_PEERS_CAP
        &&& forall|i: int|
            0 <= i < self.peers.len() ==> blaster::open_sessions(
                (#[trigger] self.peers[i]).1.session_count,
            ) <= SESSIONS_PER_IP_CAP
    }

    /// What holds of the server at all times.
    pub open spec fn wf(self) -> bool {
        self.named() && self.capped()
    }

    pub open spec fn has_lobby(self, lid: LobbyKey) -> bool {
        assoc::has(self.lobbies, lid)
    }

    pub open spec fn lobby(self, lid: LobbyKey) -> LobbyView {
        assoc::value(self.lobbies, lid)
    }

    pub open spec fn has_player(self, pid: BasicId) -> bool {
        assoc::has(self.players, pid)
    }

    pub open spec fn player(self, pid: BasicId) -> PlayerView {
        assoc::value(self.players, pid)
    }

    pub open spec fn has_peer(self, ip: IpAddr) -> bool {
        assoc::has(self.peers, ip)
    }

    pub open spec fn peer(self, ip: IpAddr) -> PeerView {
        assoc::value(self.peers, ip)
    }

    pub open spec fn with_lobby(self, lid: LobbyKey, lobby: LobbyView) -> LoopView {
        LoopView { lobbies: assoc::put(self.lobbies, lid, lobby), ..self }
    }

    pub open spec fn with_player(self, pid: BasicId, player: PlayerView) -> LoopView {
        LoopView { players: assoc::put(self.players, pid, player), ..self }
    }

    pub open spec fn with_peer(self, ip: IpAddr, peer: PeerView) -> LoopView {
        LoopView { peers: assoc::put(self.peers, ip, peer), ..self }
    }

    pub open spec fn telling(self, lid: LobbyKey, msg: ServerMessageView) -> LoopView {
        LoopView { players: told(self.players, lid, msg), ..self }
    }

    pub open spec fn sending(self, pid: BasicId, msg: ServerMessageView) -> LoopView {
        LoopView { players: sent(self.players, pid, msg), ..self }
    }

    /// The numbers of the lobbies of a game.
    pub open spec fn lobbies_of(self, gid: Seq<char>) -> Seq<BasicId> {
        if assoc::has(self.gid_lobbies, gid) {
            assoc::value(self.gid_lobbies, gid)
        } else {
            seq![]
        }
    }

    /// Whether the address may be served once more now.
    pub open spec fn serves(self, ip: IpAddr, now: Moment) -> bool {
        self.has_peer(ip) && self.peer(ip).sessions_budget.affords(1, now)
    }

    /// What the server holds once the address's budget has been asked for one more service.
    pub open spec fn cap_ip(self, ip: IpAddr, now: Moment) -> LoopView {
        if self.has_peer(ip) {
            self.with_peer(ip, self.peer(ip).asked(now))
        } else {
            self
        }
    }

    /// The kick for being served too often.
    pub open spec fn cap_ip_refusal() -> KickView {
        payloads::violation("rate_limited"@, "Sessions per IP cap"@)
    }

    /// The lobbies of a game that are listed.
    pub open spec fn listed(self, gid: Seq<char>) -> spec_fn(BasicId) -> bool {
        |lid: BasicId|
            self.has_lobby(LobbyKey { lid, gid }) && self.lobby(LobbyKey { lid, gid }).listed
    }

    /// The lobbies of a game that are shown to those who look for one.
    pub open spec fn shown(self, gid: Seq<char>) -> spec_fn(BasicId) -> bool {
        |lid: BasicId|
            self.has_lobby(LobbyKey { lid, gid }) && self.lobby(LobbyKey { lid, gid }).listed
                && !self.lobby(LobbyKey { lid, gid }).is_full()
    }

    /// How a lobby is shown.
    pub open spec fn listing(self, gid: Seq<char>) -> spec_fn(BasicId) -> LobbyListingView {
        |lid: BasicId|
            {
                let lobby = self.lobby(LobbyKey { lid, gid });
                LobbyListingView {
                    lid,
                    players: lobby.players.len() as usize,
                    max: lobby.capacity,
                    metadata: lobby.metadata,
                }
            }
    }

    /// How many lobbies are shown to somebody who asked for `limit`.
    pub open spec fn listing_limit(limit: usize) -> usize {
        if limit < 1 {
            1
        } else if limit > LOBBY_LISTING_CAP {
            LOBBY_LISTING_CAP
        } else {
            limit
        }
    }

    /// The lobbies that are shown: the oldest ones, as many as were asked for.
    pub open spec fn list_lobbies(self, gid: Seq<char>, limit: usize) -> Seq<LobbyListingView> {
        let found = self.lobbies_of(gid).filter(self.shown(gid));
        let n = LoopView::listing_limit(limit) as int;
        found.take(
            if found.len() < n {
                found.len() as int
            } else {
                n
            },
        ).map_values(self.listing(gid))
    }

    /// Why somebody may not open a lobby, if they may not.
    pub open spec fn host_refusal(
        self,
        ip: IpAddr,
        gid: Seq<char>,
        listed: bool,
        now: Moment,
    ) -> Option<KickView> {
        if !self.serves(ip, now) {
            Some(LoopView::cap_ip_refusal())
        } else if (listed && self.lobbies.filter(listed_by(ip)).len() > 0) || self.lobbies.filter(
            hosted_by(ip),
        ).len() >= LOBBIES_PER_IP {
            Some(payloads::violation("rate_limited"@, "Lobbies per IP limit"@))
        } else if listed && self.lobbies_of(gid).filter(self.listed(gid)).len()
            >= LISTED_LOBBIES_PER_GID {
            Some(payloads::violation("rate_limited"@, "Lobbies per GID limit"@))
        } else {
            None
        }
    }

    /// Why somebody may not join a lobby, if they may not.
    pub open spec fn join_refusal(self, ip: IpAddr, lid: LobbyKey, now: Moment) -> Option<
        KickView,
    > {
        if !self.serves(ip, now) {
            Some(LoopView::cap_ip_refusal())
        } else if !self.has_lobby(lid) {
            Some(payloads::violation("lobby_not_found"@, "Lobby not found"@))
        } else if self.lobby(lid).is_full() {
            Some(payloads::violation("lobby_full"@, "Lobby is full"@))
        } else {
            None
        }
    }

    /// A player comes into a lobby: they are welcomed, and they and the others are told of each
    /// other.
    pub open spec fn insert_player(
        self,
        pid: BasicId,
        lid: LobbyKey,
        metadata: MetadataView,
        now: Moment,
    ) -> LoopView {
        let lobby = self.lobby(lid);
        let birth = lobby.age(now);
        let player = PlayerView {
            lid,
            metadata,
            outbox: welcome(lobby, self.ice_servers, lid.lid, pid, birth),
            birth,
            metadata_budget: BucketView::fresh_metadata("player_metadata"@, now),
        };
        let arrived = self.with_lobby(lid, lobby.entered(pid)).with_player(pid, player);
        LoopView {
            players: met(arrived.players, lobby.players, pid, joined_msg(pid, player)),
            ..arrived
        }
    }

    /// A lobby is opened, and entered in the index.
    pub open spec fn open_lobby(self, lid: LobbyKey, lobby: LobbyView) -> LoopView {
        LoopView {
            gid_lobbies: assoc::put(
                self.gid_lobbies,
                lid.gid,
                id::with_id(self.lobbies_of(lid.gid), lid.lid),
            ),
            ..self.with_lobby(lid, lobby)
        }
    }

    /// Somebody opens a lobby, which goes by the number `lid`, and is its first player, `pid`.
    pub open spec fn host_lobby(
        self,
        ip: IpAddr,
        gid: Seq<char>,
        lobby_meta: MetadataView,
        capacity: usize,
        listed: bool,
        player_metadata: MetadataView,
        lid: BasicId,
        pid: BasicId,
        now: Moment,
    ) -> LoopView {
        let asked = self.cap_ip(ip, now);
        if self.host_refusal(ip, gid, listed, now) is Some {
            asked
        } else {
            asked.open_lobby(
                LobbyKey { lid, gid },
                LobbyView::opened(ip, pid, lobby_meta, capacity, listed, now),
            ).insert_player(pid, LobbyKey { lid, gid }, player_metadata, now)
        }
    }

    /// Somebody joins a lobby as the player `pid`.
    pub open spec fn join_lobby(
        self,
        ip: IpAddr,
        lid: LobbyKey,
        player_metadata: MetadataView,
        pid: BasicId,
        now: Moment,
    ) -> LoopView {
        let asked = self.cap_ip(ip, now);
        if self.join_refusal(ip, lid, now) is Some {
            asked
        } else {
            asked.insert_player(pid, lid, player_metadata, now)
        }
    }

    /// Whether the player is the master of the lobby that they are in.
    pub open spec fn masters(self, pid: BasicId) -> bool {
        self.has_player(pid) && self.has_lobby(self.player(pid).lid) && self.lobby(
            self.player(pid).lid,
        ).master == pid
    }

    pub open spec fn set_capacity(
        self,
        initiator: BasicId,
        capacity: usize,
        now: Moment,
    ) -> LoopView {
        let lid = self.player(initiator).lid;
        let lobby = self.lobby(lid);
        if !(1 <= capacity <= MAX_PLAYERS) || !self.masters(initiator) {
            self
        } else if !lobby.alterable(now) {
            self.with_lobby(lid, lobby.altered(now))
        } else {
            self.with_lobby(lid, LobbyView { capacity, ..lobby.altered(now) }).telling(
                lid,
                ServerMessageView::SetCapacity { capacity },
            )
        }
    }

    pub open spec fn set_listed(self, initiator: BasicId, listed: bool, now: Moment) -> LoopView {
        let lid = self.player(initiator).lid;
        let lobby = self.lobby(lid);
        if !self.masters(initiator) {
            self
        } else if !lobby.alterable(now) {
            self.with_lobby(lid, lobby.altered(now))
        } else {
            self.with_lobby(lid, LobbyView { listed, ..lobby.altered(now) }).telling(
                lid,
                ServerMessageView::SetListed { listed },
            )
        }
    }

    /// The master of the lobby that `new_master` is in hands the post to `new_master`.
    pub open spec fn set_master(
        self,
        initiator: BasicId,
        new_master: BasicId,
        now: Moment,
    ) -> LoopView {
        let lid = self.player(new_master).lid;
        let lobby = self.lobby(lid);
        if new_master == initiator || !self.has_player(new_master) || !self.has_lobby(lid)
            || lobby.master != initiator {
            self
        } else if !lobby.alterable(now) {
            self.with_lobby(lid, lobby.altered(now))
        } else {
            self.with_lobby(lid, LobbyView { master: new_master, ..lobby.altered(now) }).telling(
                lid,
                ServerMessageView::SetMaster { pid: new_master },
            )
        }
    }

    pub open spec fn set_player_meta(
        self,
        pid: BasicId,
        key: Seq<char>,
        value: Seq<char>,
        now: Moment,
    ) -> LoopView {
        let p = self.player(pid);
        let price = field_price(key, value);
        let asked = PlayerView { metadata_budget: p.metadata_budget.asked(price, now), ..p };
        if !self.has_player(pid) || !aux::can_add(p.metadata, key) {
            self
        } else if !p.metadata_budget.affords(price, now) {
            self.with_player(pid, asked)
        } else {
            self.with_player(
                pid,
                PlayerView { metadata: assoc::put(p.metadata, key, value), ..asked },
            ).telling(p.lid, ServerMessageView::SetPlayerMeta { pid, key, value })
        }
    }

    pub open spec fn erase_player_meta(self, pid: BasicId, key: Seq<char>) -> LoopView {
        let p = self.player(pid);
        if !self.has_player(pid) || !assoc::has(p.metadata, key) {
            self
        } else {
            self.with_player(
                pid,
                PlayerView { metadata: assoc::without(p.metadata, key), ..p },
            ).telling(p.lid, ServerMessageView::ErasePlayerMeta { pid, key })
        }
    }

    pub open spec fn set_lobby_meta(
        self,
        initiator: BasicId,
        key: Seq<char>,
        value: Seq<char>,
        now: Moment,
    ) -> LoopView {
        let lid = self.player(initiator).lid;
        let l = self.lobby(lid);
        let price = field_price(key, value);
        let asked = LobbyView { metadata_budget: l.metadata_budget.asked(price, now), ..l };
        if !self.masters(initiator) || !aux::can_add(l.metadata, key) {
            self
        } else if !l.metadata_budget.affords(price, now) {
            self.with_lobby(lid, asked)
        } else {
            self.with_lobby(
                lid,
                LobbyView { metadata: assoc::put(l.metadata, key, value), ..asked },
            ).telling(lid, ServerMessageView::SetLobbyMeta { key, value })
        }
    }

    pub open spec fn erase_lobby_meta(self, initiator: BasicId, key: Seq<char>) -> LoopView {
        let lid = self.player(initiator).lid;
        let l = self.lobby(lid);
        if !self.masters(initiator) || !assoc::has(l.metadata, key) {
            self
        } else {
            self.with_lobby(
                lid,
                LobbyView { metadata: assoc::without(l.metadata, key), ..l },
            ).telling(lid, ServerMessageView::EraseLobbyMeta { key })
        }
    }

    /// The master of a lobby shows one of its players the door.
    pub open spec fn kick_player(self, kicker: BasicId, kickee: BasicId) -> LoopView {
        if self.masters(kicker) && self.has_player(kickee) && self.player(kickee).lid
            == self.player(kicker).lid {
            self.sending(kickee, boot(payloads::natural("kick"@, "Kicked by lobby's master"@)))
        } else {
            self
        }
    }

    /// Only the lobbies that somebody is in.
    pub open spec fn cleanup_lobbies(self) -> LoopView {
        LoopView {
            gid_lobbies: swept(self.gid_lobbies, self.lobbies),
            lobbies: self.lobbies.filter(inhabited()),
            ..self
        }
    }

    /// A player goes: those in the lobby are told so, and who their new master is if it was the
    /// master who went.
    pub open spec fn remove_player(
        self,
        pid: BasicId,
        reason: Option<KickView>,
        now: Moment,
    ) -> LoopView {
        let lid = self.player(pid).lid;
        let gone = LoopView { players: assoc::without(self.players, pid), ..self };
        if !self.has_player(pid) {
            self
        } else if !self.has_lobby(lid) {
            gone
        } else {
            let after = self.lobby(lid).left(pid, now);
            let left = gone.with_lobby(lid, after);
            let passed = if self.lobby(lid).passes_on(pid) {
                left.telling(lid, ServerMessageView::SetMaster { pid: after.master })
            } else {
                left
            };
            passed.telling(lid, ServerMessageView::Left { pid, reason }).cleanup_lobbies()
        }
    }

    /// A player's message goes to another one, if they are in the same lobby.
    pub open spec fn relay(
        self,
        from: BasicId,
        to: BasicId,
        msg: ServerMessageView,
    ) -> LoopView {
        if self.has_player(from) && self.has_player(to) && self.player(from).lid == self.player(
            to,
        ).lid {
            self.sending(to, msg)
        } else {
            self
        }
    }

    /// Whether one more session from the address is let in.
    pub open spec fn admits(self, ip: IpAddr) -> bool {
        &&& total_sessions(self.peers) < GLOBAL_SESSIONS_CAP
        &&& if self.has_peer(ip) {
            blaster::open_sessions(self.peer(ip).session_count) < SESSIONS_PER_IP_CAP
        } else {
            self.peers.len() < GLOBAL_PEERS_CAP
        }
    }

    pub open spec fn introduce_session(self, ip: IpAddr, now: Moment) -> LoopView {
        if !self.admits(ip) {
            self
        } else if self.has_peer(ip) {
            self.with_peer(ip, self.peer(ip).opened())
        } else {
            self.with_peer(ip, PeerView::fresh(now))
        }
    }

    pub open spec fn close_session(self, ip: IpAddr, now: Moment) -> LoopView {
        if self.has_peer(ip) {
            self.with_peer(ip, self.peer(ip).closed(now))
        } else {
            self
        }
    }

    /// The players of idle lobbies are shown the door, and addresses that no session has come from
    /// for long are forgotten.
    pub open spec fn prune(self, now: Moment) -> LoopView {
        LoopView {
            players: evicted(self.players, self.lobbies, now),
            peers: self.peers.filter(remembered(now)),
            ..self
        }
    }

    /// All messages that are on their way.
    pub open spec fn mail(self) -> Seq<(BasicId, Seq<ServerMessageView>)> {
        self.players.filter(has_mail()).map_values(delivery())
    }

    /// What the server holds once all messages have been fetched.
    pub open spec fn mail_collected(self) -> LoopView {
        LoopView {
            players: self.players.map_values(
                |e: (BasicId, PlayerView)| (e.0, PlayerView { outbox: seq![], ..e.1 }),
            ),
            ..self
        }
    }

    /// What the operation makes of what the server holds. A lobby that it opens goes by the number
    /// `lid`, and a player whom it lets in by the number `pid`.
    pub open spec fn step(
        self,
        op: OpView,
        now: Moment,
        lid: BasicId,
        pid: BasicId,
    ) -> LoopView {
        match op {
            OpView::ListLobbies { ip, .. } => self.cap_ip(ip, now),
            OpView::HostLobby {
                initiator,
                gid,
                lobby_meta,
                capacity,
                listed,
                player_metadata,
            } => self.host_lobby(
                initiator,
                gid,
                lobby_meta,
                capacity,
                listed,
                player_metadata,
                lid,
                pid,
                now,
            ),
            OpView::JoinLobby { ip, lid, player_metadata } => self.join_lobby(
                ip,
                lid,
                player_metadata,
                pid,
                now,
            ),
            OpView::SetCapacity { initiator, capacity } => self.set_capacity(
                initiator,
                capacity,
                now,
            ),
            OpView::SetListed { initiator, listed } => self.set_listed(
                initiator,
                listed,
                now,
            ),
            OpView::SetMaster { initiator, new_master } => self.set_master(
                initiator,
                new_master,
                now,
            ),
            OpView::SetPlayerMeta { pid, key, value } => self.set_player_meta(
                pid,
                key,
                value,
                now,
            ),
            OpView::ErasePlayerMeta { pid, key } => self.erase_player_meta(pid, key),
            OpView::SetLobbyMeta { initiator, key, value } => self.set_lobby_meta(
                initiator,
                key,
                value,
                now,
            ),
            OpView::EraseLobbyMeta { initiator, key } => self.erase_lobby_meta(
                initiator,
                key,
            ),
            OpView::KickPlayer { kicker, kickee } => self.kick_player(kicker, kickee),
            OpView::RemovePlayer { pid, reason } => self.remove_player(
                pid,
                reason,
                now,
            ),
            OpView::Relay { from, to, msg } => self.relay(from, to, msg),
            OpView::IntroduceSession { ip } => self.introduce_session(ip, now),
            OpView::Prune => self.prune(now),
            OpView::CloseSession { ip } => self.close_session(ip, now),
        }
    }

    /// What comes back for the operation.
    pub open spec fn reply(self, op: OpView, now: Moment, pid: BasicId) -> ReplyView {
        match op {
            OpView::ListLobbies { ip, gid, limit } => ReplyView::Listing(
                if self.serves(ip, now) {
                    Ok(self.list_lobbies(gid, limit))
                } else {
                    Err(LoopView::cap_ip_refusal())
                },
            ),
            OpView::HostLobby { initiator, gid, listed, .. } => ReplyView::Pid(
                match self.host_refusal(initiator, gid, listed, now) {
                    Some(kick) => Err(kick),
                    None => Ok(pid),
                },
            ),
            OpView::JoinLobby { ip, lid, .. } => ReplyView::Pid(
                match self.join_refusal(ip, lid, now) {
                    Some(kick) => Err(kick),
                    None => Ok(pid),
                },
            ),
            OpView::IntroduceSession { ip } => ReplyView::Introduced(self.admits(ip)),
            _ => ReplyView::Nothing,
        }
    }
}

} // verus!
