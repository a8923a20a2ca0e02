//! The event-loop server: peers, lobbies and players, and the operations on them.

use crate::blaster::model::{IceServerView, LobbyView, OpView, PeerView, PlayerView};
use crate::blaster::payloads::ServerMessage;
use crate::clock::Moment;
use crate::copy;
use crate::copy::Duplicate;
use crate::id::{BasicId, GameId, IdSet, IpAddr, LobbyId};
use crate::protocol;
use crate::protocol::aux::Metadata;
use crate::protocol::payloads::Kick;
use crate::tokens::TokenBucket;
use vstd::prelude::*;

pub mod consistency;
pub mod effects;
pub mod eventloop;
pub mod laws;
pub mod limits;
pub mod listings;
pub mod model;
pub mod payloads;
pub mod peers;
pub mod seats;

verus! {

/// How many sessions an address has open.
#[derive(Debug, Clone, Copy, PartialEq, Eq, Structural)]
pub enum PeerSessionCount {
    /// So many.
    Active(usize),
    /// None, since then.
    Decaying(Moment),
}

/// The number of open sessions.
pub open spec fn open_sessions(count: PeerSessionCount) -> nat {
    match count {
        PeerSessionCount::Active(n) => n as nat,
        PeerSessionCount::Decaying(_) => 0,
    }
}

/// An address that sessions come from.
pub struct Peer {
    pub session_count: PeerSessionCount,
    pub sessions_budget: TokenBucket,
}

impl View for Peer {
    type V = PeerView;

    open spec fn view(&self) -> PeerView {
        PeerView { session_count: self.session_count, sessions_budget: self.sessions_budget@ }
    }
}

impl Peer {
    /// An address with its first session.
    pub fn new(now: Moment) -> (p: Self)
        ensures
            p@ == PeerView::fresh(now),
    {
        Peer {
            session_count: PeerSessionCount::Active(1),
            sessions_budget: TokenBucket::new("sessions_per_ip", 2, 3, 4, now),
        }
    }

    pub fn session_count(&self) -> (n: usize)
        ensures
            n == open_sessions(self.session_count),
    {
        match self.session_count {
            PeerSessionCount::Active(count) => count,
            PeerSessionCount::Decaying(_) => 0,
        }
    }
}

/// A lobby.
pub struct Lobby {
    pub players: IdSet,
    pub initiator: IpAddr,
    pub master: BasicId,
    pub metadata: Metadata,
    pub capacity: usize,
    pub listed: bool,
    pub idle_since: Option<Moment>,
    pub created_at: Moment,
    pub alterations_budget: TokenBucket,
    pub metadata_budget: TokenBucket,
}

impl View for Lobby {
    type V = LobbyView;

    open spec fn view(&self) -> LobbyView {
        LobbyView {
            players: self.players@,
            initiator: self.initiator,
            master: self.master,
            metadata: self.metadata@,
            capacity: self.capacity,
            listed: self.listed,
            idle_since: self.idle_since,
            created_at: self.created_at,
            alterations_budget: self.alterations_budget@,
            metadata_budget: self.metadata_budget@,
        }
    }
}

impl Lobby {
    pub fn is_full(&self) -> (r: bool)
        ensures
            r == self@.is_full(),
    {
        self.players.ids.len() >= self.capacity
    }
}

/// A player, and the messages that are on their way to them.
pub struct Player {
    pub lid: LobbyId,
    pub metadata: Metadata,
    pub outbox: Vec<ServerMessage>,
    pub birth: u128,
    pub metadata_budget: TokenBucket,
}

impl View for Player {
    type V = PlayerView;

    open spec fn view(&self) -> PlayerView {
        PlayerView {
            lid: self.lid@,
            metadata: self.metadata@,
            outbox: copy::views(self.outbox@),
            birth: self.birth,
            metadata_budget: self.metadata_budget@,
        }
    }
}

impl Player {
    /// Puts a message on its way to the player.
    pub fn send(&mut self, msg: ServerMessage)
        ensures
            final(self)@ == old(self)@.posted(msg@),
    {
        let ghost before = self.outbox@;
        self.outbox.push(msg);
        assert(copy::views(self.outbox@) =~= copy::views(before).push(msg@));
    }

    /// Shows the player the door.
    pub fn boot(&mut self, reason: Kick)
        ensures
            final(self)@ == old(self)@.posted(model::boot(reason@)),
    {
        self.send(ServerMessage::Disconnected { reason });
    }

    /// Spends from a budget on the player's behalf; a player who cannot afford it is shown the door.
    pub fn try_take_from_budget(
        &mut self,
        budget: &mut TokenBucket,
        count: usize,
        now: Moment,
    ) -> (r: bool)
        ensures
            r == old(budget)@.affords(count as nat, now),
            final(budget)@ == old(budget)@.asked(count as nat, now),
            final(self)@ == if r {
                old(self)@
            } else {
                old(self)@.posted(model::boot(old(budget)@.refusal()))
            },
    {
        match budget.try_take(count, now) {
            Err(reason) => {
                self.boot(reason);
                false
            },
            Ok(_) => true,
        }
    }
}

/// How to identify oneself to an ICE server.
#[derive(Debug)]
pub struct Credentials {
    pub username: String,
    pub credential: String,
}

impl Clone for Credentials {
    fn clone(&self) -> (r: Self)
        ensures
            r == *self,
    {
        Credentials { username: self.username.clone(), credential: self.credential.clone() }
    }
}

/// A server that helps players to reach each other.
#[derive(Debug)]
pub struct IceServer {
    pub urls: String,
    pub creds: Option<Credentials>,
}

impl View for IceServer {
    type V = IceServerView;

    open spec fn view(&self) -> IceServerView {
        IceServerView {
            urls: self.urls@,
            creds: match self.creds {
                Some(c) => Some((c.username@, c.credential@)),
                None => None,
            },
        }
    }
}

impl Clone for IceServer {
    fn clone(&self) -> (r: Self)
        ensures
            r == *self,
    {
        IceServer {
            urls: self.urls.clone(),
            creds: match &self.creds {
                Some(c) => Some(c.clone()),
                None => None,
            },
        }
    }
}

impl Duplicate for IceServer {
    fn duplicate(&self) -> (r: Self) {
        self.clone()
    }
}

/// How the server is set up.
#[derive(Debug)]
pub struct Config {
    pub ice_servers: Vec<IceServer>,
    pub trust_reverse_proxy_xff: Option<bool>,
}

impl Clone for Config {
    fn clone(&self) -> (r: Self)
        ensures
            copy::views(r.ice_servers@) == copy::views(self.ice_servers@),
            r.trust_reverse_proxy_xff == self.trust_reverse_proxy_xff,
    {
        Config {
            ice_servers: copy::duplicate_all(&self.ice_servers),
            trust_reverse_proxy_xff: self.trust_reverse_proxy_xff,
        }
    }
}

impl Default for Config {
    fn default() -> (c: Self)
        ensures
            c.ice_servers@.len() == 0,
            c.trust_reverse_proxy_xff is None,
    {
        Config { ice_servers: Vec::new(), trust_reverse_proxy_xff: None }
    }
}

/// What the server is asked to do.
pub enum BlasterOperation {
    SetCapacity { initiator: BasicId, capacity: usize },
    SetListed { initiator: BasicId, listed: bool },
    SetMaster { initiator: BasicId, new_master: BasicId },
    SetPlayerMeta { pid: BasicId, key: String, value: String },
    ErasePlayerMeta { pid: BasicId, key: String },
    SetLobbyMeta { initiator: BasicId, key: String, value: String },
    EraseLobbyMeta { initiator: BasicId, key: String },
    Relay { from: BasicId, to: BasicId, msg: ServerMessage },
    ListLobbies { ip: IpAddr, gid: GameId, limit: usize },
    HostLobby {
        initiator: IpAddr,
        gid: GameId,
        lobby_meta: Metadata,
        capacity: usize,
        listed: bool,
        player_metadata: Metadata,
    },
    JoinLobby { ip: IpAddr, lid: LobbyId, player_metadata: Metadata },
    KickPlayer { kicker: BasicId, kickee: BasicId },
    RemovePlayer { pid: BasicId, reason: Option<Kick> },
    IntroduceSession { ip: IpAddr },
    Prune,
    CloseSession { ip: IpAddr },
}

impl View for BlasterOperation {
    type V = OpView;

    open spec fn view(&self) -> OpView {
        match *self {
            BlasterOperation::SetCapacity { initiator, capacity } => OpView::SetCapacity {
                initiator,
                capacity,
            },
            BlasterOperation::SetListed { initiator, listed } => OpView::SetListed {
                initiator,
                listed,
            },
            BlasterOperation::SetMaster { initiator, new_master } => OpView::SetMaster {
                initiator,
                new_master,
            },
            BlasterOperation::SetPlayerMeta { pid, key, value } => OpView::SetPlayerMeta {
                pid,
                key: key@,
                value: value@,
            },
            BlasterOperation::ErasePlayerMeta { pid, key } => OpView::ErasePlayerMeta {
                pid,
                key: key@,
            },
            BlasterOperation::SetLobbyMeta { initiator, key, value } => OpView::SetLobbyMeta {
                initiator,
                key: key@,
                value: value@,
            },
            BlasterOperation::EraseLobbyMeta { initiator, key } => OpView::EraseLobbyMeta {
                initiator,
                key: key@,
            },
            BlasterOperation::Relay { from, to, msg } => OpView::Relay { from, to, msg: msg@ },
            BlasterOperation::ListLobbies { ip, gid, limit } => OpView::ListLobbies {
                ip,
                gid: gid@,
                limit,
            },
            BlasterOperation::HostLobby {
                initiator,
                gid,
                lobby_meta,
                capacity,
                listed,
                player_metadata,
            } => OpView::HostLobby {
                initiator,
                gid: gid@,
                lobby_meta: lobby_meta@,
                capacity,
                listed,
                player_metadata: player_metadata@,
            },
            BlasterOperation::JoinLobby { ip, lid, player_metadata } => OpView::JoinLobby {
                ip,
                lid: lid@,
                player_metadata: player_metadata@,
            },
            BlasterOperation::KickPlayer { kicker, kickee } => OpView::KickPlayer {
                kicker,
                kickee,
            },
            BlasterOperation::RemovePlayer { pid, reason } => OpView::RemovePlayer {
                pid,
                reason: protocol::payloads::kick_said(reason),
            },
            BlasterOperation::IntroduceSession { ip } => OpView::IntroduceSession { ip },
            BlasterOperation::Prune => OpView::Prune,
            BlasterOperation::CloseSession { ip } => OpView::CloseSession { ip },
        }
    }
}

/// What is known of a lobby, a player and an address is what stands in them, each thing in its own
/// place.
pub proof fn law_what_is_held_is_what_stands_there(l: Lobby, p: Player, q: Peer)
    ensures
        l@.players == l.players.ids@,
        l@.initiator == l.initiator,
        l@.master == l.master,
        l@.metadata == l.metadata@,
        l@.capacity == l.capacity,
        l@.listed == l.listed,
        l@.idle_since == l.idle_since,
        l@.created_at == l.created_at,
        l@.alterations_budget == l.alterations_budget@,
        l@.metadata_budget == l.metadata_budget@,
        p@.lid == p.lid@,
        p@.metadata == p.metadata@,
        p@.outbox.len() == p.outbox@.len(),
        forall|i: int| 0 <= i < p.outbox@.len() ==> #[trigger] p@.outbox[i] == p.outbox@[i]@,
        p@.birth == p.birth,
        p@.metadata_budget == p.metadata_budget@,
        q@.session_count == q.session_count,
        q@.sessions_budget == q.sessions_budget@,
{
}

/// What an operation asks for is what stands in it, each thing in its own place.
pub proof fn law_operations_ask_for_what_stands_in_them(op: BlasterOperation)
    ensures
        match (op, op@) {
            (
                BlasterOperation::SetCapacity { initiator, capacity },
                OpView::SetCapacity { initiator: said_initiator, capacity: said_capacity },
            ) => {
                &&& said_initiator == initiator
                &&& said_capacity == capacity
            },
            (
                BlasterOperation::SetListed { initiator, listed },
                OpView::SetListed { initiator: said_initiator, listed: said_listed },
            ) => {
                &&& said_initiator == initiator
                &&& said_listed == listed
            },
            (
                BlasterOperation::SetMaster { initiator, new_master },
                OpView::SetMaster { initiator: said_initiator, new_master: said_new_master },
            ) => {
                &&& said_initiator == initiator
                &&& said_new_master == new_master
            },
            (
                BlasterOperation::SetPlayerMeta { pid, key, value },
                OpView::SetPlayerMeta { pid: said_pid, key: said_key, value: said_value },
            ) => {
                &&& said_pid == pid
                &&& said_key == key@
                &&& said_value == value@
            },
            (
                BlasterOperation::ErasePlayerMeta { pid, key },
                OpView::ErasePlayerMeta { pid: said_pid, key: said_key },
            ) => {
                &&& said_pid == pid
                &&& said_key == key@
            },
            (
                BlasterOperation::SetLobbyMeta { initiator, key, value },
                OpView::SetLobbyMeta {
                    initiator: said_initiator,
                    key: said_key,
                    value: said_value,
                },
            ) => {
                &&& said_initiator == initiator
                &&& said_key == key@
                &&& said_value == value@
            },
            (
                BlasterOperation::EraseLobbyMeta { initiator, key },
                OpView::EraseLobbyMeta { initiator: said_initiator, key: said_key },
            ) => {
                &&& said_initiator == initiator
                &&& said_key == key@
            },
            (
                BlasterOperation::Relay { from, to, msg },
                OpView::Relay { from: said_from, to: said_to, msg: said_msg },
            ) => {
                &&& said_from == from
                &&& said_to == to
                &&& said_msg == msg@
            },
            (
                BlasterOperation::ListLobbies { ip, gid, limit },
                OpView::ListLobbies { ip: said_ip, gid: said_gid, limit: said_limit },
            ) => {
                &&& said_ip == ip
                &&& said_gid == gid@
                &&& said_limit == limit
            },
            (
                BlasterOperation::HostLobby {
                    initiator,
                    gid,
                    lobby_meta,
                    capacity,
                    listed,
                    player_metadata,
                },
                OpView::HostLobby {
                    initiator: said_initiator,
                    gid: said_gid,
                    lobby_meta: said_lobby_meta,
                    capacity: said_capacity,
                    listed: said_listed,
                    player_metadata: said_player_metadata,
                },
            ) => {
                &&& said_initiator == initiator
                &&& said_gid == gid@
                &&& said_lobby_meta == lobby_meta@
                &&& said_capacity == capacity
                &&& said_listed == listed
                &&& said_player_metadata == player_metadata@
            },
            (
                BlasterOperation::JoinLobby { ip, lid, player_metadata },
                OpView::JoinLobby {
                    ip: said_ip,
                    lid: said_lid,
                    player_metadata: said_player_metadata,
                },
            ) => {
                &&& said_ip == ip
                &&& said_lid == lid@
                &&& said_player_metadata == player_metadata@
            },
            (
                BlasterOperation::KickPlayer { kicker, kickee },
                OpView::KickPlayer { kicker: said_kicker, kickee: said_kickee },
            ) => {
                &&& said_kicker == kicker
                &&& said_kickee == kickee
            },
            (
                BlasterOperation::RemovePlayer { pid, reason },
                OpView::RemovePlayer { pid: said_pid, reason: said_reason },
            ) => {
                &&& said_pid == pid
                &&& (match reason {
                Some(why) => said_reason == Some(why@),
                None => said_reason is None,
            })
            },
            (BlasterOperation::IntroduceSession { ip }, OpView::IntroduceSession { ip: said }) => {
                &&& said == ip
            },
            (BlasterOperation::Prune, OpView::Prune) => true,
            (BlasterOperation::CloseSession { ip }, OpView::CloseSession { ip: said }) => {
                &&& said == ip
            },
            _ => false,
        },
{
}

} // verus!
