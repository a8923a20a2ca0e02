//! The payloads of the event-loop server.

use crate::blaster::model::IceServerView;
use crate::blaster::IceServer;
use crate::copy;
use crate::copy::Duplicate;
use crate::id::{BasicId, GameId, LobbyId};
use crate::protocol::aux::{BoundedString, FieldKey, FieldValue, Metadata, MetadataView};
use crate::protocol::payloads;
use crate::protocol::payloads::{Kick, KickView};
use vstd::prelude::*;

verus! {

/// What a client asks of the server.
#[derive(Debug)]
pub enum ClientMessage {
    Ping,
    List { gid: GameId, limit: usize },
    Host {
        gid: GameId,
        capacity: usize,
        listed: bool,
        player_meta: Metadata,
        lobby_meta: Metadata,
    },
    Join { lid: LobbyId, player_meta: Metadata },
    SetListed { listed: bool },
    SetCapacity { capacity: usize },
    SetPlayerMeta { key: FieldKey, value: FieldValue },
    ErasePlayerMeta { key: FieldKey },
    SetLobbyMeta { key: FieldKey, value: FieldValue },
    EraseLobbyMeta { key: FieldKey },
    PassCandidate { to: BasicId, candidate: BoundedString, mid: BoundedString },
    PassOffer { to: BasicId, sdp: BoundedString },
    PassAnswer { to: BasicId, sdp: BoundedString },
    Kick { pid: BasicId },
    SetMaster { pid: BasicId },
}

/// What the server tells a client.
#[derive(Debug)]
pub enum ServerMessage {
    Pong,
    Connected { ice_servers: Vec<IceServer>, lid: BasicId, pid: BasicId, birth: u128 },
    Disconnected { reason: Kick },
    SetListed { listed: bool },
    SetCapacity { capacity: usize },
    SetPlayerMeta { pid: BasicId, key: String, value: String },
    ErasePlayerMeta { pid: BasicId, key: String },
    SetLobbyMeta { key: String, value: String },
    EraseLobbyMeta { key: String },
    SetMaster { pid: BasicId },
    Joined { pid: BasicId, metadata: Metadata, birth: u128 },
    Left { pid: BasicId, reason: Option<Kick> },
    Candidate { from: BasicId, candidate: String, mid: String },
    Offer { from: BasicId, sdp: String },
    Answer { from: BasicId, sdp: String },
    List { list: Vec<LobbyListing> },
}

/// What a [`ServerMessage`] says.
pub enum ServerMessageView {
    Pong,
    Connected { ice_servers: Seq<IceServerView>, lid: BasicId, pid: BasicId, birth: u128 },
    Disconnected { reason: KickView },
    SetListed { listed: bool },
    SetCapacity { capacity: usize },
    SetPlayerMeta { pid: BasicId, key: Seq<char>, value: Seq<char> },
    ErasePlayerMeta { pid: BasicId, key: Seq<char> },
    SetLobbyMeta { key: Seq<char>, value: Seq<char> },
    EraseLobbyMeta { key: Seq<char> },
    SetMaster { pid: BasicId },
    Joined { pid: BasicId, metadata: MetadataView, birth: u128 },
    Left { pid: BasicId, reason: Option<KickView> },
    Candidate { from: BasicId, candidate: Seq<char>, mid: Seq<char> },
    Offer { from: BasicId, sdp: Seq<char> },
    Answer { from: BasicId, sdp: Seq<char> },
    List { list: Seq<LobbyListingView> },
}

impl View for ServerMessage {
    type V = ServerMessageView;

    open spec fn view(&self) -> ServerMessageView {
        match *self {
            ServerMessage::Pong => ServerMessageView::Pong,
            ServerMessage::Connected { ice_servers, lid, pid, birth } => {
                ServerMessageView::Connected {
                    ice_servers: copy::views(ice_servers@),
                    lid,
                    pid,
                    birth,
                }
            },
            ServerMessage::Disconnected { reason } => ServerMessageView::Disconnected {
                reason: reason@,
            },
            ServerMessage::SetListed { listed } => ServerMessageView::SetListed { listed },
            ServerMessage::SetCapacity { capacity } => ServerMessageView::SetCapacity { capacity },
            ServerMessage::SetPlayerMeta { pid, key, value } => ServerMessageView::SetPlayerMeta {
                pid,
                key: key@,
                value: value@,
            },
            ServerMessage::ErasePlayerMeta { pid, key } => ServerMessageView::ErasePlayerMeta {
                pid,
                key: key@,
            },
            ServerMessage::SetLobbyMeta { key, value } => ServerMessageView::SetLobbyMeta {
                key: key@,
                value: value@,
            },
            ServerMessage::EraseLobbyMeta { key } => ServerMessageView::EraseLobbyMeta {
                key: key@,
            },
            ServerMessage::SetMaster { pid } => ServerMessageView::SetMaster { pid },
            ServerMessage::Joined { pid, metadata, birth } => ServerMessageView::Joined {
                pid,
                metadata: metadata@,
                birth,
            },
            ServerMessage::Left { pid, reason } => ServerMessageView::Left {
                pid,
                reason: payloads::kick_said(reason),
            },
            ServerMessage::Candidate { from, candidate, mid } => ServerMessageView::Candidate {
                from,
                candidate: candidate@,
                mid: mid@,
            },
            ServerMessage::Offer { from, sdp } => ServerMessageView::Offer { from, sdp: sdp@ },
            ServerMessage::Answer { from, sdp } => ServerMessageView::Answer { from, sdp: sdp@ },
            ServerMessage::List { list } => ServerMessageView::List { list: copy::views(list@) },
        }
    }
}

/// What a message says is what stands in it, each thing in its own place.
pub proof fn law_messages_say_what_stands_in_them(m: ServerMessage)
    ensures
        match (m, m@) {
            (ServerMessage::Pong, ServerMessageView::Pong) => true,
            (
                ServerMessage::Connected { ice_servers, lid, pid, birth },
                ServerMessageView::Connected {
                    ice_servers: said_ice_servers,
                    lid: said_lid,
                    pid: said_pid,
                    birth: said_birth,
                },
            ) => {
                &&& said_ice_servers.len() == ice_servers@.len() && (forall|i: int|
                0 <= i < ice_servers@.len() ==> #[trigger] said_ice_servers[i] == ice_servers@[i]@)
                &&& said_lid == lid
                &&& said_pid == pid
                &&& said_birth == birth
            },
            (
                ServerMessage::Disconnected { reason },
                ServerMessageView::Disconnected { reason: said },
            ) => {
                &&& said == reason@
            },
            (
                ServerMessage::SetListed { listed },
                ServerMessageView::SetListed { listed: said },
            ) => {
                &&& said == listed
            },
            (
                ServerMessage::SetCapacity { capacity },
                ServerMessageView::SetCapacity { capacity: said },
            ) => {
                &&& said == capacity
            },
            (
                ServerMessage::SetPlayerMeta { pid, key, value },
                ServerMessageView::SetPlayerMeta {
                    pid: said_pid,
                    key: said_key,
                    value: said_value,
                },
            ) => {
                &&& said_pid == pid
                &&& said_key == key@
                &&& said_value == value@
            },
            (
                ServerMessage::ErasePlayerMeta { pid, key },
                ServerMessageView::ErasePlayerMeta { pid: said_pid, key: said_key },
            ) => {
                &&& said_pid == pid
                &&& said_key == key@
            },
            (
                ServerMessage::SetLobbyMeta { key, value },
                ServerMessageView::SetLobbyMeta { key: said_key, value: said_value },
            ) => {
                &&& said_key == key@
                &&& said_value == value@
            },
            (
                ServerMessage::EraseLobbyMeta { key },
                ServerMessageView::EraseLobbyMeta { key: said },
            ) => {
                &&& said == key@
            },
            (ServerMessage::SetMaster { pid }, ServerMessageView::SetMaster { pid: said }) => {
                &&& said == pid
            },
            (
                ServerMessage::Joined { pid, metadata, birth },
                ServerMessageView::Joined {
                    pid: said_pid,
                    metadata: said_metadata,
                    birth: said_birth,
                },
            ) => {
                &&& said_pid == pid
                &&& said_metadata == metadata@
                &&& said_birth == birth
            },
            (
                ServerMessage::Left { pid, reason },
                ServerMessageView::Left { pid: said_pid, reason: said_reason },
            ) => {
                &&& said_pid == pid
                &&& (match reason {
                Some(why) => said_reason == Some(why@),
                None => said_reason is None,
            })
            },
            (
                ServerMessage::Candidate { from, candidate, mid },
                ServerMessageView::Candidate {
                    from: said_from,
                    candidate: said_candidate,
                    mid: said_mid,
                },
            ) => {
                &&& said_from == from
                &&& said_candidate == candidate@
                &&& said_mid == mid@
            },
            (
                ServerMessage::Offer { from, sdp },
                ServerMessageView::Offer { from: said_from, sdp: said_sdp },
            ) => {
                &&& said_from == from
                &&& said_sdp == sdp@
            },
            (
                ServerMessage::Answer { from, sdp },
                ServerMessageView::Answer { from: said_from, sdp: said_sdp },
            ) => {
                &&& said_from == from
                &&& said_sdp == sdp@
            },
            (ServerMessage::List { list }, ServerMessageView::List { list: said }) => {
                &&& said.len() == list@.len() && (forall|i: int|
                0 <= i < list@.len() ==> #[trigger] said[i] == list@[i]@)
            },
            _ => false,
        },
{
}

impl Clone for ServerMessage {
    fn clone(&self) -> (r: Self)
        ensures
            r@ == self@,
    {
        match self {
            ServerMessage::Pong => ServerMessage::Pong,
            ServerMessage::Connected { ice_servers, lid, pid, birth } => ServerMessage::Connected {
                ice_servers: copy::duplicate_all(ice_servers),
                lid: *lid,
                pid: *pid,
                birth: *birth,
            },
            ServerMessage::Disconnected { reason } => ServerMessage::Disconnected {
                reason: reason.clone(),
            },
            ServerMessage::SetListed { listed } => ServerMessage::SetListed { listed: *listed },
            ServerMessage::SetCapacity { capacity } => ServerMessage::SetCapacity {
                capacity: *capacity,
            },
            ServerMessage::SetPlayerMeta { pid, key, value } => ServerMessage::SetPlayerMeta {
                pid: *pid,
                key: key.clone(),
                value: value.clone(),
            },
            ServerMessage::ErasePlayerMeta { pid, key } => ServerMessage::ErasePlayerMeta {
                pid: *pid,
                key: key.clone(),
            },
            ServerMessage::SetLobbyMeta { key, value } => ServerMessage::SetLobbyMeta {
                key: key.clone(),
                value: value.clone(),
            },
            ServerMessage::EraseLobbyMeta { key } => ServerMessage::EraseLobbyMeta {
                key: key.clone(),
            },
            ServerMessage::SetMaster { pid } => ServerMessage::SetMaster { pid: *pid },
            ServerMessage::Joined { pid, metadata, birth } => ServerMessage::Joined {
                pid: *pid,
                metadata: metadata.clone(),
                birth: *birth,
            },
            ServerMessage::Left { pid, reason } => ServerMessage::Left {
                pid: *pid,
                reason: payloads::clone_kick(reason),
            },
            ServerMessage::Candidate { from, candidate, mid } => ServerMessage::Candidate {
                from: *from,
                candidate: candidate.clone(),
                mid: mid.clone(),
            },
            ServerMessage::Offer { from, sdp } => ServerMessage::Offer {
                from: *from,
                sdp: sdp.clone(),
            },
            ServerMessage::Answer { from, sdp } => ServerMessage::Answer {
                from: *from,
                sdp: sdp.clone(),
            },
            ServerMessage::List { list } => ServerMessage::List { list: copy::duplicate_all(list) },
        }
    }
}

/// A lobby as it is shown to those who look for one.
#[derive(Debug)]
pub struct LobbyListing {
    pub lid: BasicId,
    pub players: usize,
    pub max: usize,
    pub metadata: Metadata,
}

/// What a [`LobbyListing`] says.
pub struct LobbyListingView {
    pub lid: BasicId,
    pub players: usize,
    pub max: usize,
    pub metadata: MetadataView,
}

impl View for LobbyListing {
    type V = LobbyListingView;

    open spec fn view(&self) -> LobbyListingView {
        LobbyListingView {
            lid: self.lid,
            players: self.players,
            max: self.max,
            metadata: self.metadata@,
        }
    }
}

/// What a listing says is what stands in it, each thing in its own place.
pub proof fn law_listings_say_what_stands_in_them(l: LobbyListing)
    ensures
        l@.lid == l.lid,
        l@.players == l.players,
        l@.max == l.max,
        l@.metadata == l.metadata@,
{
}

impl Clone for LobbyListing {
    fn clone(&self) -> (r: Self)
        ensures
            r@ == self@,
    {
        LobbyListing {
            lid: self.lid,
            players: self.players,
            max: self.max,
            metadata: self.metadata.clone(),
        }
    }
}

impl Duplicate for LobbyListing {
    fn duplicate(&self) -> (r: Self) {
        self.clone()
    }
}

} // verus!
