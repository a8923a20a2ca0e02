//! The mailbox server's state and the operations on it.

use crate::assoc;
use crate::clock;
use crate::clock::{Moment, SECOND};
use crate::copy;
use crate::id::{BasicId, GameId, LobbyId, LobbyKey};
use crate::mailbox::model;
use crate::mailbox::model::{BlasterView, LobbyView, OpView, PlayerView, ReplyView};
use crate::protocol::aux::Metadata;
use crate::protocol::payloads;
use crate::protocol::payloads::{Kick, LobbyListing, ServerMessage};
use crate::roster::Roster;
use crate::table::{Key, Table};
use crate::MAX_PLAYERS;
use vstd::prelude::*;

verus! {

/// How many lobbies are listed at most.
pub const MAX_LOBBIES_IN_LIST: usize = 100;

/// How long somebody may be alone in a lobby: ten minutes, in nanoseconds.
pub const CHUD_LOBBY_TIMEOUT: u64 = 600 * SECOND;

/// A lobby.
pub struct Lobby {
    pub master: BasicId,
    pub meta: Metadata,
    pub capacity: usize,
    pub listed: bool,
    pub swarm: bool,
    pub death_timer: Option<Moment>,
}

impl View for Lobby {
    type V = LobbyView;

    open spec fn view(&self) -> LobbyView {
        LobbyView {
            master: self.master,
            meta: self.meta@,
            capacity: self.capacity,
            listed: self.listed,
            swarm: self.swarm,
            death_timer: self.death_timer,
        }
    }
}

impl Clone for Lobby {
    fn clone(&self) -> (r: Self)
        ensures
            r@ == self@,
    {
        Lobby {
            master: self.master,
            meta: self.meta.clone(),
            capacity: self.capacity,
            listed: self.listed,
            swarm: self.swarm,
            death_timer: self.death_timer,
        }
    }
}

impl Lobby {
    pub fn ugly_new(master: BasicId, meta: Metadata, capacity: usize, listed: bool) -> (l: Self)
        ensures
            l == (Lobby { master, meta, capacity, listed, swarm: false, death_timer: None }),
    {
        Lobby { master, meta, capacity, listed, swarm: false, death_timer: None }
    }

    /// A lobby that players are put into without having asked for it.
    pub fn new_swarm(master: BasicId, meta: Metadata) -> (l: Self)
        ensures
            l == (Lobby {
                master,
                meta,
                capacity: MAX_PLAYERS,
                listed: false,
                swarm: true,
                death_timer: None,
            }),
    {
        let mut lober = Self::ugly_new(master, meta, MAX_PLAYERS, false);
        lober.swarm = true;
        lober
    }
}

/// A player.
pub struct Player {
    pub lid: LobbyId,
    pub meta: Metadata,
    pub queue: Vec<ServerMessage>,
}

impl View for Player {
    type V = PlayerView;

    open spec fn view(&self) -> PlayerView {
        PlayerView { lid: self.lid@, meta: self.meta@, queue: copy::views(self.queue@) }
    }
}

impl Player {
    /// Queues a message for the player.
    pub fn send(&mut self, msg: ServerMessage)
        ensures
            final(self)@ == old(self)@.posted(msg@),
    {
        let ghost before = self.queue@;
        self.queue.push(msg);
        assert(copy::views(self.queue@) =~= copy::views(before).push(msg@));
    }
}

/// How the server is set up.
pub struct Config {
    pub ice_servers: Vec<String>,
}

impl Clone for Config {
    fn clone(&self) -> (r: Self)
        ensures
            copy::views(r.ice_servers@) == copy::views(self.ice_servers@),
    {
        Config { ice_servers: copy::duplicate_all(&self.ice_servers) }
    }
}

/// What the server is asked to do.
pub enum BlasterOperation {
    CleanupLobbies,
    SetLobbyCapacity { lid: LobbyId, capacity: usize },
    SetLobbyListed { lid: LobbyId, listed: bool },
    SetPlayerMeta { pid: BasicId, key: String, value: String },
    ErasePlayerMeta { pid: BasicId, key: String },
    SetLobbyMeta { lid: LobbyId, key: String, value: String },
    EraseLobbyMeta { lid: LobbyId, key: String },
    MasterOf { lid: LobbyId },
    HasLobby { lid: LobbyId },
    HasPlayer { pid: BasicId },
    LobbyFull { lid: LobbyId },
    LobbyIsSwarm { lid: LobbyId },
    IntroducePlayer { pid: BasicId, lid: LobbyId, player_meta: Metadata },
    SendTo { pid: BasicId, msg: ServerMessage },
    SetLobbyMaster { initiator_pid: BasicId, new_master_pid: BasicId },
    ListLobbies { gid: GameId, limit: usize },
    InsertLobby { lid: LobbyId, lobby: Lobby },
    KickPlayer { lid: LobbyId, pid: BasicId },
    RemovePlayer { lid: LobbyId, pid: BasicId, reason: Option<Kick> },
    AdvanceLobbyTimer { lid: LobbyId },
    FlushPlayerQueue { pid: BasicId },
}

impl View for BlasterOperation {
    type V = OpView;

    open spec fn view(&self) -> OpView {
        match *self {
            BlasterOperation::CleanupLobbies => OpView::CleanupLobbies,
            BlasterOperation::SetLobbyCapacity { lid, capacity } => OpView::SetLobbyCapacity {
                lid: lid@,
                capacity,
            },
            BlasterOperation::SetLobbyListed { lid, listed } => OpView::SetLobbyListed {
                lid: lid@,
                listed,
            },
            BlasterOperation::SetPlayerMeta { pid, key, value } => OpView::SetPlayerMeta {
                pid,
                key: key@,
                value: value@,
            },
            BlasterOperation::ErasePlayerMeta { pid, key } => OpView::ErasePlayerMeta {
                pid,
                key: key@,
            },
            BlasterOperation::SetLobbyMeta { lid, key, value } => OpView::SetLobbyMeta {
                lid: lid@,
                key: key@,
                value: value@,
            },
            BlasterOperation::EraseLobbyMeta { lid, key } => OpView::EraseLobbyMeta {
                lid: lid@,
                key: key@,
            },
            BlasterOperation::MasterOf { lid } => OpView::MasterOf { lid: lid@ },
            BlasterOperation::HasLobby { lid } => OpView::HasLobby { lid: lid@ },
            BlasterOperation::HasPlayer { pid } => OpView::HasPlayer { pid },
            BlasterOperation::LobbyFull { lid } => OpView::LobbyFull { lid: lid@ },
            BlasterOperation::LobbyIsSwarm { lid } => OpView::LobbyIsSwarm { lid: lid@ },
            BlasterOperation::IntroducePlayer { pid, lid, player_meta } =>
                OpView::IntroducePlayer { pid, lid: lid@, player_meta: player_meta@ },
            BlasterOperation::SendTo { pid, msg } => OpView::SendTo { pid, msg: msg@ },
            BlasterOperation::SetLobbyMaster { initiator_pid, new_master_pid } =>
                OpView::SetLobbyMaster { initiator_pid, new_master_pid },
            BlasterOperation::ListLobbies { gid, limit } => OpView::ListLobbies {
                gid: gid@,
                limit,
            },
            BlasterOperation::InsertLobby { lid, lobby } => OpView::InsertLobby {
                lid: lid@,
                lobby: lobby@,
            },
            BlasterOperation::KickPlayer { lid, pid } => OpView::KickPlayer { lid: lid@, pid },
            BlasterOperation::RemovePlayer { lid, pid, reason } => OpView::RemovePlayer {
                lid: lid@,
                pid,
                reason: payloads::kick_said(reason),
            },
            BlasterOperation::AdvanceLobbyTimer { lid } => OpView::AdvanceLobbyTimer {
                lid: lid@,
            },
            BlasterOperation::FlushPlayerQueue { pid } => OpView::FlushPlayerQueue { pid },
        }
    }
}

/// What is known of a lobby and a player is what stands in them, each thing in its own place.
pub proof fn law_what_is_held_is_what_stands_there(l: Lobby, p: Player)
    ensures
        l@.master == l.master,
        l@.meta == l.meta@,
        l@.capacity == l.capacity,
        l@.listed == l.listed,
        l@.swarm == l.swarm,
        l@.death_timer == l.death_timer,
        p@.lid == p.lid@,
        p@.meta == p.meta@,
        p@.queue.len() == p.queue@.len(),
        forall|i: int| 0 <= i < p.queue@.len() ==> #[trigger] p@.queue[i] == p.queue@[i]@,
{
}

/// What an operation asks for is what stands in it, each thing in its own place.
pub proof fn law_operations_ask_for_what_stands_in_them(op: BlasterOperation)
    ensures
        match (op, op@) {
            (BlasterOperation::CleanupLobbies, OpView::CleanupLobbies) => true,
            (
                BlasterOperation::SetLobbyCapacity { lid, capacity },
                OpView::SetLobbyCapacity { lid: said_lid, capacity: said_capacity },
            ) => {
                &&& said_lid == lid@
                &&& said_capacity == capacity
            },
            (
                BlasterOperation::SetLobbyListed { lid, listed },
                OpView::SetLobbyListed { lid: said_lid, listed: said_listed },
            ) => {
                &&& said_lid == lid@
                &&& said_listed == listed
            },
            (
                BlasterOperation::SetPlayerMeta { pid, key, value },
                OpView::SetPlayerMeta { pid: said_pid, key: said_key, value: said_value },
            ) => {
                &&& said_pid == pid
                &&& said_key == key@
                &&& said_value == value@
            },
            (
                BlasterOperation::ErasePlayerMeta { pid, key },
                OpView::ErasePlayerMeta { pid: said_pid, key: said_key },
            ) => {
                &&& said_pid == pid
                &&& said_key == key@
            },
            (
                BlasterOperation::SetLobbyMeta { lid, key, value },
                OpView::SetLobbyMeta { lid: said_lid, key: said_key, value: said_value },
            ) => {
                &&& said_lid == lid@
                &&& said_key == key@
                &&& said_value == value@
            },
            (
                BlasterOperation::EraseLobbyMeta { lid, key },
                OpView::EraseLobbyMeta { lid: said_lid, key: said_key },
            ) => {
                &&& said_lid == lid@
                &&& said_key == key@
            },
            (BlasterOperation::MasterOf { lid }, OpView::MasterOf { lid: said }) => {
                &&& said == lid@
            },
            (BlasterOperation::HasLobby { lid }, OpView::HasLobby { lid: said }) => {
                &&& said == lid@
            },
            (BlasterOperation::HasPlayer { pid }, OpView::HasPlayer { pid: said }) => {
                &&& said == pid
            },
            (BlasterOperation::LobbyFull { lid }, OpView::LobbyFull { lid: said }) => {
                &&& said == lid@
            },
            (BlasterOperation::LobbyIsSwarm { lid }, OpView::LobbyIsSwarm { lid: said }) => {
                &&& said == lid@
            },
            (
                BlasterOperation::IntroducePlayer { pid, lid, player_meta },
                OpView::IntroducePlayer {
                    pid: said_pid,
                    lid: said_lid,
                    player_meta: said_player_meta,
                },
            ) => {
                &&& said_pid == pid
                &&& said_lid == lid@
                &&& said_player_meta == player_meta@
            },
            (
                BlasterOperation::SendTo { pid, msg },
                OpView::SendTo { pid: said_pid, msg: said_msg },
            ) => {
                &&& said_pid == pid
                &&& said_msg == msg@
            },
            (
                BlasterOperation::SetLobbyMaster { initiator_pid, new_master_pid },
                OpView::SetLobbyMaster {
                    initiator_pid: said_initiator_pid,
                    new_master_pid: said_new_master_pid,
                },
            ) => {
                &&& said_initiator_pid == initiator_pid
                &&& said_new_master_pid == new_master_pid
            },
            (
                BlasterOperation::ListLobbies { gid, limit },
                OpView::ListLobbies { gid: said_gid, limit: said_limit },
            ) => {
                &&& said_gid == gid@
                &&& said_limit == limit
            },
            (
                BlasterOperation::InsertLobby { lid, lobby },
                OpView::InsertLobby { lid: said_lid, lobby: said_lobby },
            ) => {
                &&& said_lid == lid@
                &&& said_lobby == lobby@
            },
            (
                BlasterOperation::KickPlayer { lid, pid },
                OpView::KickPlayer { lid: said_lid, pid: said_pid },
            ) => {
                &&& said_lid == lid@
                &&& said_pid == pid
            },
            (
                BlasterOperation::RemovePlayer { lid, pid, reason },
                OpView::RemovePlayer { lid: said_lid, pid: said_pid, reason: said_reason },
            ) => {
                &&& said_lid == lid@
                &&& said_pid == pid
                &&& (match reason {
                Some(why) => said_reason == Some(why@),
                None => said_reason is None,
            })
            },
            (
                BlasterOperation::AdvanceLobbyTimer { lid },
                OpView::AdvanceLobbyTimer { lid: said },
            ) => {
                &&& said == lid@
            },
            (
                BlasterOperation::FlushPlayerQueue { pid },
                OpView::FlushPlayerQueue { pid: said },
            ) => {
                &&& said == pid
            },
            _ => false,
        },
{
}

/// What comes back for an operation.
pub enum Reply {
    /// No answer.
    Nothing,
    Master(Option<BasicId>),
    Answer(bool),
    Listing(Vec<LobbyListing>),
    Timer(Result<(), Kick>),
    Queue(Vec<ServerMessage>),
}

impl View for Reply {
    type V = ReplyView;

    open spec fn view(&self) -> ReplyView {
        match *self {
            Reply::Nothing => ReplyView::Nothing,
            Reply::Master(m) => ReplyView::Master(m),
            Reply::Answer(b) => ReplyView::Answer(b),
            Reply::Listing(l) => ReplyView::Listing(copy::views(l@)),
            Reply::Timer(Ok(_)) => ReplyView::Timer(None),
            Reply::Timer(Err(k)) => ReplyView::Timer(Some(k@)),
            Reply::Queue(q) => ReplyView::Queue(copy::views(q@)),
        }
    }
}

/// What an answer says is what stands in it.
pub proof fn law_answers_say_what_stands_in_them(r: Reply)
    ensures
        match (r, r@) {
            (Reply::Nothing, ReplyView::Nothing) => true,
            (Reply::Master(who), ReplyView::Master(said)) => said == who,
            (Reply::Answer(yes), ReplyView::Answer(said)) => said == yes,
            (Reply::Listing(list), ReplyView::Listing(said)) => {
                &&& said.len() == list@.len()
                &&& forall|i: int| 0 <= i < list@.len() ==> #[trigger] said[i] == list@[i]@
            },
            (Reply::Timer(Ok(_)), ReplyView::Timer(said)) => said is None,
            (Reply::Timer(Err(why)), ReplyView::Timer(said)) => said == Some(why@),
            (Reply::Queue(msgs), ReplyView::Queue(said)) => {
                &&& said.len() == msgs@.len()
                &&& forall|i: int| 0 <= i < msgs@.len() ==> #[trigger] said[i] == msgs@[i]@
            },
            _ => false,
        },
{
}

/// The mailbox server.
pub struct BlasterImpl {
    pub lobbies: Table<LobbyId, Lobby>,
    pub players: Roster<Player>,
    pub config: Config,
}

impl View for BlasterImpl {
    type V = BlasterView;

    open spec fn view(&self) -> BlasterView {
        BlasterView {
            lobbies: self.lobbies@,
            players: self.players@,
            ice_servers: copy::views(self.config.ice_servers@),
        }
    }
}

impl BlasterImpl {
    pub open spec fn wf(&self) -> bool {
        self.players.wf() && self@.wf()
    }

    /// A server with no lobbies and no players.
    pub fn new(config: Config) -> (b: Self)
        ensures
            b.wf(),
            b@ == (BlasterView {
                lobbies: seq![],
                players: seq![],
                ice_servers: copy::views(config.ice_servers@),
            }),
    {
        BlasterImpl { lobbies: Table::new(), players: Roster::new(), config }
    }

    /// How many players are in the lobby.
    pub fn players_in(&self, lid: &LobbyId) -> (n: usize)
        requires
            self.wf(),
        ensures
            n == model::players_in(self@.players, lid@),
    {
        let ghost all = self@.players;
        let mut counter: usize = 0;
        let mut i: usize = 0;
        while i < self.players.len()
            invariant
                self.wf(),
                all == self@.players,
                i <= all.len(),
                counter <= i,
                counter == model::players_in(all.take(i as int), lid@),
            decreases all.len() - i,
        {
            proof {
                assert(all.take(i + 1).drop_last() =~= all.take(i as int));
                reveal(Seq::filter);
            }
            if self.players.player_at(i).lid.same(lid) {
                counter = counter + 1;
            }
            i = i + 1;
        }
        assert(all.take(i as int) =~= all);
        counter
    }

    /// Queues a message for the player.
    pub fn send_to(&mut self, pid: BasicId, msg: ServerMessage)
        requires
            old(self).wf(),
        ensures
            final(self).wf(),
            final(self)@ == (BlasterView {
                players: model::sent(old(self)@.players, pid, msg@),
                ..old(self)@
            }),
    {
        if let Some(i) = self.players.find(pid) {
            self.players.player_mut(i).send(msg);
        }
    }

    /// Queues a message for everybody in the lobby.
    pub fn send_to_lobby(&mut self, lid: &LobbyId, msg: &ServerMessage)
        requires
            old(self).wf(),
        ensures
            final(self).wf(),
            final(self)@ == old(self)@.telling(lid@, msg@),
    {
        let ghost all = self@.players;
        let ghost after = model::told(all, lid@, msg@);
        let mut i: usize = 0;
        while i < self.players.len()
            invariant
                self.wf(),
                after == model::told(all, lid@, msg@),
                self@ == (BlasterView { players: self@.players, ..old(self)@ }),
                self@.players.len() == all.len(),
                i <= all.len(),
                forall|j: int| 0 <= j < i ==> #[trigger] self@.players[j] == after[j],
                forall|j: int| i <= j < all.len() ==> #[trigger] self@.players[j] == all[j],
                forall|j: int| 0 <= j < all.len() ==> assoc::keyed((#[trigger] all[j]).1.meta),
            decreases all.len() - i,
        {
            if self.players.player_at(i).lid.same(lid) {
                self.players.player_mut(i).send(msg.clone());
            }
            i = i + 1;
        }
        assert(self@.players =~= after);
    }

    /// The lobby's master; somebody who is found to take over the post has it from now on.
    pub fn master_of(&mut self, lid: &LobbyId) -> (r: Option<BasicId>)
        requires
            old(self).wf(),
        ensures
            final(self).wf(),
            r == old(self)@.master_of(lid@),
            final(self)@ == old(self)@.mastered(lid@),
    {
        let ghost before = self@;
        let i: usize = match self.lobbies.find(lid) {
            Some(i) => i,
            None => {
                return None;
            },
        };
        let master: BasicId = self.lobbies.value_at(i).master;
        if self.players.contains(master) {
            assert(before.mastered(lid@).lobbies =~= before.lobbies);
            return Some(master);
        }
        match self.first_in(lid) {
            None => None,
            Some(new) => {
                self.lobbies.value_mut(i).master = new;
                Some(new)
            },
        }
    }

    /// Who has been in the lobby the longest.
    fn first_in(&self, lid: &LobbyId) -> (r: Option<BasicId>)
        requires
            self.wf(),
        ensures
            r is None <==> model::players_in(self@.players, lid@) == 0,
            r matches Some(pid) ==> pid == self@.players.filter(model::in_lobby(lid@))[0].0,
    {
        let ghost all = self@.players;
        let ghost wanted = model::in_lobby(lid@);
        let mut i: usize = 0;
        while i < self.players.len()
            invariant
                self.wf(),
                all == self@.players,
                wanted == model::in_lobby(lid@),
                i <= all.len(),
                all.take(i as int).filter(wanted).len() == 0,
            decreases all.len() - i,
        {
            proof {
                assert(all.take(i + 1).drop_last() =~= all.take(i as int));
                reveal(Seq::filter);
            }
            if self.players.player_at(i).lid.same(lid) {
                proof {
                    assert(all =~= all.take(i + 1) + all.skip(i + 1));
                    Seq::filter_distributes_over_add(all.take(i + 1), all.skip(i + 1), wanted);
                }
                return Some(self.players.pid_at(i));
            }
            i = i + 1;
        }
        assert(all.take(i as int) =~= all);
        None
    }

    /// Whether there are as many players in the lobby as it may hold.
    pub fn lobby_full(&self, lid: &LobbyId) -> (r: bool)
        requires
            self.wf(),
        ensures
            r == self@.lobby_full(lid@),
    {
        match self.lobbies.find(lid) {
            Some(i) => self.players_in(lid) >= self.lobbies.value_at(i).capacity,
            None => false,
        }
    }

    fn set_lobby_capacity(&mut self, lid: LobbyId, capacity: usize)
        requires
            old(self).wf(),
        ensures
            final(self).wf(),
            final(self)@ == old(self)@.set_lobby_capacity(lid@, capacity),
    {
        if let Some(i) = self.lobbies.find(&lid) {
            self.lobbies.value_mut(i).capacity = capacity;
            self.send_to_lobby(&lid, &ServerMessage::SetCapacity { capacity });
        }
    }

    fn set_lobby_listed(&mut self, lid: LobbyId, listed: bool)
        requires
            old(self).wf(),
        ensures
            final(self).wf(),
            final(self)@ == old(self)@.set_lobby_listed(lid@, listed),
    {
        if let Some(i) = self.lobbies.find(&lid) {
            self.lobbies.value_mut(i).listed = listed;
            self.send_to_lobby(&lid, &ServerMessage::SetListed { listed });
        }
    }

    fn set_player_meta(&mut self, pid: BasicId, key: String, value: String)
        requires
            old(self).wf(),
        ensures
            final(self).wf(),
            final(self)@ == old(self)@.set_player_meta(pid, key@, value@),
    {
        if let Some(i) = self.players.find(pid) {
            if self.players.player_at(i).meta.can_add(key.as_str()) {
                let lid = self.players.player_at(i).lid.clone();
                self.players.player_mut(i).meta.0.insert(key.clone(), value.clone());
                self.send_to_lobby(&lid, &ServerMessage::SetPlayerMeta { pid, key, value });
            }
        }
    }

    fn erase_player_meta(&mut self, pid: BasicId, key: String)
        requires
            old(self).wf(),
        ensures
            final(self).wf(),
            final(self)@ == old(self)@.erase_player_meta(pid, key@),
    {
        if let Some(i) = self.players.find(pid) {
            if self.players.player_at(i).meta.0.contains_key(&key) {
                let lid = self.players.player_at(i).lid.clone();
                self.players.player_mut(i).meta.0.remove(&key);
                self.send_to_lobby(&lid, &ServerMessage::ErasePlayerMeta { pid, key });
            }
        }
    }

    fn set_lobby_meta(&mut self, lid: LobbyId, key: String, value: String)
        requires
            old(self).wf(),
        ensures
            final(self).wf(),
            final(self)@ == old(self)@.set_lobby_meta(lid@, key@, value@),
    {
        if let Some(i) = self.lobbies.find(&lid) {
            if self.lobbies.value_at(i).meta.can_add(key.as_str()) {
                self.lobbies.value_mut(i).meta.0.insert(key.clone(), value.clone());
                self.send_to_lobby(&lid, &ServerMessage::SetLobbyMeta { key, value });
            }
        }
    }

    fn erase_lobby_meta(&mut self, lid: LobbyId, key: String)
        requires
            old(self).wf(),
        ensures
            final(self).wf(),
            final(self)@ == old(self)@.erase_lobby_meta(lid@, key@),
    {
        if let Some(i) = self.lobbies.find(&lid) {
            if self.lobbies.value_at(i).meta.0.contains_key(&key) {
                self.lobbies.value_mut(i).meta.0.remove(&key);
                self.send_to_lobby(&lid, &ServerMessage::EraseLobbyMeta { key });
            }
        }
    }

    /// Tells a newcomer the lobby's fields.
    fn greet_with_fields(queue: &mut Vec<ServerMessage>, meta: &Metadata)
        ensures
            copy::views(final(queue)@) == copy::views(old(queue)@) + meta@.map_values(
                |f: (Seq<char>, Seq<char>)| model::field_msg(f),
            ),
    {
        let ghost before = copy::views(queue@);
        let ghost said = meta@.map_values(|f: (Seq<char>, Seq<char>)| model::field_msg(f));
        let mut i: usize = 0;
        while i < meta.0.len()
            invariant
                i <= meta@.len(),
                said == meta@.map_values(|f: (Seq<char>, Seq<char>)| model::field_msg(f)),
                copy::views(queue@) == before + said.take(i as int),
            decreases meta@.len() - i,
        {
            let ghost so_far = queue@;
            let msg = ServerMessage::SetLobbyMeta {
                key: meta.0.key_at(i).clone(),
                value: meta.0.value_at(i).clone(),
            };
            queue.push(msg);
            i = i + 1;
            assert(copy::views(queue@) =~= copy::views(so_far).push(msg@));
            assert(copy::views(queue@) =~= before + said.take(i as int));
        }
        assert(said.take(i as int) =~= said);
    }

    /// Tells a newcomer who is there.
    fn greet_with_others(&self, queue: &mut Vec<ServerMessage>, lid: &LobbyId, pid: BasicId)
        requires
            self.wf(),
        ensures
            copy::views(final(queue)@) == copy::views(old(queue)@) + BlasterView::others(
                self@.players,
                lid@,
                pid,
            ).map_values(|e: (BasicId, PlayerView)| model::joined_msg(e)),
    {
        let ghost before = copy::views(queue@);
        let ghost all = self@.players;
        let ghost f = |e: (BasicId, PlayerView)| model::joined_msg(e);
        let mut i: usize = 0;
        assert(before + BlasterView::others(all.take(0), lid@, pid).map_values(f) =~= before);
        while i < self.players.len()
            invariant
                self.wf(),
                all == self@.players,
                f == |e: (BasicId, PlayerView)| model::joined_msg(e),
                i <= all.len(),
                copy::views(queue@) == before + BlasterView::others(
                    all.take(i as int),
                    lid@,
                    pid,
                ).map_values(f),
            decreases all.len() - i,
        {
            let ghost so_far = queue@;
            let ghost found = BlasterView::others(all.take(i as int), lid@, pid);
            proof {
                assert(all.take(i + 1).drop_last() =~= all.take(i as int));
                reveal(Seq::filter);
            }
            if self.players.player_at(i).lid.same(lid) && self.players.pid_at(i) != pid {
                let msg = ServerMessage::Joined {
                    pid: self.players.pid_at(i),
                    meta: self.players.player_at(i).meta.clone(),
                };
                queue.push(msg);
                proof {
                    assert(copy::views(queue@) =~= copy::views(so_far).push(msg@));
                    assert(BlasterView::others(all.take(i + 1), lid@, pid) == found.push(
                        all[i as int],
                    ));
                    assert(found.push(all[i as int]).map_values(f) =~= found.map_values(f).push(
                        msg@,
                    ));
                    assert(copy::views(queue@) =~= before + found.push(all[i as int]).map_values(
                        f,
                    ));
                }
            }
            i = i + 1;
        }
        assert(all.take(i as int) =~= all);
    }

    /// What a newcomer is told.
    fn greeting(&self, lobby: &Lobby, lid: &LobbyId, pid: BasicId, master: Option<BasicId>) -> (r:
        Vec<ServerMessage>)
        requires
            self.wf(),
        ensures
            copy::views(r@) == BlasterView::greeting(
                lobby@,
                BlasterView::others(self@.players, lid@, pid),
                master,
                self@.ice_servers,
            ),
    {
        let mut queue: Vec<ServerMessage> = Vec::new();
        queue.push(ServerMessage::SetListed { listed: lobby.listed });
        queue.push(ServerMessage::SetCapacity { capacity: lobby.capacity });
        assert(copy::views(queue@) =~= model::settings(lobby@));
        Self::greet_with_fields(&mut queue, &lobby.meta);
        self.greet_with_others(&mut queue, lid, pid);
        let ghost told = queue@;
        if let Some(pid) = master {
            queue.push(ServerMessage::SetMaster { pid });
        }
        assert(copy::views(queue@) =~= copy::views(told) + model::master_msgs(master));
        let ghost told = queue@;
        queue.push(
            ServerMessage::Connected {
                ice_servers: copy::duplicate_all(&self.config.ice_servers),
            },
        );
        assert(copy::views(queue@) =~= copy::views(told) + seq![
            payloads::ServerMessageView::Connected { ice_servers: self@.ice_servers },
        ]);
        queue
    }

    /// Lets a player into a lobby.
    fn introduce_player(&mut self, pid: BasicId, lid: LobbyId, player_meta: Metadata)
        requires
            old(self).wf(),
            player_meta.wf(),
        ensures
            final(self).wf(),
            final(self)@ == old(self)@.introduce_player(pid, lid@, player_meta@),
    {
        let lobby: Lobby = match self.lobbies.find(&lid) {
            Some(i) => self.lobbies.value_at(i).clone(),
            None => {
                return;
            },
        };
        let ghost meta = player_meta@;
        let ghost start = self@;
        self.players.insert(
            pid,
            Player { lid: lid.clone(), meta: player_meta.clone(), queue: Vec::new() },
        );
        let ghost arrived = self@;
        let ghost newcomer = PlayerView { lid: lid@, meta, queue: seq![] };
        assert(arrived == start.with_player(pid, newcomer)) by {
            assert(copy::views(Seq::<ServerMessage>::empty()) =~= seq![]);
        }
        assert(assoc::has(arrived.players, pid)) by {
            assoc::lemma_put_value(start.players, pid, newcomer);
        }
        let mastah = self.master_of(&lid);
        let ghost settled = self@;
        let queue = self.greeting(&lobby, &lid, pid, mastah);
        let ghost greeted = PlayerView { lid: lid@, meta, queue: copy::views(queue@) };
        let ghost after = start.introduce_player(pid, lid@, meta);
        let mut j: usize = 0;
        while j < self.players.len()
            invariant
                self.wf(),
                self@ == (BlasterView { players: self@.players, ..settled }),
                self@.players.len() == settled.players.len(),
                after.players.len() == settled.players.len(),
                j <= settled.players.len(),
                meta == player_meta@,
                forall|k: int|
                    0 <= k < settled.players.len() ==> (#[trigger] self@.players[k]).0
                        == settled.players[k].0,
                forall|k: int|
                    0 <= k < settled.players.len() ==> assoc::keyed(
                        (#[trigger] settled.players[k]).1.meta,
                    ),
                forall|k: int|
                    0 <= k < settled.players.len() ==> #[trigger] after.players[k] == (
                    if settled.players[k].0 == pid {
                        (pid, greeted)
                    } else if settled.players[k].1.lid == lid@ {
                        (
                            settled.players[k].0,
                            settled.players[k].1.posted(
                                payloads::ServerMessageView::Joined { pid, meta },
                            ),
                        )
                    } else {
                        settled.players[k]
                    }),
                forall|k: int|
                    0 <= k < j ==> (#[trigger] self@.players[k]) == (if settled.players[k].0 == pid {
                        settled.players[k]
                    } else {
                        after.players[k]
                    }),
                forall|k: int|
                    j <= k < settled.players.len() ==> #[trigger] self@.players[k]
                        == settled.players[k],
            decreases settled.players.len() - j,
        {
            if self.players.pid_at(j) != pid && self.players.player_at(j).lid.same(&lid) {
                self.players.player_mut(j).send(
                    ServerMessage::Joined { pid, meta: player_meta.clone() },
                );
            }
            j = j + 1;
        }
        let ghost told = self@.players;
        assert(settled.players == arrived.players);
        if let Some(i) = self.players.find(pid) {
            assert(settled.players[i as int].0 == pid);
            proof {
                assoc::lemma_put_value(start.players, pid, newcomer);
                assoc::lemma_place(arrived.players, i as int);
            }
            self.players.player_mut(i).queue = queue;
            assert(self@.players =~= after.players) by {
                assert forall|k: int| 0 <= k < told.len() && k != i implies settled.players[k].0
                    != pid by {
                    assert(told[k].0 == settled.players[k].0);
                }
            }
        } else {
            assert(false) by {
                let k = assoc::place(arrived.players, pid);
                assert(0 <= k < arrived.players.len() && arrived.players[k].0 == pid);
                assert(settled.players[k].0 == arrived.players[k].0);
                assert(told[k].0 == settled.players[k].0);
                assert(assoc::has(told, pid));
            }
        }
    }

    /// Shows a player the door, if they are in that lobby.
    fn kick_player(&mut self, lid: LobbyId, pid: BasicId)
        requires
            old(self).wf(),
        ensures
            final(self).wf(),
            final(self)@ == old(self)@.kick_player(lid@, pid),
    {
        if let Some(i) = self.players.find(pid) {
            if self.players.player_at(i).lid.same(&lid) {
                let reason = Kick::natural("kick", "Kicked by lobby's master");
                self.send_to(pid, ServerMessage::Disconnected { reason });
            }
        }
    }

    /// Lets a player go.
    fn remove_player(&mut self, lid: LobbyId, pid: BasicId, reason: Option<Kick>)
        requires
            old(self).wf(),
        ensures
            final(self).wf(),
            final(self)@ == old(self)@.remove_player(lid@, pid, payloads::kick_said(reason)),
    {
        self.players.shift_remove(pid);
        self.send_to_lobby(&lid, &ServerMessage::Left { pid, reason });
        if let Some(mastah) = self.master_of(&lid) {
            self.send_to_lobby(&lid, &ServerMessage::SetMaster { pid: mastah });
        }
    }

    /// Hands the post of master on.
    fn set_lobby_master(&mut self, initiator: BasicId, new: BasicId)
        requires
            old(self).wf(),
        ensures
            final(self).wf(),
            final(self)@ == old(self)@.set_lobby_master(initiator, new),
    {
        let lid: LobbyId = match self.players.find(new) {
            Some(i) => self.players.player_at(i).lid.clone(),
            None => {
                return;
            },
        };
        let ghost before = self@;
        let master = self.master_of(&lid);
        if let Some(master) = master {
            proof {
                assoc::lemma_put_value(
                    before.lobbies,
                    lid@,
                    LobbyView { master, ..before.lobby(lid@) },
                );
            }
            if master == initiator && new != initiator {
                if let Some(i) = self.lobbies.find(&lid) {
                    self.lobbies.value_mut(i).master = new;
                }
                self.send_to_lobby(&lid, &ServerMessage::SetMaster { pid: new });
            }
        }
    }

    /// The lobbies to show to somebody who looks for one in the game.
    fn list_lobbies(&self, gid: &GameId, limit: usize) -> (r: Vec<LobbyListing>)
        requires
            self.wf(),
        ensures
            copy::views(r@) == self@.list_lobbies(gid@, limit),
    {
        let n: usize = if limit < 1 {
            1
        } else if limit > MAX_LOBBIES_IN_LIST {
            MAX_LOBBIES_IN_LIST
        } else {
            limit
        };
        let ghost all = self@.lobbies;
        let ghost p = self@.shown(gid@);
        let ghost f = |e: (LobbyKey, LobbyView)| self@.listing(e);
        let mut list: Vec<LobbyListing> = Vec::new();
        let mut i: usize = 0;
        assert(copy::views(list@) =~= all.take(0).filter(p).map_values(f));
        while i < self.lobbies.len() && list.len() < n
            invariant
                self.wf(),
                n == BlasterView::listing_limit(limit),
                all == self@.lobbies,
                p == self@.shown(gid@),
                f == |e: (LobbyKey, LobbyView)| self@.listing(e),
                i <= all.len(),
                list@.len() <= n,
                copy::views(list@) == all.take(i as int).filter(p).map_values(f),
            decreases all.len() - i,
        {
            let ghost so_far = list@;
            let ghost found = all.take(i as int).filter(p);
            let lid = self.lobbies.key_at(i);
            let lobby = self.lobbies.value_at(i);
            proof {
                assert(all[i as int] == (lid@, lobby@));
                assert(all.take(i + 1).drop_last() =~= all.take(i as int));
                reveal(Seq::filter);
            }
            if lid.gid.same(gid) && lobby.listed && !lobby.swarm && !self.lobby_full(lid) {
                let listing = LobbyListing {
                    lid: lid.lid,
                    max: lobby.capacity,
                    players: self.players_in(lid),
                    meta: lobby.meta.clone(),
                };
                list.push(listing);
                proof {
                    assert(copy::views(list@) =~= copy::views(so_far).push(listing@));
                    assert(found.push(all[i as int]).map_values(f) =~= found.map_values(f).push(
                        listing@,
                    ));
                }
            }
            i = i + 1;
        }
        proof {
            let found = all.take(i as int).filter(p);
            assert(all =~= all.take(i as int) + all.skip(i as int));
            Seq::filter_distributes_over_add(all.take(i as int), all.skip(i as int), p);
            assert(copy::views(list@).len() == found.len());
            if i == all.len() {
                assert(all.skip(i as int) =~= Seq::empty());
                assert(all.filter(p) =~= found);
            }
            assert(found =~= all.filter(p).take(found.len() as int));
        }
        list
    }

    /// Runs the lobby's timer.
    fn advance_lobby_timer(&mut self, lid: LobbyId, now: Moment) -> (r: Option<Result<(), Kick>>)
        requires
            old(self).wf(),
        ensures
            final(self).wf(),
            final(self)@ == old(self)@.advance_lobby_timer(lid@, now),
            r is Some <==> old(self)@.has_lobby(lid@),
            r matches Some(r) ==> (r is Err <==> old(self)@.timed_out(lid@, now)),
            r matches Some(Err(k)) ==> k@ == payloads::natural(
                "inactive_lobby"@,
                "Inactive lobby"@,
            ),
    {
        let chud = self.players_in(&lid) == 1;
        let i: usize = match self.lobbies.find(&lid) {
            Some(i) => i,
            None => {
                return None;
            },
        };
        let ghost before = self@;
        let timer = self.lobbies.value_at(i).death_timer;
        if chud {
            if let Some(start) = timer {
                assert(before.advance_lobby_timer(lid@, now).lobbies =~= before.lobbies);
                if clock::time_since(start, now) >= CHUD_LOBBY_TIMEOUT {
                    return Some(Err(Kick::natural("inactive_lobby", "Inactive lobby")));
                }
            } else {
                self.lobbies.value_mut(i).death_timer = Some(now);
            }
        } else {
            self.lobbies.value_mut(i).death_timer = None;
        }
        Some(Ok(()))
    }

    /// Fetches the player's messages.
    fn flush_player_queue(&mut self, pid: BasicId) -> (r: Vec<ServerMessage>)
        requires
            old(self).wf(),
        ensures
            final(self).wf(),
            final(self)@ == old(self)@.flush_player_queue(pid),
            copy::views(r@) == if old(self)@.has_player(pid) {
                old(self)@.player(pid).queue
            } else {
                seq![]
            },
    {
        let mut queue: Vec<ServerMessage> = Vec::new();
        assert(copy::views(queue@) =~= seq![]);
        if let Some(i) = self.players.find(pid) {
            queue.append(&mut self.players.player_mut(i).queue);
            assert(queue@ =~= Seq::empty() + queue@);
        }
        queue
    }

    /// Drops the lobbies that nobody is in.
    fn cleanup_lobbies(&mut self)
        requires
            old(self).wf(),
        ensures
            final(self).wf(),
            final(self)@ == old(self)@.cleanup_lobbies(),
    {
        let ghost all = self@.lobbies;
        let ghost players = self@.players;
        let ghost p = |e: (LobbyKey, LobbyView)| model::players_in(players, e.0) > 0;
        let ghost mut seen: int = 0;
        let mut i: usize = 0;
        assert(all =~= all.take(0).filter(p) + all.skip(0));
        while i < self.lobbies.len()
            invariant
                self.wf(),
                self@ == (BlasterView { lobbies: self@.lobbies, ..old(self)@ }),
                players == self@.players,
                p == |e: (LobbyKey, LobbyView)| model::players_in(players, e.0) > 0,
                0 <= seen <= all.len(),
                i == all.take(seen).filter(p).len(),
                self@.lobbies == all.take(seen).filter(p) + all.skip(seen),
            decreases all.len() - seen,
        {
            let ghost kept = all.take(seen).filter(p);
            proof {
                assert(self@.lobbies[i as int] == all[seen]);
                assert(all.take(seen + 1).drop_last() =~= all.take(seen));
                reveal(Seq::filter);
            }
            if self.players_in(self.lobbies.key_at(i)) > 0 {
                assert(self@.lobbies =~= kept.push(all[seen]) + all.skip(seen + 1));
                i = i + 1;
            } else {
                let ghost before = self@.lobbies;
                self.lobbies.remove_at(i);
                assert(before.remove(i as int) =~= kept + all.skip(seen + 1));
                assert forall|k: int| 0 <= k < self@.lobbies.len() implies assoc::keyed(
                    (#[trigger] self@.lobbies[k]).1.meta,
                ) by {
                    let q = if k < i {
                        k
                    } else {
                        k + 1
                    };
                    assert(self@.lobbies[k] == before[q]);
                }
            }
            proof {
                seen = seen + 1;
            }
        }
        assert(all.take(seen) =~= all);
        assert(all.skip(seen) =~= Seq::empty());
        assert(self@.lobbies =~= all.filter(p));
        assert(old(self)@.cleanup_lobbies().lobbies =~= all.filter(p));
    }

    /// Carries out an operation and says what comes back for it.
    pub fn recv(&mut self, op: BlasterOperation, now: Moment) -> (r: Reply)
        requires
            old(self).wf(),
            op@.wf(),
        ensures
            final(self).wf(),
            final(self)@ == old(self)@.step(op@, now),
            r@ == old(self)@.reply(op@, now),
    {
        match op {
            BlasterOperation::SetLobbyCapacity { lid, capacity } => {
                self.set_lobby_capacity(lid, capacity);
                Reply::Nothing
            },
            BlasterOperation::SetLobbyListed { lid, listed } => {
                self.set_lobby_listed(lid, listed);
                Reply::Nothing
            },
            BlasterOperation::SetPlayerMeta { pid, key, value } => {
                self.set_player_meta(pid, key, value);
                Reply::Nothing
            },
            BlasterOperation::ErasePlayerMeta { pid, key } => {
                self.erase_player_meta(pid, key);
                Reply::Nothing
            },
            BlasterOperation::SetLobbyMeta { lid, key, value } => {
                self.set_lobby_meta(lid, key, value);
                Reply::Nothing
            },
            BlasterOperation::EraseLobbyMeta { lid, key } => {
                self.erase_lobby_meta(lid, key);
                Reply::Nothing
            },
            BlasterOperation::IntroducePlayer { pid, lid, player_meta } => {
                self.introduce_player(pid, lid, player_meta);
                Reply::Nothing
            },
            BlasterOperation::KickPlayer { lid, pid } => {
                self.kick_player(lid, pid);
                Reply::Nothing
            },
            BlasterOperation::RemovePlayer { lid, pid, reason } => {
                self.remove_player(lid, pid, reason);
                Reply::Nothing
            },
            BlasterOperation::SetLobbyMaster { initiator_pid, new_master_pid } => {
                self.set_lobby_master(initiator_pid, new_master_pid);
                Reply::Nothing
            },
            BlasterOperation::ListLobbies { gid, limit } => {
                Reply::Listing(self.list_lobbies(&gid, limit))
            },
            BlasterOperation::AdvanceLobbyTimer { lid } => {
                match self.advance_lobby_timer(lid, now) {
                    Some(r) => Reply::Timer(r),
                    None => Reply::Nothing,
                }
            },
            BlasterOperation::FlushPlayerQueue { pid } => {
                Reply::Queue(self.flush_player_queue(pid))
            },
            BlasterOperation::CleanupLobbies => {
                self.cleanup_lobbies();
                Reply::Nothing
            },
            BlasterOperation::MasterOf { lid } => Reply::Master(self.master_of(&lid)),
            BlasterOperation::LobbyFull { lid } => Reply::Answer(self.lobby_full(&lid)),
            BlasterOperation::SendTo { pid, msg } => {
                self.send_to(pid, msg);
                Reply::Nothing
            },
            BlasterOperation::InsertLobby { lid, lobby } => {
                self.lobbies.insert(lid, lobby);
                Reply::Nothing
            },
            BlasterOperation::HasLobby { lid } => Reply::Answer(self.lobbies.contains_key(&lid)),
            BlasterOperation::HasPlayer { pid } => Reply::Answer(self.players.contains(pid)),
            BlasterOperation::LobbyIsSwarm { lid } => {
                Reply::Answer(
                    match self.lobbies.find(&lid) {
                        Some(i) => self.lobbies.value_at(i).swarm,
                        None => false,
                    },
                )
            },
        }
    }
}

} // verus!
