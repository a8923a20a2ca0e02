//! What the mailbox server holds, and what each operation makes of it.

use crate::assoc;
use crate::clock;
use crate::clock::Moment;
use crate::id::{BasicId, LobbyKey};
use crate::mailbox::blaster::{CHUD_LOBBY_TIMEOUT, MAX_LOBBIES_IN_LIST};
use crate::protocol::aux;
use crate::protocol::aux::MetadataView;
use crate::protocol::payloads;
use crate::protocol::payloads::{KickView, LobbyListingView, ServerMessageView};
use vstd::prelude::*;

verus! {

/// A lobby.
pub struct LobbyView {
    pub master: BasicId,
    pub meta: MetadataView,
    pub capacity: usize,
    pub listed: bool,
    pub swarm: bool,
    pub death_timer: Option<Moment>,
}

/// A player, and the messages that wait for them.
pub struct PlayerView {
    pub lid: LobbyKey,
    pub meta: MetadataView,
    pub queue: Seq<ServerMessageView>,
}

impl PlayerView {
    /// The player once `msg` has been queued.
    pub open spec fn posted(self, msg: ServerMessageView) -> PlayerView {
        PlayerView { queue: self.queue.push(msg), ..self }
    }
}

pub type Lobbies = Seq<(LobbyKey, LobbyView)>;

pub type Players = Seq<(BasicId, PlayerView)>;

/// Who is in the lobby.
pub open spec fn in_lobby(lid: LobbyKey) -> spec_fn((BasicId, PlayerView)) -> bool {
    |e: (BasicId, PlayerView)| e.1.lid == lid
}

/// Who is in the lobby besides the player.
pub open spec fn beside(lid: LobbyKey, pid: BasicId) -> spec_fn((BasicId, PlayerView)) -> bool {
    |e: (BasicId, PlayerView)| e.1.lid == lid && e.0 != pid
}

/// How many players are in the lobby.
pub open spec fn players_in(players: Players, lid: LobbyKey) -> nat {
    players.filter(in_lobby(lid)).len()
}

/// `msg` has been queued for everybody in the lobby, and for nobody else.
pub open spec fn told(players: Players, lid: LobbyKey, msg: ServerMessageView) -> Players {
    players.map_values(
        |e: (BasicId, PlayerView)|
            if e.1.lid == lid {
                (e.0, e.1.posted(msg))
            } else {
                e
            },
    )
}

/// `msg` has been queued for the player `pid`, if there is one.
pub open spec fn sent(players: Players, pid: BasicId, msg: ServerMessageView) -> Players {
    if assoc::has(players, pid) {
        assoc::put(players, pid, assoc::value(players, pid).posted(msg))
    } else {
        players
    }
}

/// The news of a lobby's settings.
pub open spec fn settings(lobby: LobbyView) -> Seq<ServerMessageView> {
    seq![
        ServerMessageView::SetListed { listed: lobby.listed },
        ServerMessageView::SetCapacity { capacity: lobby.capacity },
    ]
}

/// The news of a lobby's field.
pub open spec fn field_msg(f: (Seq<char>, Seq<char>)) -> ServerMessageView {
    ServerMessageView::SetLobbyMeta { key: f.0, value: f.1 }
}

/// The news that a player is there.
pub open spec fn joined_msg(e: (BasicId, PlayerView)) -> ServerMessageView {
    ServerMessageView::Joined { pid: e.0, meta: e.1.meta }
}

/// The news of who the master is, if there is one.
pub open spec fn master_msgs(master: Option<BasicId>) -> Seq<ServerMessageView> {
    match master {
        Some(pid) => seq![ServerMessageView::SetMaster { pid }],
        None => seq![],
    }
}

/// What the server is asked to do.
pub enum OpView {
    CleanupLobbies,
    SetLobbyCapacity { lid: LobbyKey, capacity: usize },
    SetLobbyListed { lid: LobbyKey, listed: bool },
    SetPlayerMeta { pid: BasicId, key: Seq<char>, value: Seq<char> },
    ErasePlayerMeta { pid: BasicId, key: Seq<char> },
    SetLobbyMeta { lid: LobbyKey, key: Seq<char>, value: Seq<char> },
    EraseLobbyMeta { lid: LobbyKey, key: Seq<char> },
    MasterOf { lid: LobbyKey },
    HasLobby { lid: LobbyKey },
    HasPlayer { pid: BasicId },
    LobbyFull { lid: LobbyKey },
    LobbyIsSwarm { lid: LobbyKey },
    IntroducePlayer { pid: BasicId, lid: LobbyKey, player_meta: MetadataView },
    SendTo { pid: BasicId, msg: ServerMessageView },
    SetLobbyMaster { initiator_pid: BasicId, new_master_pid: BasicId },
    ListLobbies { gid: Seq<char>, limit: usize },
    InsertLobby { lid: LobbyKey, lobby: LobbyView },
    KickPlayer { lid: LobbyKey, pid: BasicId },
    RemovePlayer { lid: LobbyKey, pid: BasicId, reason: Option<KickView> },
    AdvanceLobbyTimer { lid: LobbyKey },
    FlushPlayerQueue { pid: BasicId },
}

impl OpView {
    /// The metadata that comes with the operation names each field once.
    pub open spec fn wf(self) -> bool {
        match self {
            OpView::IntroducePlayer { player_meta, .. } => assoc::keyed(player_meta),
            OpView::InsertLobby { lobby, .. } => assoc::keyed(lobby.meta),
            _ => true,
        }
    }
}

/// What comes back for an operation.
pub enum ReplyView {
    /// No answer.
    Nothing,
    Master(Option<BasicId>),
    Answer(bool),
    Listing(Seq<LobbyListingView>),
    Timer(Option<KickView>),
    Queue(Seq<ServerMessageView>),
}

/// All that the mailbox server holds.
pub struct BlasterView {
    pub lobbies: Lobbies,
    pub players: Players,
    pub ice_servers: Seq<Seq<char>>,
}

impl BlasterView {
    /// Lobbies, players and their fields go by names that occur once.
    pub open spec fn wf(self) -> bool {
        &&& assoc::keyed(self.lobbies)
        &&& assoc::keyed(self.players)
        &&& forall|i: int|
            0 <= i < self.lobbies.len() ==> assoc::keyed((#[trigger] self.lobbies[i]).1.meta)
        &&& forall|i: int|
            0 <= i < self.players.len() ==> assoc::keyed((#[trigger] self.players[i]).1.meta)
    }

    pub open spec fn has_lobby(self, lid: LobbyKey) -> bool {
        assoc::has(self.lobbies, lid)
    }

    pub open spec fn lobby(self, lid: LobbyKey) -> LobbyView {
        assoc::value(self.lobbies, lid)
    }

    pub open spec fn has_player(self, pid: BasicId) -> bool {
        assoc::has(self.players, pid)
    }

    pub open spec fn player(self, pid: BasicId) -> PlayerView {
        assoc::value(self.players, pid)
    }

    pub open spec fn with_lobby(self, lid: LobbyKey, lobby: LobbyView) -> BlasterView {
        BlasterView { lobbies: assoc::put(self.lobbies, lid, lobby), ..self }
    }

    pub open spec fn with_player(self, pid: BasicId, player: PlayerView) -> BlasterView {
        BlasterView { players: assoc::put(self.players, pid, player), ..self }
    }

    pub open spec fn telling(self, lid: LobbyKey, msg: ServerMessageView) -> BlasterView {
        BlasterView { players: told(self.players, lid, msg), ..self }
    }

    /// Whether there are as many players in the lobby as it may hold.
    pub open spec fn lobby_full(self, lid: LobbyKey) -> bool {
        self.has_lobby(lid) && players_in(self.players, lid) >= self.lobby(lid).capacity
    }

    /// The lobby's master: who holds the post, if that player is still around; else the player
    /// who has been in the lobby the longest.
    pub open spec fn master_of(self, lid: LobbyKey) -> Option<BasicId> {
        if !self.has_lobby(lid) {
            None
        } else if self.has_player(self.lobby(lid).master) {
            Some(self.lobby(lid).master)
        } else if players_in(self.players, lid) == 0 {
            None
        } else {
            Some(self.players.filter(in_lobby(lid))[0].0)
        }
    }

    /// The lobby once its master has been asked for: who was found holds the post.
    pub open spec fn mastered(self, lid: LobbyKey) -> BlasterView {
        match self.master_of(lid) {
            Some(master) => self.with_lobby(lid, LobbyView { master, ..self.lobby(lid) }),
            None => self,
        }
    }

    pub open spec fn set_lobby_capacity(self, lid: LobbyKey, capacity: usize) -> BlasterView {
        if self.has_lobby(lid) {
            self.with_lobby(lid, LobbyView { capacity, ..self.lobby(lid) }).telling(
                lid,
                ServerMessageView::SetCapacity { capacity },
            )
        } else {
            self
        }
    }

    pub open spec fn set_lobby_listed(self, lid: LobbyKey, listed: bool) -> BlasterView {
        if self.has_lobby(lid) {
            self.with_lobby(lid, LobbyView { listed, ..self.lobby(lid) }).telling(
                lid,
                ServerMessageView::SetListed { listed },
            )
        } else {
            self
        }
    }

    pub open spec fn set_player_meta(
        self,
        pid: BasicId,
        key: Seq<char>,
        value: Seq<char>,
    ) -> BlasterView {
        if self.has_player(pid) && aux::can_add(self.player(pid).meta, key) {
            let p = self.player(pid);
            self.with_player(
                pid,
                PlayerView { meta: assoc::put(p.meta, key, value), ..p },
            ).telling(p.lid, ServerMessageView::SetPlayerMeta { pid, key, value })
        } else {
            self
        }
    }

    pub open spec fn erase_player_meta(self, pid: BasicId, key: Seq<char>) -> BlasterView {
        if self.has_player(pid) && assoc::has(self.player(pid).meta, key) {
            let p = self.player(pid);
            self.with_player(
                pid,
                PlayerView { meta: assoc::without(p.meta, key), ..p },
            ).telling(p.lid, ServerMessageView::ErasePlayerMeta { pid, key })
        } else {
            self
        }
    }

    pub open spec fn set_lobby_meta(
        self,
        lid: LobbyKey,
        key: Seq<char>,
        value: Seq<char>,
    ) -> BlasterView {
        if self.has_lobby(lid) && aux::can_add(self.lobby(lid).meta, key) {
            let l = self.lobby(lid);
            self.with_lobby(lid, LobbyView { meta: assoc::put(l.meta, key, value), ..l }).telling(
                lid,
                ServerMessageView::SetLobbyMeta { key, value },
            )
        } else {
            self
        }
    }

    pub open spec fn erase_lobby_meta(self, lid: LobbyKey, key: Seq<char>) -> BlasterView {
        if self.has_lobby(lid) && assoc::has(self.lobby(lid).meta, key) {
            let l = self.lobby(lid);
            self.with_lobby(lid, LobbyView { meta: assoc::without(l.meta, key), ..l }).telling(
                lid,
                ServerMessageView::EraseLobbyMeta { key },
            )
        } else {
            self
        }
    }

    /// The others in the lobby: everybody but `pid`.
    pub open spec fn others(players: Players, lid: LobbyKey, pid: BasicId) -> Players {
        players.filter(beside(lid, pid))
    }

    /// What a player is told on coming into a lobby: its settings, its fields, who is there, who
    /// the master is, and how to reach the others.
    pub open spec fn greeting(
        lobby: LobbyView,
        others: Players,
        master: Option<BasicId>,
        ice_servers: Seq<Seq<char>>,
    ) -> Seq<ServerMessageView> {
        settings(lobby) + lobby.meta.map_values(
            |f: (Seq<char>, Seq<char>)| field_msg(f),
        ) + others.map_values(|e: (BasicId, PlayerView)| joined_msg(e)) + master_msgs(master)
            + seq![ServerMessageView::Connected { ice_servers }]
    }

    /// A player comes into a lobby: they are greeted, and the others are told.
    pub open spec fn introduce_player(
        self,
        pid: BasicId,
        lid: LobbyKey,
        meta: MetadataView,
    ) -> BlasterView {
        if self.has_lobby(lid) {
            let arrived = self.with_player(pid, PlayerView { lid, meta, queue: seq![] });
            let settled = arrived.mastered(lid);
            let greeted = PlayerView {
                lid,
                meta,
                queue: BlasterView::greeting(
                    self.lobby(lid),
                    BlasterView::others(arrived.players, lid, pid),
                    arrived.master_of(lid),
                    self.ice_servers,
                ),
            };
            BlasterView {
                players: settled.players.map_values(
                    |e: (BasicId, PlayerView)|
                        if e.0 == pid {
                            (pid, greeted)
                        } else if e.1.lid == lid {
                            (e.0, e.1.posted(ServerMessageView::Joined { pid, meta }))
                        } else {
                            e
                        },
                ),
                ..settled
            }
        } else {
            self
        }
    }

    /// A player is shown the door, if they are in that lobby.
    pub open spec fn kick_player(self, lid: LobbyKey, pid: BasicId) -> BlasterView {
        if self.has_player(pid) && self.player(pid).lid == lid {
            BlasterView {
                players: sent(
                    self.players,
                    pid,
                    ServerMessageView::Disconnected {
                        reason: payloads::natural("kick"@, "Kicked by lobby's master"@),
                    },
                ),
                ..self
            }
        } else {
            self
        }
    }

    /// A player goes: those in the lobby are told so, and who their master is.
    pub open spec fn remove_player(
        self,
        lid: LobbyKey,
        pid: BasicId,
        reason: Option<KickView>,
    ) -> BlasterView {
        let gone = BlasterView { players: assoc::without(self.players, pid), ..self }.telling(
            lid,
            ServerMessageView::Left { pid, reason },
        );
        match gone.master_of(lid) {
            Some(master) => gone.mastered(lid).telling(
                lid,
                ServerMessageView::SetMaster { pid: master },
            ),
            None => gone,
        }
    }

    /// The master of the lobby that `new` is in hands the post to `new`.
    pub open spec fn set_lobby_master(self, initiator: BasicId, new: BasicId) -> BlasterView {
        if self.has_player(new) {
            let lid = self.player(new).lid;
            let asked = self.mastered(lid);
            if self.master_of(lid) == Some(initiator) && new != initiator {
                asked.with_lobby(lid, LobbyView { master: new, ..asked.lobby(lid) }).telling(
                    lid,
                    ServerMessageView::SetMaster { pid: new },
                )
            } else {
                asked
            }
        } else {
            self
        }
    }

    /// Whether the lobby is shown to those who look for one in the game.
    pub open spec fn shown(self, gid: Seq<char>) -> spec_fn((LobbyKey, LobbyView)) -> bool {
        |e: (LobbyKey, LobbyView)|
            e.0.gid == gid && e.1.listed && !e.1.swarm && !self.lobby_full(e.0)
    }

    /// How the lobby is shown.
    pub open spec fn listing(self, e: (LobbyKey, LobbyView)) -> LobbyListingView {
        LobbyListingView {
            lid: e.0.lid,
            players: players_in(self.players, e.0) as usize,
            max: e.1.capacity,
            meta: e.1.meta,
        }
    }

    /// How many lobbies are shown to somebody who asked for `limit`.
    pub open spec fn listing_limit(limit: usize) -> usize {
        if limit < 1 {
            1
        } else if limit > MAX_LOBBIES_IN_LIST {
            MAX_LOBBIES_IN_LIST
        } else {
            limit
        }
    }

    /// The lobbies that are shown: the oldest ones, as many as were asked for.
    pub open spec fn list_lobbies(self, gid: Seq<char>, limit: usize) -> Seq<LobbyListingView> {
        let found = self.lobbies.filter(self.shown(gid));
        let n = BlasterView::listing_limit(limit) as int;
        found.take(
            if found.len() < n {
                found.len() as int
            } else {
                n
            },
        ).map_values(|e: (LobbyKey, LobbyView)| self.listing(e))
    }

    /// Whether somebody is alone in the lobby.
    pub open spec fn chud(self, lid: LobbyKey) -> bool {
        players_in(self.players, lid) == 1
    }

    /// The lobby's timer runs while exactly one player is there.
    pub open spec fn advance_lobby_timer(self, lid: LobbyKey, now: Moment) -> BlasterView {
        if self.has_lobby(lid) {
            let l = self.lobby(lid);
            let death_timer = if !self.chud(lid) {
                None
            } else if l.death_timer is Some {
                l.death_timer
            } else {
                Some(now)
            };
            self.with_lobby(lid, LobbyView { death_timer, ..l })
        } else {
            self
        }
    }

    /// Whether the lobby's timer has run out.
    pub open spec fn timed_out(self, lid: LobbyKey, now: Moment) -> bool {
        &&& self.chud(lid)
        &&& self.lobby(lid).death_timer matches Some(start)
        &&& clock::elapsed(start, now) >= CHUD_LOBBY_TIMEOUT
    }

    /// Only the lobbies that somebody is in.
    pub open spec fn cleanup_lobbies(self) -> BlasterView {
        BlasterView {
            lobbies: self.lobbies.filter(
                |e: (LobbyKey, LobbyView)| players_in(self.players, e.0) > 0,
            ),
            ..self
        }
    }

    /// The player's messages have been fetched.
    pub open spec fn flush_player_queue(self, pid: BasicId) -> BlasterView {
        if self.has_player(pid) {
            self.with_player(pid, PlayerView { queue: seq![], ..self.player(pid) })
        } else {
            self
        }
    }

    /// What the operation makes of what the server holds.
    pub open spec fn step(self, op: OpView, now: Moment) -> BlasterView {
        match op {
            OpView::CleanupLobbies => self.cleanup_lobbies(),
            OpView::SetLobbyCapacity { lid, capacity } => self.set_lobby_capacity(
                lid,
                capacity,
            ),
            OpView::SetLobbyListed { lid, listed } => self.set_lobby_listed(lid, listed),
            OpView::SetPlayerMeta { pid, key, value } => self.set_player_meta(
                pid,
                key,
                value,
            ),
            OpView::ErasePlayerMeta { pid, key } => self.erase_player_meta(pid, key),
            OpView::SetLobbyMeta { lid, key, value } => self.set_lobby_meta(
                lid,
                key,
                value,
            ),
            OpView::EraseLobbyMeta { lid, key } => self.erase_lobby_meta(lid, key),
            OpView::MasterOf { lid } => self.mastered(lid),
            OpView::HasLobby { .. } => self,
            OpView::HasPlayer { .. } => self,
            OpView::LobbyFull { .. } => self,
            OpView::LobbyIsSwarm { .. } => self,
            OpView::IntroducePlayer { pid, lid, player_meta } => self.introduce_player(
                pid,
                lid,
                player_meta,
            ),
            OpView::SendTo { pid, msg } => BlasterView {
                players: sent(self.players, pid, msg),
                ..self
            },
            OpView::SetLobbyMaster { initiator_pid, new_master_pid } =>
                self.set_lobby_master(initiator_pid, new_master_pid),
            OpView::ListLobbies { .. } => self,
            OpView::InsertLobby { lid, lobby } => self.with_lobby(lid, lobby),
            OpView::KickPlayer { lid, pid } => self.kick_player(lid, pid),
            OpView::RemovePlayer { lid, pid, reason } => self.remove_player(
                lid,
                pid,
                reason,
            ),
            OpView::AdvanceLobbyTimer { lid } => self.advance_lobby_timer(lid, now),
            OpView::FlushPlayerQueue { pid } => self.flush_player_queue(pid),
        }
    }

    /// What comes back for the operation.
    pub open spec fn reply(self, op: OpView, now: Moment) -> ReplyView {
        match op {
            OpView::MasterOf { lid } => ReplyView::Master(self.master_of(lid)),
            OpView::HasLobby { lid } => ReplyView::Answer(self.has_lobby(lid)),
            OpView::HasPlayer { pid } => ReplyView::Answer(self.has_player(pid)),
            OpView::LobbyFull { lid } => ReplyView::Answer(self.lobby_full(lid)),
            OpView::LobbyIsSwarm { lid } => ReplyView::Answer(
                self.has_lobby(lid) && self.lobby(lid).swarm,
            ),
            OpView::ListLobbies { gid, limit } => ReplyView::Listing(
                self.list_lobbies(gid, limit),
            ),
            OpView::AdvanceLobbyTimer { lid } => if !self.has_lobby(lid) {
                ReplyView::Nothing
            } else if self.timed_out(lid, now) {
                ReplyView::Timer(Some(payloads::natural("inactive_lobby"@, "Inactive lobby"@)))
            } else {
                ReplyView::Timer(None)
            },
            OpView::FlushPlayerQueue { pid } => ReplyView::Queue(
                if self.has_player(pid) {
                    self.player(pid).queue
                } else {
                    seq![]
                },
            ),
            _ => ReplyView::Nothing,
        }
    }
}

} // verus!
