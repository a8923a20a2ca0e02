//! The event-loop server's state and the operations on it.

use crate::assoc;
use crate::blaster;
use crate::blaster::model;
use crate::blaster::model::{LoopView, PlayerView, ReplyView};
use crate::blaster::payloads::{LobbyListing, ServerMessage, ServerMessageView};
use crate::blaster::{BlasterOperation, Config, Lobby, Peer, PeerSessionCount, Player};
use crate::clock;
use crate::clock::{Moment, MILLISECOND, SECOND};
use crate::copy;
use crate::id::{BasicId, GameId, IdSet, IpAddr, LobbyId};
use crate::protocol::aux::Metadata;
use crate::protocol::payloads;
use crate::protocol::payloads::Kick;
use crate::roster::Roster;
use crate::table::{Key, Table};
use crate::text;
use crate::tokens::TokenBucket;
use crate::MAX_PLAYERS;
use vstd::prelude::*;

verus! {

/// How many sessions an address may have open.
pub const SESSIONS_PER_IP_CAP: usize = 4;

/// How many sessions may be open.
pub const GLOBAL_SESSIONS_CAP: usize = 1024;

/// How many addresses are kept track of.
pub const GLOBAL_PEERS_CAP: usize = 512;

/// How long an address without a session is remembered: a minute, in nanoseconds.
pub const SESSION_IDLE_TIMEOUT: u64 = 60 * SECOND;

/// How many lobbies are listed at most.
pub const LOBBY_LISTING_CAP: usize = 32;

/// How many listed lobbies a game may have.
pub const LISTED_LOBBIES_PER_GID: usize = 32;

/// How many lobbies may have been opened from an address.
pub const LOBBIES_PER_IP: usize = 4;

/// A lobby with fewer players than this is idle.
pub const CHUD_THRESHOLD: usize = 2;

/// How long a lobby may be idle: three minutes, in nanoseconds.
pub const CHUD_LOBBY_TIMEOUT: u64 = 180 * SECOND;

/// What comes back for an operation.
pub enum Reply {
    /// No answer.
    Nothing,
    Listing(Result<Vec<LobbyListing>, Kick>),
    Pid(Result<BasicId, Kick>),
    Introduced(bool),
}

impl View for Reply {
    type V = ReplyView;

    open spec fn view(&self) -> ReplyView {
        match *self {
            Reply::Nothing => ReplyView::Nothing,
            Reply::Listing(Ok(l)) => ReplyView::Listing(Ok(copy::views(l@))),
            Reply::Listing(Err(k)) => ReplyView::Listing(Err(k@)),
            Reply::Pid(Ok(pid)) => ReplyView::Pid(Ok(pid)),
            Reply::Pid(Err(k)) => ReplyView::Pid(Err(k@)),
            Reply::Introduced(b) => ReplyView::Introduced(b),
        }
    }
}

/// What an answer says is what stands in it.
pub proof fn law_answers_say_what_stands_in_them(r: Reply)
    ensures
        match (r, r@) {
            (Reply::Nothing, ReplyView::Nothing) => true,
            (Reply::Listing(Ok(list)), ReplyView::Listing(Ok(said))) => {
                &&& said.len() == list@.len()
                &&& forall|i: int| 0 <= i < list@.len() ==> #[trigger] said[i] == list@[i]@
            },
            (Reply::Listing(Err(why)), ReplyView::Listing(Err(said))) => said == why@,
            (Reply::Pid(Ok(pid)), ReplyView::Pid(Ok(said))) => said == pid,
            (Reply::Pid(Err(why)), ReplyView::Pid(Err(said))) => said == why@,
            (Reply::Introduced(yes), ReplyView::Introduced(said)) => said == yes,
            _ => false,
        },
{
}

/// The messages on their way to a player, the first to be sent first.
pub struct Delivery {
    pub pid: BasicId,
    pub msgs: Vec<ServerMessage>,
}

impl View for Delivery {
    type V = (BasicId, Seq<ServerMessageView>);

    open spec fn view(&self) -> (BasicId, Seq<ServerMessageView>) {
        (self.pid, copy::views(self.msgs@))
    }
}

/// The event-loop server.
pub struct BlasterEventLoop {
    pub gid_lobbies: Table<GameId, IdSet>,
    pub lobbies: Table<LobbyId, Lobby>,
    pub players: Roster<Player>,
    pub peers: Table<IpAddr, Peer>,
    pub config: Config,
}

impl View for BlasterEventLoop {
    type V = LoopView;

    open spec fn view(&self) -> LoopView {
        LoopView {
            gid_lobbies: self.gid_lobbies@,
            lobbies: self.lobbies@,
            players: self.players@,
            peers: self.peers@,
            ice_servers: copy::views(self.config.ice_servers@),
        }
    }
}

impl BlasterEventLoop {
    pub open spec fn wf(&self) -> bool {
        self.players.wf() && self@.wf()
    }

    /// A server with no lobbies, no players and no sessions.
    pub fn new(config: Config) -> (b: Self)
        ensures
            b.wf(),
            b@ == (LoopView {
                gid_lobbies: seq![],
                lobbies: seq![],
                players: seq![],
                peers: seq![],
                ice_servers: copy::views(config.ice_servers@),
            }),
    {
        BlasterEventLoop {
            gid_lobbies: Table::new(),
            lobbies: Table::new(),
            players: Roster::new(),
            peers: Table::new(),
            config,
        }
    }

    /// Puts a message on its way to the player.
    pub fn send_to(&mut self, pid: BasicId, msg: ServerMessage)
        requires
            old(self).wf(),
        ensures
            final(self).wf(),
            final(self)@ == old(self)@.sending(pid, msg@),
    {
        if let Some(i) = self.players.find(pid) {
            self.players.player_mut(i).send(msg);
        }
    }

    /// Puts a message on its way to everybody in the lobby.
    pub fn send_to_lobby(&mut self, lid: &LobbyId, msg: &ServerMessage)
        requires
            old(self).wf(),
        ensures
            final(self).wf(),
            final(self)@ == old(self)@.telling(lid@, msg@),
    {
        let ghost all = self@.players;
        let ghost after = model::told(all, lid@, msg@);
        let mut i: usize = 0;
        while i < self.players.len()
            invariant
                self.wf(),
                after == model::told(all, lid@, msg@),
                self@ == (LoopView { players: self@.players, ..old(self)@ }),
                self@.players.len() == all.len(),
                i <= all.len(),
                forall|j: int| 0 <= j < i ==> #[trigger] self@.players[j] == after[j],
                forall|j: int| i <= j < all.len() ==> #[trigger] self@.players[j] == all[j],
                forall|j: int| 0 <= j < all.len() ==> assoc::keyed((#[trigger] all[j]).1.metadata),
            decreases all.len() - i,
        {
            if self.players.player_at(i).lid.same(lid) {
                self.players.player_mut(i).send(msg.clone());
            }
            i = i + 1;
        }
        assert(self@.players =~= after);
    }

    /// Asks the address's budget for one more service.
    fn cap_ip(&mut self, ip: IpAddr, now: Moment) -> (r: Result<(), Kick>)
        requires
            old(self).wf(),
        ensures
            final(self).wf(),
            final(self)@ == old(self)@.cap_ip(ip, now),
            r is Ok <==> old(self)@.serves(ip, now),
            r matches Err(kick) ==> kick@ == LoopView::cap_ip_refusal(),
    {
        let allowed = match self.peers.find(&ip) {
            Some(i) => self.peers.value_mut(i).sessions_budget.take(1, now),
            None => false,
        };
        if !allowed {
            return Err(Kick::violation("rate_limited", "Sessions per IP cap"));
        }
        Ok(())
    }

    /// Finds the lobby if it is the initiator's to alter and its budget allows one more change.
    fn alter(&mut self, lid: &LobbyId, initiator: BasicId, now: Moment) -> (r: Option<usize>)
        requires
            old(self).wf(),
        ensures
            final(self).wf(),
            final(self)@ == if old(self)@.has_lobby(lid@) && old(self)@.lobby(lid@).master
                == initiator {
                old(self)@.with_lobby(lid@, old(self)@.lobby(lid@).altered(now))
            } else {
                old(self)@
            },
            r is Some <==> old(self)@.has_lobby(lid@) && old(self)@.lobby(lid@).master == initiator
                && old(self)@.lobby(lid@).alterable(now),
            r matches Some(i) ==> i < old(self)@.lobbies.len() && i == assoc::place(
                old(self)@.lobbies,
                lid@,
            ),
    {
        if let Some(i) = self.lobbies.find(lid) {
            if self.lobbies.value_at(i).master == initiator
                && self.lobbies.value_mut(i).alterations_budget.take(1, now) {
                return Some(i);
            }
        }
        None
    }

    fn set_capacity(&mut self, initiator: BasicId, capacity: usize, now: Moment)
        requires
            old(self).wf(),
        ensures
            final(self).wf(),
            final(self)@ == old(self)@.set_capacity(initiator, capacity, now),
    {
        if capacity < 1 || capacity > MAX_PLAYERS {
            return;
        }
        if let Some(p) = self.players.find(initiator) {
            let lid = self.players.player_at(p).lid.clone();
            if let Some(i) = self.alter(&lid, initiator, now) {
                let ghost altered = self@.lobbies;
                self.lobbies.value_mut(i).capacity = capacity;
                assert(self@.lobbies =~= old(self)@.lobbies.update(
                    i as int,
                    (lid@, model::LobbyView { capacity, ..altered[i as int].1 }),
                ));
                self.send_to_lobby(&lid, &ServerMessage::SetCapacity { capacity });
            }
        }
    }

    fn set_listed(&mut self, initiator: BasicId, listed: bool, now: Moment)
        requires
            old(self).wf(),
        ensures
            final(self).wf(),
            final(self)@ == old(self)@.set_listed(initiator, listed, now),
    {
        if let Some(p) = self.players.find(initiator) {
            let lid = self.players.player_at(p).lid.clone();
            if let Some(i) = self.alter(&lid, initiator, now) {
                let ghost altered = self@.lobbies;
                self.lobbies.value_mut(i).listed = listed;
                assert(self@.lobbies =~= old(self)@.lobbies.update(
                    i as int,
                    (lid@, model::LobbyView { listed, ..altered[i as int].1 }),
                ));
                self.send_to_lobby(&lid, &ServerMessage::SetListed { listed });
            }
        }
    }

    fn set_master(&mut self, initiator: BasicId, new_master: BasicId, now: Moment)
        requires
            old(self).wf(),
        ensures
            final(self).wf(),
            final(self)@ == old(self)@.set_master(initiator, new_master, now),
    {
        if new_master == initiator {
            return;
        }
        if let Some(p) = self.players.find(new_master) {
            let lid = self.players.player_at(p).lid.clone();
            if let Some(i) = self.alter(&lid, initiator, now) {
                let ghost altered = self@.lobbies;
                self.lobbies.value_mut(i).master = new_master;
                assert(self@.lobbies =~= old(self)@.lobbies.update(
                    i as int,
                    (lid@, model::LobbyView { master: new_master, ..altered[i as int].1 }),
                ));
                self.send_to_lobby(&lid, &ServerMessage::SetMaster { pid: new_master });
            }
        }
    }

    fn set_player_meta(&mut self, pid: BasicId, key: String, value: String, now: Moment)
        requires
            old(self).wf(),
        ensures
            final(self).wf(),
            final(self)@ == old(self)@.set_player_meta(pid, key@, value@, now),
    {
        if let Some(i) = self.players.find(pid) {
            if !self.players.player_at(i).metadata.can_add(key.as_str()) {
                return;
            }
            let lid = self.players.player_at(i).lid.clone();
            let price: usize = field_price(&key, &value);
            if self.players.player_mut(i).metadata_budget.take(price, now) {
                let ghost asked = self@.players;
                self.players.player_mut(i).metadata.0.insert(key.clone(), value.clone());
                assert(self@.players =~= old(self)@.players.update(
                    i as int,
                    (
                        pid,
                        PlayerView {
                            metadata: assoc::put(asked[i as int].1.metadata, key@, value@),
                            ..asked[i as int].1
                        },
                    ),
                ));
                self.send_to_lobby(&lid, &ServerMessage::SetPlayerMeta { pid, key, value });
            }
        }
    }

    fn erase_player_meta(&mut self, pid: BasicId, key: String)
        requires
            old(self).wf(),
        ensures
            final(self).wf(),
            final(self)@ == old(self)@.erase_player_meta(pid, key@),
    {
        if let Some(i) = self.players.find(pid) {
            if self.players.player_at(i).metadata.0.contains_key(&key) {
                let lid = self.players.player_at(i).lid.clone();
                self.players.player_mut(i).metadata.0.remove(&key);
                self.send_to_lobby(&lid, &ServerMessage::ErasePlayerMeta { pid, key });
            }
        }
    }

    fn set_lobby_meta(&mut self, initiator: BasicId, key: String, value: String, now: Moment)
        requires
            old(self).wf(),
        ensures
            final(self).wf(),
            final(self)@ == old(self)@.set_lobby_meta(initiator, key@, value@, now),
    {
        if let Some(p) = self.players.find(initiator) {
            let lid = self.players.player_at(p).lid.clone();
            if let Some(i) = self.lobbies.find(&lid) {
                if self.lobbies.value_at(i).master != initiator
                    || !self.lobbies.value_at(i).metadata.can_add(key.as_str()) {
                    return;
                }
                let price: usize = field_price(&key, &value);
                if self.lobbies.value_mut(i).metadata_budget.take(price, now) {
                    let ghost asked = self@.lobbies;
                    self.lobbies.value_mut(i).metadata.0.insert(key.clone(), value.clone());
                    assert(self@.lobbies =~= old(self)@.lobbies.update(
                        i as int,
                        (
                            lid@,
                            model::LobbyView {
                                metadata: assoc::put(asked[i as int].1.metadata, key@, value@),
                                ..asked[i as int].1
                            },
                        ),
                    ));
                    self.send_to_lobby(&lid, &ServerMessage::SetLobbyMeta { key, value });
                }
            }
        }
    }

    fn erase_lobby_meta(&mut self, initiator: BasicId, key: String)
        requires
            old(self).wf(),
        ensures
            final(self).wf(),
            final(self)@ == old(self)@.erase_lobby_meta(initiator, key@),
    {
        if let Some(p) = self.players.find(initiator) {
            let lid = self.players.player_at(p).lid.clone();
            if let Some(i) = self.lobbies.find(&lid) {
                if self.lobbies.value_at(i).master == initiator
                    && self.lobbies.value_at(i).metadata.0.contains_key(&key) {
                    self.lobbies.value_mut(i).metadata.0.remove(&key);
                    self.send_to_lobby(&lid, &ServerMessage::EraseLobbyMeta { key });
                }
            }
        }
    }

    /// Shows a player the door, if the kicker is the master of that player's lobby.
    fn kick_player(&mut self, kicker: BasicId, kickee: BasicId)
        requires
            old(self).wf(),
        ensures
            final(self).wf(),
            final(self)@ == old(self)@.kick_player(kicker, kickee),
    {
        if let Some(p) = self.players.find(kicker) {
            let lid = self.players.player_at(p).lid.clone();
            if let Some(i) = self.lobbies.find(&lid) {
                if self.lobbies.value_at(i).master == kicker {
                    if let Some(q) = self.players.find(kickee) {
                        if self.players.player_at(q).lid.same(&lid) {
                            let reason = Kick::natural("kick", "Kicked by lobby's master");
                            self.players.player_mut(q).boot(reason);
                        }
                    }
                }
            }
        }
    }

    /// Passes a player's message on to another one, if they are in the same lobby.
    fn relay(&mut self, from: BasicId, to: BasicId, msg: ServerMessage)
        requires
            old(self).wf(),
        ensures
            final(self).wf(),
            final(self)@ == old(self)@.relay(from, to, msg@),
    {
        if let Some(p) = self.players.find(from) {
            if let Some(q) = self.players.find(to) {
                if self.players.player_at(p).lid.same(&self.players.player_at(q).lid) {
                    self.send_to(to, msg);
                }
            }
        }
    }

    /// What a player is told on coming into a lobby.
    fn welcome(&self, lobby: &Lobby, lid: BasicId, pid: BasicId, birth: u128) -> (r: Vec<
        ServerMessage,
    >)
        ensures
            copy::views(r@) == model::welcome(lobby@, self@.ice_servers, lid, pid, birth),
    {
        let ghost fields = model::field_msgs(lobby@.metadata);
        let mut outbox: Vec<ServerMessage> = Vec::new();
        outbox.push(ServerMessage::SetListed { listed: lobby.listed });
        outbox.push(ServerMessage::SetCapacity { capacity: lobby.capacity });
        let ghost settings = copy::views(outbox@);
        let mut i: usize = 0;
        while i < lobby.metadata.0.len()
            invariant
                i <= lobby@.metadata.len(),
                fields == model::field_msgs(lobby@.metadata),
                copy::views(outbox@) == settings + fields.take(i as int),
            decreases lobby@.metadata.len() - i,
        {
            let ghost so_far = outbox@;
            let msg = ServerMessage::SetLobbyMeta {
                key: lobby.metadata.0.key_at(i).clone(),
                value: lobby.metadata.0.value_at(i).clone(),
            };
            outbox.push(msg);
            i = i + 1;
            assert(copy::views(outbox@) =~= copy::views(so_far).push(msg@));
            assert(copy::views(outbox@) =~= settings + fields.take(i as int));
        }
        let ghost told = outbox@;
        assert(fields.take(i as int) =~= fields);
        outbox.push(ServerMessage::SetMaster { pid: lobby.master });
        outbox.push(
            ServerMessage::Connected {
                ice_servers: copy::duplicate_all(&self.config.ice_servers),
                lid,
                pid,
                birth,
            },
        );
        assert(copy::views(outbox@) =~= model::welcome(
            lobby@,
            self@.ice_servers,
            lid,
            pid,
            birth,
        )) by {
            assert(copy::views(outbox@) =~= copy::views(told) + seq![
                outbox@[told.len() as int]@,
                outbox@[told.len() as int + 1]@,
            ]);
        }
        outbox
    }

    /// Tells the newcomer and each of the others of each other.
    fn meet(&mut self, others: &IdSet, pid: BasicId, metadata: &Metadata, birth: u128)
        requires
            old(self).wf(),
        ensures
            final(self).wf(),
            final(self)@ == (LoopView {
                players: model::met(
                    old(self)@.players,
                    others@,
                    pid,
                    ServerMessageView::Joined { pid, metadata: metadata@, birth },
                ),
                ..old(self)@
            }),
    {
        let ghost newcomer = ServerMessageView::Joined { pid, metadata: metadata@, birth };
        let mut i: usize = 0;
        while i < others.ids.len()
            invariant
                self.wf(),
                i <= others@.len(),
                newcomer == (ServerMessageView::Joined { pid, metadata: metadata@, birth }),
                self@ == (LoopView {
                    players: model::met(
                        old(self)@.players,
                        others@.take(i as int),
                        pid,
                        newcomer,
                    ),
                    ..old(self)@
                }),
            decreases others@.len() - i,
        {
            let other: BasicId = others.ids[i];
            assert(others@.take(i + 1).drop_last() =~= others@.take(i as int));
            if let Some(q) = self.players.find(other) {
                let msg = ServerMessage::Joined {
                    pid: other,
                    metadata: self.players.player_at(q).metadata.clone(),
                    birth: self.players.player_at(q).birth,
                };
                self.send_to(pid, msg);
            }
            self.send_to(other, ServerMessage::Joined { pid, metadata: metadata.clone(), birth });
            i = i + 1;
        }
        assert(others@.take(i as int) =~= others@);
    }

    /// Lets a player into a lobby.
    fn insert_player(&mut self, pid: BasicId, lid: LobbyId, player_metadata: Metadata, now: Moment)
        requires
            old(self).wf(),
            old(self)@.has_lobby(lid@),
            player_metadata.wf(),
        ensures
            final(self).wf(),
            final(self)@ == old(self)@.insert_player(pid, lid@, player_metadata@, now),
    {
        if let Some(i) = self.lobbies.find(&lid) {
            let birth: u128 = (clock::time_since(self.lobbies.value_at(i).created_at, now)
                / MILLISECOND) as u128;
            let outbox = self.welcome(self.lobbies.value_at(i), lid.lid, pid, birth);
            let others = self.lobbies.value_at(i).players.clone();
            let lobby = self.lobbies.value_mut(i);
            lobby.players.insert(pid);
            if lobby.players.ids.len() >= CHUD_THRESHOLD {
                lobby.idle_since = None;
            }
            let player = Player {
                lid,
                metadata: player_metadata.clone(),
                outbox,
                birth,
                metadata_budget: TokenBucket::new_metadata("player_metadata", now),
            };
            self.players.insert(pid, player);
            self.meet(&others, pid, &player_metadata, birth);
        }
    }

    /// Takes the lobby out of the index.
    fn unindex(&mut self, lid: &LobbyId)
        requires
            old(self).wf(),
        ensures
            final(self).wf(),
            final(self)@ == (LoopView {
                gid_lobbies: model::unindexed(old(self)@.gid_lobbies, lid@),
                ..old(self)@
            }),
    {
        if let Some(i) = self.gid_lobbies.find(&lid.gid) {
            self.gid_lobbies.value_mut(i).remove(lid.lid);
            if self.gid_lobbies.value_at(i).ids.len() == 0 {
                let ghost emptied = self@.gid_lobbies;
                self.gid_lobbies.remove_at(i);
                assert(emptied.remove(i as int) =~= old(self)@.gid_lobbies.remove(i as int));
            }
        }
    }

    /// Drops the lobbies that nobody is in.
    fn cleanup_lobbies(&mut self)
        requires
            old(self).wf(),
        ensures
            final(self).wf(),
            final(self)@ == old(self)@.cleanup_lobbies(),
    {
        let ghost all = self@.lobbies;
        let ghost index = self@.gid_lobbies;
        let ghost p = model::inhabited();
        let ghost mut seen: int = 0;
        let mut i: usize = 0;
        assert(all =~= all.take(0).filter(p) + all.skip(0));
        while i < self.lobbies.len()
            invariant
                self.wf(),
                self@ == (LoopView {
                    gid_lobbies: model::swept(index, all.take(seen)),
                    lobbies: all.take(seen).filter(p) + all.skip(seen),
                    ..old(self)@
                }),
                p == model::inhabited(),
                0 <= seen <= all.len(),
                i == all.take(seen).filter(p).len(),
            decreases all.len() - seen,
        {
            let ghost kept = all.take(seen).filter(p);
            proof {
                assert(self@.lobbies[i as int] == all[seen]);
                assert(all.take(seen + 1).drop_last() =~= all.take(seen));
                reveal(Seq::filter);
            }
            if self.lobbies.value_at(i).players.ids.len() != 0 {
                assert(self@.lobbies =~= kept.push(all[seen]) + all.skip(seen + 1));
                i = i + 1;
            } else {
                let lid = self.lobbies.key_at(i).clone();
                self.unindex(&lid);
                let ghost before = self@.lobbies;
                self.lobbies.remove_at(i);
                assert(before.remove(i as int) =~= kept + all.skip(seen + 1));
                assert forall|k: int| 0 <= k < self@.lobbies.len() implies assoc::keyed(
                    (#[trigger] self@.lobbies[k]).1.metadata,
                ) by {
                    let q = if k < i {
                        k
                    } else {
                        k + 1
                    };
                    assert(self@.lobbies[k] == before[q]);
                }
            }
            proof {
                seen = seen + 1;
            }
        }
        assert(all.take(seen) =~= all);
        assert(all.skip(seen) =~= Seq::empty());
        assert(self@.lobbies =~= all.filter(p));
    }

    /// Lets a player go.
    fn remove_player(&mut self, pid: BasicId, reason: Option<Kick>, now: Moment)
        requires
            old(self).wf(),
        ensures
            final(self).wf(),
            final(self)@ == old(self)@.remove_player(pid, payloads::kick_said(reason), now),
    {
        let lid: LobbyId = match self.players.shift_remove(pid) {
            Some(player) => player.lid,
            None => {
                return;
            },
        };
        if let Some(i) = self.lobbies.find(&lid) {
            let lobby = self.lobbies.value_mut(i);
            let mut heir: Option<BasicId> = None;
            lobby.players.remove(pid);
            if lobby.players.ids.len() < CHUD_THRESHOLD && lobby.idle_since.is_none() {
                lobby.idle_since = Some(now);
            }
            if pid == lobby.master && lobby.players.ids.len() > 0 {
                let new: BasicId = lobby.players.ids[0];
                lobby.master = new;
                heir = Some(new);
            }
            if let Some(new) = heir {
                self.send_to_lobby(&lid, &ServerMessage::SetMaster { pid: new });
            }
            self.send_to_lobby(&lid, &ServerMessage::Left { pid, reason });
            self.cleanup_lobbies();
        }
    }

    /// How many sessions are open.
    fn total_sessions(&self) -> (n: usize)
        requires
            self.wf(),
        ensures
            n == model::total_sessions(self@.peers),
    {
        let ghost all = self@.peers;
        let mut total: usize = 0;
        let mut i: usize = 0;
        while i < self.peers.len()
            invariant
                self.wf(),
                all == self@.peers,
                i <= all.len() <= GLOBAL_PEERS_CAP,
                total == model::total_sessions(all.take(i as int)),
                total <= i * SESSIONS_PER_IP_CAP,
            decreases all.len() - i,
        {
            assert(all.take(i + 1).drop_last() =~= all.take(i as int));
            assert(self.peers.entries@[i as int].value@ == all[i as int].1);
            total = total + self.peers.value_at(i).session_count();
            i = i + 1;
        }
        assert(all.take(i as int) =~= all);
        total
    }

    /// Lets a session in, unless there are too many.
    fn introduce_session(&mut self, ip: IpAddr, now: Moment) -> (r: bool)
        requires
            old(self).wf(),
        ensures
            final(self).wf(),
            final(self)@ == old(self)@.introduce_session(ip, now),
            r == old(self)@.admits(ip),
    {
        if self.total_sessions() >= GLOBAL_SESSIONS_CAP {
            return false;
        }
        match self.peers.find(&ip) {
            Some(i) => {
                let peer = self.peers.value_mut(i);
                let count: usize = peer.session_count();
                if count >= SESSIONS_PER_IP_CAP {
                    assert(old(self)@.peers.update(i as int, old(self)@.peers[i as int])
                        =~= old(self)@.peers);
                    return false;
                }
                peer.session_count = PeerSessionCount::Active(count + 1);
                true
            },
            None => {
                if self.peers.len() >= GLOBAL_PEERS_CAP {
                    return false;
                }
                self.peers.insert(ip, Peer::new(now));
                true
            },
        }
    }

    /// Lets a session go.
    fn close_session(&mut self, ip: IpAddr, now: Moment)
        requires
            old(self).wf(),
        ensures
            final(self).wf(),
            final(self)@ == old(self)@.close_session(ip, now),
    {
        if let Some(i) = self.peers.find(&ip) {
            let peer = self.peers.value_mut(i);
            match peer.session_count {
                PeerSessionCount::Decaying(_) => (),
                PeerSessionCount::Active(count) => {
                    peer.session_count = if count <= 1 {
                        PeerSessionCount::Decaying(now)
                    } else {
                        PeerSessionCount::Active(count - 1)
                    };
                },
            }
        }
    }

    /// Shows the players of a lobby the door because it is idle.
    fn evict(&mut self, ids: &IdSet)
        requires
            old(self).wf(),
        ensures
            final(self).wf(),
            final(self)@ == (LoopView {
                players: model::sent_all(old(self)@.players, ids@, model::idle_msg()),
                ..old(self)@
            }),
    {
        let mut i: usize = 0;
        while i < ids.ids.len()
            invariant
                self.wf(),
                i <= ids@.len(),
                self@ == (LoopView {
                    players: model::sent_all(
                        old(self)@.players,
                        ids@.take(i as int),
                        model::idle_msg(),
                    ),
                    ..old(self)@
                }),
            decreases ids@.len() - i,
        {
            assert(ids@.take(i + 1).drop_last() =~= ids@.take(i as int));
            let reason = Kick::natural("inactive_lobby", "Inactive lobby");
            self.send_to(ids.ids[i], ServerMessage::Disconnected { reason });
            i = i + 1;
        }
        assert(ids@.take(i as int) =~= ids@);
    }

    /// Forgets the addresses that no session has come from for long.
    fn forget_peers(&mut self, now: Moment)
        requires
            old(self).wf(),
        ensures
            final(self).wf(),
            final(self)@ == (LoopView {
                peers: old(self)@.peers.filter(model::remembered(now)),
                ..old(self)@
            }),
    {
        let ghost all = self@.peers;
        let ghost p = model::remembered(now);
        let ghost mut seen: int = 0;
        let mut i: usize = 0;
        assert(all =~= all.take(0).filter(p) + all.skip(0));
        while i < self.peers.len()
            invariant
                self.wf(),
                self@ == (LoopView {
                    peers: all.take(seen).filter(p) + all.skip(seen),
                    ..old(self)@
                }),
                p == model::remembered(now),
                0 <= seen <= all.len(),
                i == all.take(seen).filter(p).len(),
            decreases all.len() - seen,
        {
            let ghost kept = all.take(seen).filter(p);
            proof {
                assert(self@.peers[i as int] == all[seen]);
                assert(all.take(seen + 1).drop_last() =~= all.take(seen));
                reveal(Seq::filter);
            }
            let peer = self.peers.value_at(i);
            let decayed = match peer.session_count {
                PeerSessionCount::Decaying(since) => {
                    clock::time_since(since, now) >= SESSION_IDLE_TIMEOUT
                },
                PeerSessionCount::Active(_) => false,
            };
            assert(decayed == all[seen].1.decayed(now));
            if !decayed {
                assert(self@.peers =~= kept.push(all[seen]) + all.skip(seen + 1));
                i = i + 1;
            } else {
                let ghost before = self@.peers;
                self.peers.remove_at(i);
                assert(before.remove(i as int) =~= kept + all.skip(seen + 1));
                assert forall|k: int| 0 <= k < self@.peers.len() implies blaster::open_sessions(
                    (#[trigger] self@.peers[k]).1.session_count,
                ) <= SESSIONS_PER_IP_CAP by {
                    let q = if k < i {
                        k
                    } else {
                        k + 1
                    };
                    assert(self@.peers[k] == before[q]);
                }
            }
            proof {
                seen = seen + 1;
            }
        }
        assert(all.take(seen) =~= all);
        assert(all.skip(seen) =~= Seq::empty());
        assert(self@.peers =~= all.filter(p));
    }

    /// Shows the players of idle lobbies the door, and forgets addresses.
    fn prune(&mut self, now: Moment)
        requires
            old(self).wf(),
        ensures
            final(self).wf(),
            final(self)@ == old(self)@.prune(now),
    {
        let ghost all = self@.lobbies;
        let mut i: usize = 0;
        while i < self.lobbies.len()
            invariant
                self.wf(),
                all == old(self)@.lobbies,
                i <= all.len(),
                self@ == (LoopView {
                    players: model::evicted(old(self)@.players, all.take(i as int), now),
                    ..old(self)@
                }),
            decreases all.len() - i,
        {
            assert(all.take(i + 1).drop_last() =~= all.take(i as int));
            let lobby = self.lobbies.value_at(i);
            assert(lobby@ == all[i as int].1);
            if let Some(since) = lobby.idle_since {
                if clock::time_since(since, now) >= CHUD_LOBBY_TIMEOUT {
                    let ids = lobby.players.clone();
                    self.evict(&ids);
                }
            }
            i = i + 1;
        }
        assert(all.take(i as int) =~= all);
        self.forget_peers(now);
    }

    /// The lobbies to show to somebody who looks for one in the game.
    fn list_lobbies(&self, gid: &GameId, limit: usize) -> (r: Vec<LobbyListing>)
        requires
            self.wf(),
        ensures
            copy::views(r@) == self@.list_lobbies(gid@, limit),
    {
        let n: usize = if limit < 1 {
            1
        } else if limit > LOBBY_LISTING_CAP {
            LOBBY_LISTING_CAP
        } else {
            limit
        };
        let ghost all = self@.lobbies_of(gid@);
        let ghost p = self@.shown(gid@);
        let ghost f = self@.listing(gid@);
        let mut list: Vec<LobbyListing> = Vec::new();
        let ids: IdSet = match self.gid_lobbies.find(gid) {
            Some(g) => self.gid_lobbies.value_at(g).clone(),
            None => IdSet::new(),
        };
        let mut i: usize = 0;
        assert(copy::views(list@) =~= all.take(0).filter(p).map_values(f));
        while i < ids.ids.len() && list.len() < n
            invariant
                self.wf(),
                n == LoopView::listing_limit(limit),
                ids@ == all,
                p == self@.shown(gid@),
                f == self@.listing(gid@),
                i <= all.len(),
                list@.len() <= n,
                copy::views(list@) == all.take(i as int).filter(p).map_values(f),
            decreases all.len() - i,
        {
            let ghost so_far = list@;
            let ghost found = all.take(i as int).filter(p);
            let lid = LobbyId { lid: ids.ids[i], gid: gid.clone() };
            proof {
                assert(all.take(i + 1).drop_last() =~= all.take(i as int));
                reveal(Seq::filter);
            }
            if let Some(k) = self.lobbies.find(&lid) {
                let lobby = self.lobbies.value_at(k);
                if lobby.listed && !lobby.is_full() {
                    let listing = LobbyListing {
                        lid: lid.lid,
                        max: lobby.capacity,
                        players: lobby.players.ids.len(),
                        metadata: lobby.metadata.clone(),
                    };
                    list.push(listing);
                    proof {
                        assert(copy::views(list@) =~= copy::views(so_far).push(listing@));
                        assert(found.push(all[i as int]).map_values(f) =~= found.map_values(f).push(
                            listing@,
                        ));
                    }
                }
            }
            i = i + 1;
        }
        proof {
            let found = all.take(i as int).filter(p);
            assert(all =~= all.take(i as int) + all.skip(i as int));
            Seq::filter_distributes_over_add(all.take(i as int), all.skip(i as int), p);
            assert(copy::views(list@).len() == found.len());
            if i == all.len() {
                assert(all.skip(i as int) =~= Seq::empty());
                assert(all.filter(p) =~= found);
            }
            assert(found =~= all.filter(p).take(found.len() as int));
        }
        list
    }

    /// How many lobbies were opened from the address, and whether one of them is listed.
    fn hosted_by(&self, ip: IpAddr) -> (r: (usize, bool))
        requires
            self.wf(),
        ensures
            r.0 == self@.lobbies.filter(model::hosted_by(ip)).len(),
            r.1 == (self@.lobbies.filter(model::listed_by(ip)).len() > 0),
    {
        let ghost all = self@.lobbies;
        let mut count: usize = 0;
        let mut listed = false;
        let mut i: usize = 0;
        while i < self.lobbies.len()
            invariant
                self.wf(),
                all == self@.lobbies,
                i <= all.len(),
                count <= i,
                count == all.take(i as int).filter(model::hosted_by(ip)).len(),
                listed == (all.take(i as int).filter(model::listed_by(ip)).len() > 0),
            decreases all.len() - i,
        {
            proof {
                assert(all.take(i + 1).drop_last() =~= all.take(i as int));
                reveal(Seq::filter);
            }
            let lobby = self.lobbies.value_at(i);
            assert(lobby@ == all[i as int].1);
            if lobby.initiator == ip {
                count = count + 1;
                if lobby.listed {
                    listed = true;
                }
            }
            i = i + 1;
        }
        assert(all.take(i as int) =~= all);
        (count, listed)
    }

    /// How many listed lobbies the game has.
    fn listed_in(&self, gid: &GameId) -> (n: usize)
        requires
            self.wf(),
        ensures
            n == self@.lobbies_of(gid@).filter(self@.listed(gid@)).len(),
    {
        let ghost all = self@.lobbies_of(gid@);
        let ghost p = self@.listed(gid@);
        let ids: IdSet = match self.gid_lobbies.find(gid) {
            Some(g) => self.gid_lobbies.value_at(g).clone(),
            None => IdSet::new(),
        };
        let mut count: usize = 0;
        let mut i: usize = 0;
        while i < ids.ids.len()
            invariant
                self.wf(),
                ids@ == all,
                p == self@.listed(gid@),
                i <= all.len(),
                count <= i,
                count == all.take(i as int).filter(p).len(),
            decreases all.len() - i,
        {
            proof {
                assert(all.take(i + 1).drop_last() =~= all.take(i as int));
                reveal(Seq::filter);
            }
            let lid = LobbyId { lid: ids.ids[i], gid: gid.clone() };
            if let Some(k) = self.lobbies.find(&lid) {
                if self.lobbies.value_at(k).listed {
                    count = count + 1;
                }
            }
            i = i + 1;
        }
        assert(all.take(i as int) =~= all);
        count
    }

    /// Opens a lobby and enters it in the index.
    fn open_lobby(&mut self, lid: LobbyId, lobby: Lobby)
        requires
            old(self).wf(),
            lobby.metadata.wf(),
            lobby.players.wf(),
        ensures
            final(self).wf(),
            final(self)@ == old(self)@.open_lobby(lid@, lobby@),
    {
        match self.gid_lobbies.find(&lid.gid) {
            Some(g) => {
                self.gid_lobbies.value_mut(g).insert(lid.lid);
            },
            None => {
                let mut set = IdSet::new();
                set.insert(lid.lid);
                self.gid_lobbies.insert(lid.gid.clone(), set);
            },
        }
        self.lobbies.insert(lid, lobby);
    }

    /// Opens a lobby that goes by the number `lid`, with its host as the player `pid`.
    pub fn host_lobby(
        &mut self,
        initiator: IpAddr,
        gid: GameId,
        lobby_meta: Metadata,
        capacity: usize,
        listed: bool,
        player_metadata: Metadata,
        lid: BasicId,
        pid: BasicId,
        now: Moment,
    ) -> (r: Result<BasicId, Kick>)
        requires
            old(self).wf(),
            lobby_meta.wf(),
            player_metadata.wf(),
        ensures
            final(self).wf(),
            final(self)@ == old(self)@.host_lobby(
                initiator,
                gid@,
                lobby_meta@,
                capacity,
                listed,
                player_metadata@,
                lid,
                pid,
                now,
            ),
            match old(self)@.host_refusal(initiator, gid@, listed, now) {
                Some(kick) => r is Err && r->Err_0@ == kick,
                None => r == Ok::<BasicId, Kick>(pid),
            },
    {
        self.cap_ip(initiator, now)?;
        assert(self@.listed(gid@) =~= old(self)@.listed(gid@));
        let (count, ip_has_listed) = self.hosted_by(initiator);
        if (listed && ip_has_listed) || count >= LOBBIES_PER_IP {
            return Err(Kick::violation("rate_limited", "Lobbies per IP limit"));
        }
        if listed && self.listed_in(&gid) >= LISTED_LOBBIES_PER_GID {
            return Err(Kick::violation("rate_limited", "Lobbies per GID limit"));
        }
        let lid = LobbyId { lid, gid };
        let lobby = Lobby {
            initiator,
            players: IdSet::new(),
            master: pid,
            metadata: lobby_meta,
            capacity,
            listed,
            idle_since: Some(now),
            created_at: now,
            alterations_budget: TokenBucket::new("alterations", 1, 2, 2, now),
            metadata_budget: TokenBucket::new_metadata("lobby_metadata", now),
        };
        let ghost asked = self@;
        self.open_lobby(lid.clone(), lobby);
        proof {
            assoc::lemma_put_value(asked.lobbies, lid@, lobby@);
        }
        self.insert_player(pid, lid, player_metadata, now);
        Ok(pid)
    }

    /// Lets somebody into a lobby as the player `pid`.
    pub fn join_lobby(
        &mut self,
        ip: IpAddr,
        lid: LobbyId,
        player_metadata: Metadata,
        pid: BasicId,
        now: Moment,
    ) -> (r: Result<BasicId, Kick>)
        requires
            old(self).wf(),
            player_metadata.wf(),
        ensures
            final(self).wf(),
            final(self)@ == old(self)@.join_lobby(ip, lid@, player_metadata@, pid, now),
            match old(self)@.join_refusal(ip, lid@, now) {
                Some(kick) => r is Err && r->Err_0@ == kick,
                None => r == Ok::<BasicId, Kick>(pid),
            },
    {
        self.cap_ip(ip, now)?;
        let full = match self.lobbies.find(&lid) {
            Some(i) => self.lobbies.value_at(i).is_full(),
            None => {
                return Err(Kick::violation("lobby_not_found", "Lobby not found"));
            },
        };
        if full {
            return Err(Kick::violation("lobby_full", "Lobby is full"));
        }
        self.insert_player(pid, lid, player_metadata, now);
        Ok(pid)
    }

    /// Carries out an operation and says what comes back for it. A lobby that it opens goes by the
    /// number `lid`, and a player whom it lets in by the number `pid`.
    pub fn recv_as(&mut self, op: BlasterOperation, now: Moment, lid: BasicId, pid: BasicId) -> (r:
        Reply)
        requires
            old(self).wf(),
            op@.wf(),
        ensures
            final(self).wf(),
            final(self)@ == old(self)@.step(op@, now, lid, pid),
            r@ == old(self)@.reply(op@, now, pid),
    {
        match op {
            BlasterOperation::ListLobbies { ip, gid, limit } => {
                match self.cap_ip(ip, now) {
                    Ok(_) => {
                        assert(self@.shown(gid@) =~= old(self)@.shown(gid@));
                        assert(self@.listing(gid@) =~= old(self)@.listing(gid@));
                        Reply::Listing(Ok(self.list_lobbies(&gid, limit)))
                    },
                    Err(kick) => Reply::Listing(Err(kick)),
                }
            },
            BlasterOperation::HostLobby {
                initiator,
                gid,
                lobby_meta,
                capacity,
                listed,
                player_metadata,
            } => Reply::Pid(
                self.host_lobby(
                    initiator,
                    gid,
                    lobby_meta,
                    capacity,
                    listed,
                    player_metadata,
                    lid,
                    pid,
                    now,
                ),
            ),
            BlasterOperation::JoinLobby { ip, lid, player_metadata } => Reply::Pid(
                self.join_lobby(ip, lid, player_metadata, pid, now),
            ),
            BlasterOperation::SetCapacity { initiator, capacity } => {
                self.set_capacity(initiator, capacity, now);
                Reply::Nothing
            },
            BlasterOperation::SetListed { initiator, listed } => {
                self.set_listed(initiator, listed, now);
                Reply::Nothing
            },
            BlasterOperation::SetMaster { initiator, new_master } => {
                self.set_master(initiator, new_master, now);
                Reply::Nothing
            },
            BlasterOperation::SetPlayerMeta { pid, key, value } => {
                self.set_player_meta(pid, key, value, now);
                Reply::Nothing
            },
            BlasterOperation::ErasePlayerMeta { pid, key } => {
                self.erase_player_meta(pid, key);
                Reply::Nothing
            },
            BlasterOperation::SetLobbyMeta { initiator, key, value } => {
                self.set_lobby_meta(initiator, key, value, now);
                Reply::Nothing
            },
            BlasterOperation::EraseLobbyMeta { initiator, key } => {
                self.erase_lobby_meta(initiator, key);
                Reply::Nothing
            },
            BlasterOperation::KickPlayer { kicker, kickee } => {
                self.kick_player(kicker, kickee);
                Reply::Nothing
            },
            BlasterOperation::RemovePlayer { pid, reason } => {
                self.remove_player(pid, reason, now);
                Reply::Nothing
            },
            BlasterOperation::Relay { from, to, msg } => {
                self.relay(from, to, msg);
                Reply::Nothing
            },
            BlasterOperation::IntroduceSession { ip } => Reply::Introduced(
                self.introduce_session(ip, now),
            ),
            BlasterOperation::Prune => {
                self.prune(now);
                Reply::Nothing
            },
            BlasterOperation::CloseSession { ip } => {
                self.close_session(ip, now);
                Reply::Nothing
            },
        }
    }

    /// Carries out an operation and says what comes back for it. A lobby that it opens, and a
    /// player whom it lets in, go by random numbers.
    pub fn recv(&mut self, op: BlasterOperation, now: Moment) -> (r: Reply)
        requires
            old(self).wf(),
            op@.wf(),
        ensures
            final(self).wf(),
            exists|lid: BasicId, pid: BasicId|
                final(self)@ == #[trigger] old(self)@.step(op@, now, lid, pid) && r@ == old(
                    self,
                )@.reply(op@, now, pid),
            op !is HostLobby && op !is JoinLobby ==> final(self)@ == old(self)@.step(
                op@,
                now,
                0,
                0,
            ) && r@ == old(self)@.reply(op@, now, 0),
    {
        let (lid, pid): (BasicId, BasicId) = match &op {
            BlasterOperation::HostLobby { .. } => (random_id(), random_id()),
            BlasterOperation::JoinLobby { .. } => (0, random_id()),
            _ => (0, 0),
        };
        self.recv_as(op, now, lid, pid)
    }

    /// Fetches all messages that are on their way, to be handed to the players' sessions.
    pub fn collect_mail(&mut self) -> (r: Vec<Delivery>)
        requires
            old(self).wf(),
        ensures
            final(self).wf(),
            final(self)@ == old(self)@.mail_collected(),
            copy::views(r@) == old(self)@.mail(),
    {
        let ghost all = self@.players;
        let ghost after = old(self)@.mail_collected().players;
        let ghost p = model::has_mail();
        let ghost f = model::delivery();
        let mut r: Vec<Delivery> = Vec::new();
        let mut i: usize = 0;
        assert(copy::views(r@) =~= all.take(0).filter(p).map_values(f));
        while i < self.players.len()
            invariant
                self.wf(),
                all == old(self)@.players,
                after == old(self)@.mail_collected().players,
                p == model::has_mail(),
                f == model::delivery(),
                i <= all.len(),
                self@ == (LoopView { players: self@.players, ..old(self)@ }),
                self@.players.len() == all.len(),
                forall|j: int| 0 <= j < i ==> #[trigger] self@.players[j] == after[j],
                forall|j: int| i <= j < all.len() ==> #[trigger] self@.players[j] == all[j],
                forall|j: int| 0 <= j < all.len() ==> assoc::keyed((#[trigger] all[j]).1.metadata),
                copy::views(r@) == all.take(i as int).filter(p).map_values(f),
            decreases all.len() - i,
        {
            let ghost so_far = r@;
            let ghost found = all.take(i as int).filter(p);
            let ghost here = self@.players[i as int];
            proof {
                assert(here == all[i as int]);
                assert(all.take(i + 1).drop_last() =~= all.take(i as int));
                reveal(Seq::filter);
            }
            let pid: BasicId = self.players.pid_at(i);
            let mut msgs: Vec<ServerMessage> = Vec::new();
            msgs.append(&mut self.players.player_mut(i).outbox);
            assert(copy::views(msgs@) =~= here.1.outbox);
            assert(self@.players[i as int].1.outbox =~= seq![]);
            if msgs.len() > 0 {
                let delivery = Delivery { pid, msgs };
                r.push(delivery);
                proof {
                    assert(copy::views(r@) =~= copy::views(so_far).push(delivery@));
                    assert(found.push(all[i as int]).map_values(f) =~= found.map_values(f).push(
                        delivery@,
                    ));
                }
            }
            i = i + 1;
        }
        assert(all.take(i as int) =~= all);
        assert(self@.players =~= after);
        r
    }
}

/// `rand::random`: some number; which one is left to chance.
#[verifier::external_body]
fn random_id() -> BasicId {
    rand::random()
}

/// What it costs to set a field.
fn field_price(key: &String, value: &String) -> (price: usize)
    ensures
        price == model::field_price(key@, value@),
{
    text::bytes_in(key.as_str()).saturating_add(text::bytes_in(value.as_str()))
}

} // verus!
