//! How players come into a lobby of the mailbox server and leave it, field by field.

use crate::assoc;
use crate::clock::Moment;
use crate::id::{BasicId, LobbyKey};
use crate::mailbox::effects;
use crate::mailbox::model;
use crate::mailbox::model::{BlasterView, LobbyView, OpView, PlayerView, Players};
use crate::picking;
use crate::protocol::aux::MetadataView;
use crate::protocol::payloads::{KickView, ServerMessageView};
use vstd::prelude::*;

verus! {

/// Who is in the lobby besides the player.
pub open spec fn companions(lid: LobbyKey, pid: BasicId) -> spec_fn((BasicId, PlayerView)) -> bool {
    |e: (BasicId, PlayerView)| e.1.lid == lid && e.0 != pid
}

/// The messages are those that a newcomer to the lobby gets: whether it is listed, how many players
/// it holds, each of its fields, each of its players, who its master is, and how to reach the
/// others.
pub open spec fn greeted(
    queue: Seq<ServerMessageView>,
    lobby: LobbyView,
    others: Players,
    master: BasicId,
    ice_servers: Seq<Seq<char>>,
) -> bool {
    let fields = lobby.meta.len() as int;
    let people = others.len() as int;
    &&& queue.len() == fields + people + 4
    &&& queue[0] == (ServerMessageView::SetListed { listed: lobby.listed })
    &&& queue[1] == (ServerMessageView::SetCapacity { capacity: lobby.capacity })
    &&& forall|i: int|
        0 <= i < fields ==> #[trigger] queue[i + 2] == (ServerMessageView::SetLobbyMeta {
            key: lobby.meta[i].0,
            value: lobby.meta[i].1,
        })
    &&& forall|j: int|
        0 <= j < people ==> #[trigger] queue[fields + 2 + j] == (ServerMessageView::Joined {
            pid: others[j].0,
            meta: others[j].1.meta,
        })
    &&& queue[fields + people + 2] == (ServerMessageView::SetMaster { pid: master })
    &&& queue[fields + people + 3] == (ServerMessageView::Connected { ice_servers })
}

/// Whoever is let into a lobby is in it; they are told all about the lobby and of each player in it,
/// and nothing else; each of those is told of the newcomer; the lobby's master is who holds the
/// post, if that is the newcomer or somebody who is around, and else who has been in the lobby the
/// longest; and nothing else changes. Nobody is let into a lobby that is not there.
pub proof fn law_entering(
    a: BlasterView,
    pid: BasicId,
    lid: LobbyKey,
    meta: MetadataView,
    now: Moment,
)
    requires
        a.wf(),
    ensures
        ({
            let b = a.step(OpView::IntroducePlayer { pid, lid, player_meta: meta }, now);
            let l = a.lobby(lid);
            let master = b.lobby(lid).master;
            if a.has_lobby(lid) {
                &&& b.has_player(pid)
                &&& b.player(pid).lid == lid
                &&& b.player(pid).meta == meta
                &&& greeted(
                    b.player(pid).queue,
                    l,
                    a.players.filter(companions(lid, pid)),
                    master,
                    a.ice_servers,
                )
                &&& if a.has_player(pid) {
                    effects::news_to_others(
                        a.players,
                        b.players,
                        lid,
                        ServerMessageView::Joined { pid, meta },
                        pid,
                    )
                } else {
                    &&& b.players.len() == a.players.len() + 1
                    &&& b.players.last().0 == pid
                    &&& effects::news(
                        a.players,
                        b.players.drop_last(),
                        lid,
                        ServerMessageView::Joined { pid, meta },
                    )
                }
                &&& b.has_lobby(lid)
                &&& b.lobby(lid) == (LobbyView { master, ..l })
                &&& if l.master == pid || a.has_player(l.master) {
                    master == l.master
                } else {
                    effects::first_of(b.players, lid, master)
                }
                &&& effects::other_lobbies_kept(a.lobbies, b.lobbies, lid)
                &&& b.ice_servers == a.ice_servers
            } else {
                b == a
            }
        }),
{
    let b = a.step(OpView::IntroducePlayer { pid, lid, player_meta: meta }, now);
    if a.has_lobby(lid) {
        let l = a.lobby(lid);
        let player = PlayerView { lid, meta, queue: seq![] };
        let arrived = a.with_player(pid, player);
        let settled = arrived.mastered(lid);
        let news = ServerMessageView::Joined { pid, meta };
        assoc::lemma_put_value(a.players, pid, player);
        effects::lemma_rules(arrived, lid);
        let at = assoc::place(arrived.players, pid);
        assert(arrived.players[at] == (pid, player));
        assert forall|i: int| 0 <= i < arrived.players.len() implies (#[trigger] arrived.players[
            i
        ]).0 == b.players[i].0 && arrived.players[i].1.lid == b.players[i].1.lid by {}
        assoc::lemma_same_keys(arrived.players, b.players);
        assert(assoc::has(b.players, pid) <==> assoc::has(arrived.players, pid));
        assert(arrived.master_of(lid) is Some) by {
            if arrived.master_of(lid) is None {
                assert(arrived.players[at].1.lid != lid);
            }
        }
        let master = arrived.master_of(lid)->0;
        assert(b.lobbies == settled.lobbies);
        assert(b.lobby(lid).master == master);
        if !(l.master == pid || a.has_player(l.master)) {
            assert(!arrived.has_player(l.master));
            assert(effects::first_of(arrived.players, lid, master));
            let i = choose|i: int|
                0 <= i < arrived.players.len() && (#[trigger] arrived.players[i]).0 == master
                    && arrived.players[i].1.lid == lid && forall|j: int|
                    0 <= j < i ==> (#[trigger] arrived.players[j]).1.lid != lid;
            assert(b.players[i].0 == master && b.players[i].1.lid == lid);
            assert forall|j: int| 0 <= j < i implies (#[trigger] b.players[j]).1.lid != lid by {
                assert(arrived.players[j].1.lid != lid);
            }
            assert(effects::first_of(b.players, lid, master));
        }
        let others = BlasterView::others(arrived.players, lid, pid);
        let mine = a.players.filter(companions(lid, pid));
        lemma_others(a, pid, lid, player);
        assert(others == mine);
        let greeting = BlasterView::greeting(l, others, Some(master), a.ice_servers);
        lemma_greeting(l, others, master, a.ice_servers);
        assert(b.player(pid).queue == greeting);
        assert forall|i: int| 0 <= i < a.players.len() && a.players[i].0 != pid implies (
        #[trigger] b.players[i]).0 == a.players[i].0 && if a.players[i].1.lid == lid {
            effects::got(a.players[i].1, b.players[i].1, news)
        } else {
            b.players[i].1 == a.players[i].1
        } by {
            assert(arrived.players[i] == a.players[i]);
            assert(a.players[i].1.queue.push(news).drop_last() =~= a.players[i].1.queue);
        }
        if a.has_player(pid) {
            assert(a.players[assoc::place(a.players, pid)].0 == pid);
            assert forall|i: int| 0 <= i < a.players.len() implies (#[trigger] b.players[i]).0
                == a.players[i].0 by {
                assert(arrived.players[i].0 == a.players[i].0);
            }
        } else {
            assert forall|i: int| 0 <= i < a.players.len() implies (#[trigger] a.players[i]).0
                != pid by {}
            let before = b.players.drop_last();
            assert forall|i: int| 0 <= i < a.players.len() implies (#[trigger] before[i]).0
                == a.players[i].0 && if a.players[i].1.lid == lid {
                effects::got(a.players[i].1, before[i].1, news)
            } else {
                before[i].1 == a.players[i].1
            } by {
                assert(before[i] == b.players[i]);
                assert(a.players[i].0 != pid);
            }
        }
    }
}

/// Those whom a newcomer finds in the lobby were there before.
proof fn lemma_others(a: BlasterView, pid: BasicId, lid: LobbyKey, player: PlayerView)
    requires
        a.wf(),
    ensures
        BlasterView::others(a.with_player(pid, player).players, lid, pid) == a.players.filter(
            companions(lid, pid),
        ),
{
    let q = model::beside(lid, pid);
    let after = a.with_player(pid, player).players;
    if a.has_player(pid) {
        assert(a.players[assoc::place(a.players, pid)].0 == pid);
        picking::lemma_filter_alike(a.players, after, companions(lid, pid), q);
    } else {
        reveal(Seq::filter);
        assert(after.drop_last() =~= a.players);
        picking::lemma_filter_alike(a.players, a.players, companions(lid, pid), q);
    }
}

/// What a newcomer is told, message by message.
proof fn lemma_greeting(
    lobby: LobbyView,
    others: Players,
    master: BasicId,
    ice_servers: Seq<Seq<char>>,
)
    ensures
        greeted(
            BlasterView::greeting(lobby, others, Some(master), ice_servers),
            lobby,
            others,
            master,
            ice_servers,
        ),
{
    let greeting = BlasterView::greeting(lobby, others, Some(master), ice_servers);
    let fields = lobby.meta.map_values(|f: (Seq<char>, Seq<char>)| model::field_msg(f));
    let people = others.map_values(|e: (BasicId, PlayerView)| model::joined_msg(e));
    let first = model::settings(lobby);
    assert(first.len() == 2);
    assert((first + fields).len() == 2 + fields.len());
    assert forall|i: int| 0 <= i < fields.len() implies #[trigger] greeting[i + 2] == (
    ServerMessageView::SetLobbyMeta { key: lobby.meta[i].0, value: lobby.meta[i].1 }) by {
        assert(greeting[i + 2] == fields[i]);
    }
    assert forall|j: int| 0 <= j < people.len() implies #[trigger] greeting[fields.len() + 2 + j]
        == (ServerMessageView::Joined { pid: others[j].0, meta: others[j].1.meta }) by {
        assert(greeting[fields.len() + 2 + j] == people[j]);
    }
}

/// A newcomer is told each field of the lobby, by name and value, before being connected.
pub proof fn law_newcomer_is_told_each_field(
    a: BlasterView,
    pid: BasicId,
    lid: LobbyKey,
    meta: MetadataView,
    now: Moment,
    key: Seq<char>,
) -> (at: (int, int))
    requires
        a.wf(),
        a.has_lobby(lid),
        assoc::has(a.lobby(lid).meta, key),
    ensures
        ({
            let queue = a.step(
                OpView::IntroducePlayer { pid, lid, player_meta: meta },
                now,
            ).player(pid).queue;
            &&& 0 <= at.0 < at.1 < queue.len()
            &&& queue[at.0] == (ServerMessageView::SetLobbyMeta {
                key,
                value: assoc::value(a.lobby(lid).meta, key),
            })
            &&& queue[at.1] is Connected
        }),
{
    law_entering(a, pid, lid, meta, now);
    let b = a.step(OpView::IntroducePlayer { pid, lid, player_meta: meta }, now);
    let fields = a.lobby(lid).meta;
    let i = assoc::place(fields, key);
    assert(fields[i].0 == key);
    assert(b.player(pid).queue[i + 2] is SetLobbyMeta);
    (i + 2, b.player(pid).queue.len() - 1)
}

/// When a player leaves a lobby, they are gone; each of the others in the lobby is told who has left
/// and why, and then who the master is; the lobby's master is who holds the post, if that is
/// somebody else who is around, and else who has been in the lobby the longest, if anybody is in it;
/// and nothing else changes.
pub proof fn law_leaving(
    a: BlasterView,
    lid: LobbyKey,
    pid: BasicId,
    reason: Option<KickView>,
    now: Moment,
    left: Players,
)
    requires
        a.wf(),
        a.has_lobby(lid),
        stay(a.players, pid, left),
    ensures
        ({
            let b = a.step(OpView::RemovePlayer { lid, pid, reason }, now);
            let l = a.lobby(lid);
            let master = b.lobby(lid).master;
            &&& !b.has_player(pid)
            &&& b.players.len() == left.len()
            &&& forall|i: int|
                0 <= i < left.len() ==> (#[trigger] b.players[i]).0 == left[i].0 && b.players[i].1
                    == if left[i].1.lid == lid {
                    PlayerView {
                        queue: left[i].1.queue.push(
                            ServerMessageView::Left { pid, reason },
                        ).push(ServerMessageView::SetMaster { pid: master }),
                        ..left[i].1
                    }
                } else {
                    left[i].1
                }
            &&& b.has_lobby(lid)
            &&& b.lobby(lid) == (LobbyView { master, ..l })
            &&& if l.master != pid && a.has_player(l.master) {
                master == l.master
            } else if exists|i: int| 0 <= i < left.len() && (#[trigger] left[i]).1.lid == lid {
                effects::first_of(left, lid, master)
            } else {
                master == l.master
            }
            &&& effects::other_lobbies_kept(a.lobbies, b.lobbies, lid)
            &&& b.ice_servers == a.ice_servers
        }),
{
    let b = a.step(OpView::RemovePlayer { lid, pid, reason }, now);
    let l = a.lobby(lid);
    let news = ServerMessageView::Left { pid, reason };
    lemma_stay(a.players, pid, left);
    assoc::lemma_without_value(a.players, pid);
    let gone = BlasterView { players: left, ..a };
    let told = gone.telling(lid, news);
    assert forall|i: int| 0 <= i < left.len() implies (#[trigger] left[i]).0 == told.players[i].0
        && left[i].1.lid == told.players[i].1.lid by {}
    assoc::lemma_same_keys(left, told.players);
    assert(assoc::has(told.players, pid) <==> assoc::has(left, pid));
    assert(assoc::has(told.players, l.master) <==> assoc::has(left, l.master));
    effects::lemma_rules(told, lid);
    let who = told.master_of(lid);
    if let Some(master) = who {
        assoc::lemma_same_keys(told.players, b.players);
        assert(assoc::has(b.players, pid) <==> assoc::has(told.players, pid));
        assert(b.lobbies == told.mastered(lid).lobbies);
    } else {
        assert(b == told);
        assert forall|i: int| 0 <= i < left.len() implies (#[trigger] left[i]).1.lid != lid by {
            assert(told.players[i].1.lid != lid);
        }
        assert(LobbyView { master: l.master, ..l } == l);
    }
    if !(l.master != pid && a.has_player(l.master)) {
        assert(!told.has_player(l.master));
        if let Some(master) = who {
            let i = choose|i: int|
                0 <= i < told.players.len() && (#[trigger] told.players[i]).0 == master
                    && told.players[i].1.lid == lid && forall|j: int|
                    0 <= j < i ==> (#[trigger] told.players[j]).1.lid != lid;
            assert(left[i].0 == master && left[i].1.lid == lid);
            assert forall|j: int| 0 <= j < i implies (#[trigger] left[j]).1.lid != lid by {
                assert(told.players[j].1.lid != lid);
            }
            assert(effects::first_of(left, lid, master));
        }
    }
}

/// `left` is who stays when the player goes, if they were there.
pub open spec fn stay(players: Players, pid: BasicId, left: Players) -> bool {
    if assoc::has(players, pid) {
        exists|at: int|
            0 <= at < players.len() && (#[trigger] players[at]).0 == pid && left == players.remove(
                at,
            )
    } else {
        left == players
    }
}

/// Who stays when a player goes is who is left when they are taken out.
proof fn lemma_stay(players: Players, pid: BasicId, left: Players)
    requires
        assoc::keyed(players),
        stay(players, pid, left),
    ensures
        left == assoc::without(players, pid),
{
    if assoc::has(players, pid) {
        let at = choose|at: int|
            0 <= at < players.len() && (#[trigger] players[at]).0 == pid && left == players.remove(
                at,
            );
        assoc::lemma_place(players, at);
    }
}

/// When a player leaves a lobby that is not there, they are gone, whoever counts as being in it is
/// told who has left and why, and nothing else changes.
pub proof fn law_leaving_no_lobby(
    a: BlasterView,
    lid: LobbyKey,
    pid: BasicId,
    reason: Option<KickView>,
    now: Moment,
    left: Players,
)
    requires
        a.wf(),
        !a.has_lobby(lid),
        stay(a.players, pid, left),
    ensures
        ({
            let b = a.step(OpView::RemovePlayer { lid, pid, reason }, now);
            &&& effects::news(left, b.players, lid, ServerMessageView::Left { pid, reason })
            &&& b.lobbies == a.lobbies
            &&& b.ice_servers == a.ice_servers
        }),
{
    lemma_stay(a.players, pid, left);
    effects::lemma_news(left, lid, ServerMessageView::Left { pid, reason });
}

} // verus!
