//! What the event-loop server holds makes sense, whatever it is asked to do.

use crate::assoc;
use crate::blaster::eventloop::CHUD_THRESHOLD;
use crate::blaster::model;
use crate::blaster::model::{
    Index, Lobbies, LobbyView, LoopView, OpView, PeerView, PlayerView, Players,
};
use crate::blaster::payloads::ServerMessageView;
use crate::clock::Moment;
use crate::id;
use crate::id::{BasicId, IpAddr, LobbyKey};
use crate::protocol::aux::MetadataView;
use crate::protocol::payloads;
use crate::protocol::payloads::KickView;
use crate::tokens::BucketView;
use vstd::prelude::*;

verus! {

/// Somebody is in the lobby, the master is one of them, and the lobby counts as idle exactly while
/// too few are there.
pub open spec fn alive(lobby: LobbyView) -> bool {
    &&& lobby.players.len() > 0
    &&& lobby.players.contains(lobby.master)
    &&& (lobby.idle_since is Some <==> lobby.players.len() < CHUD_THRESHOLD)
}

/// Each player is in one lobby, which knows of them, and each lobby knows of its players alone.
pub open spec fn homed(lobbies: Lobbies, players: Players) -> bool {
    &&& forall|pid: BasicId| #[trigger]
        assoc::has(players, pid) ==> assoc::has(lobbies, assoc::value(players, pid).lid)
            && assoc::value(lobbies, assoc::value(players, pid).lid).players.contains(pid)
    &&& forall|lid: LobbyKey, pid: BasicId|
        assoc::has(lobbies, lid) && #[trigger] assoc::value(lobbies, lid).players.contains(pid)
            ==> assoc::has(players, pid) && assoc::value(players, pid).lid == lid
}

/// Whether the index knows of the lobby.
pub open spec fn in_index(index: Index, lid: LobbyKey) -> bool {
    assoc::has(index, lid.gid) && assoc::value(index, lid.gid).contains(lid.lid)
}

/// Each game in the index has a lobby.
pub open spec fn tidy(index: Index) -> bool {
    forall|gid: Seq<char>| #[trigger]
        assoc::has(index, gid) ==> assoc::value(index, gid).len() > 0
}

impl LoopView {
    /// Lobbies, players and the index agree with each other.
    pub open spec fn orderly(self) -> bool {
        &&& homed(self.lobbies, self.players)
        &&& tidy(self.gid_lobbies)
        &&& forall|lid: LobbyKey| #[trigger] self.has_lobby(lid) <==> in_index(self.gid_lobbies, lid)
        &&& forall|lid: LobbyKey| #[trigger] self.has_lobby(lid) ==> alive(self.lobby(lid))
    }

    /// What the server holds makes sense.
    pub open spec fn consistent(self) -> bool {
        self.named() && self.orderly()
    }

    /// What the server holds makes sense, but for lobbies that nobody is in.
    spec fn almost_consistent(self) -> bool {
        &&& self.named()
        &&& homed(self.lobbies, self.players)
        &&& tidy(self.gid_lobbies)
        &&& forall|lid: LobbyKey| #[trigger] self.has_lobby(lid) <==> in_index(self.gid_lobbies, lid)
        &&& forall|lid: LobbyKey| #[trigger]
            self.has_lobby(lid) ==> self.lobby(lid).players.len() == 0 || alive(self.lobby(lid))
    }
}

/// `b` differs from `a` in nothing that [`LoopView::orderly`] is about.
spec fn same_shape(a: LoopView, b: LoopView) -> bool {
    &&& b.gid_lobbies == a.gid_lobbies
    &&& b.peers == a.peers
    &&& b.lobbies.len() == a.lobbies.len()
    &&& b.players.len() == a.players.len()
    &&& forall|i: int|
        0 <= i < a.lobbies.len() ==> {
            let old = (#[trigger] a.lobbies[i]);
            let new = b.lobbies[i];
            &&& new.0 == old.0
            &&& new.1.players == old.1.players
            &&& new.1.players.len() == 0 || alive(new.1)
            &&& assoc::keyed(new.1.metadata)
        }
    &&& forall|i: int|
        0 <= i < a.players.len() ==> {
            let old = (#[trigger] a.players[i]);
            let new = b.players[i];
            &&& new.0 == old.0
            &&& new.1.lid == old.1.lid
            &&& assoc::keyed(new.1.metadata)
        }
}

proof fn lemma_same_shape(a: LoopView, b: LoopView)
    requires
        a.almost_consistent(),
        same_shape(a, b),
    ensures
        b.almost_consistent(),
        a.consistent() ==> b.consistent(),
{
    assoc::lemma_same_keys(a.lobbies, b.lobbies);
    assoc::lemma_same_keys(a.players, b.players);
    assert forall|i: int| 0 <= i < b.lobbies.len() implies assoc::keyed(
        (#[trigger] b.lobbies[i]).1.metadata,
    ) && b.lobbies[i].1.players.no_duplicates() by {
        assert(a.lobbies[i].0 == b.lobbies[i].0);
    }
    assert forall|i: int| 0 <= i < b.players.len() implies assoc::keyed(
        (#[trigger] b.players[i]).1.metadata,
    ) by {
        assert(a.players[i].0 == b.players[i].0);
    }
    assert forall|lid: LobbyKey| #[trigger] a.has_lobby(lid) implies b.lobby(lid).players == a.lobby(
        lid,
    ).players && (a.lobby(lid).players.len() == 0 || alive(b.lobby(lid))) by {
        let i = assoc::place(a.lobbies, lid);
        assert(assoc::place(b.lobbies, lid) == i);
        assert(a.lobbies[i].0 == lid);
    }
    assert forall|pid: BasicId| #[trigger] a.has_player(pid) implies b.player(pid).lid == a.player(
        pid,
    ).lid by {
        let i = assoc::place(a.players, pid);
        assert(assoc::place(b.players, pid) == i);
        assert(a.players[i].0 == pid);
    }
    assert forall|lid: LobbyKey| #[trigger] b.has_lobby(lid) implies b.lobby(lid).players.len() == 0
        || alive(b.lobby(lid)) by {
        assert(a.has_lobby(lid));
    }
    if a.consistent() {
        assert forall|lid: LobbyKey| #[trigger] b.has_lobby(lid) implies alive(b.lobby(lid)) by {
            assert(a.has_lobby(lid));
        }
    }
    assert forall|lid: LobbyKey| #[trigger] b.has_lobby(lid) <==> in_index(b.gid_lobbies, lid) by {
        assert(a.has_lobby(lid) <==> in_index(a.gid_lobbies, lid));
    }
    assert(homed(b.lobbies, b.players)) by {
        assert forall|pid: BasicId| #[trigger] assoc::has(b.players, pid) implies assoc::has(
            b.lobbies,
            assoc::value(b.players, pid).lid,
        ) && assoc::value(b.lobbies, assoc::value(b.players, pid).lid).players.contains(pid) by {
            assert(a.has_player(pid));
            assert(a.has_lobby(a.player(pid).lid));
        }
        assert forall|lid: LobbyKey, pid: BasicId|
            assoc::has(b.lobbies, lid) && #[trigger] assoc::value(
                b.lobbies,
                lid,
            ).players.contains(pid) implies assoc::has(b.players, pid) && assoc::value(
            b.players,
            pid,
        ).lid == lid by {
            assert(a.has_lobby(lid));
            assert(assoc::value(a.lobbies, lid).players.contains(pid));
            assert(a.has_player(pid));
        }
    }
}

/// Each lobby that somebody is in is alive.
proof fn lemma_lobbies_alive(a: LoopView)
    requires
        a.almost_consistent(),
    ensures
        forall|i: int|
            0 <= i < a.lobbies.len() ==> (#[trigger] a.lobbies[i]).1.players.len() == 0 || alive(
                a.lobbies[i].1,
            ),
{
    assert forall|i: int| 0 <= i < a.lobbies.len() implies (#[trigger] a.lobbies[
        i
    ]).1.players.len() == 0 || alive(a.lobbies[i].1) by {
        assoc::lemma_place(a.lobbies, i);
        assert(a.has_lobby(a.lobbies[i].0));
    }
}

/// A lobby whose settings change stays a lobby.
proof fn lemma_with_lobby(a: LoopView, lid: LobbyKey, lobby: LobbyView)
    requires
        a.consistent(),
        a.has_lobby(lid),
        lobby.players == a.lobby(lid).players,
        lobby.idle_since == a.lobby(lid).idle_since,
        lobby.players.contains(lobby.master),
        assoc::keyed(lobby.metadata),
    ensures
        a.with_lobby(lid, lobby).consistent(),
{
    let b = a.with_lobby(lid, lobby);
    lemma_lobbies_alive(a);
    assert(same_shape(a, b));
    lemma_same_shape(a, b);
}

/// A player who changes in other ways than by lobby stays a player.
proof fn lemma_with_player(a: LoopView, pid: BasicId, player: PlayerView)
    requires
        a.consistent(),
        a.has_player(pid),
        player.lid == a.player(pid).lid,
        assoc::keyed(player.metadata),
    ensures
        a.with_player(pid, player).consistent(),
{
    let b = a.with_player(pid, player);
    lemma_lobbies_alive(a);
    assert(same_shape(a, b));
    lemma_same_shape(a, b);
}

/// Telling a lobby something changes no more than that.
proof fn lemma_telling(a: LoopView, lid: LobbyKey, msg: ServerMessageView)
    requires
        a.almost_consistent(),
    ensures
        a.telling(lid, msg).almost_consistent(),
        a.consistent() ==> a.telling(lid, msg).consistent(),
{
    let b = a.telling(lid, msg);
    lemma_lobbies_alive(a);
    assert(same_shape(a, b));
    lemma_same_shape(a, b);
}

/// Sending a player something changes no more than that.
proof fn lemma_sending(a: LoopView, pid: BasicId, msg: ServerMessageView)
    requires
        a.consistent(),
    ensures
        a.sending(pid, msg).consistent(),
{
    if a.has_player(pid) {
        assert(a.players[assoc::place(a.players, pid)].0 == pid);
        lemma_with_player(a, pid, a.player(pid).posted(msg));
    } else {
        assert(a.sending(pid, msg) == a);
    }
}

/// Asking an address's budget changes no more than that.
proof fn lemma_cap_ip(a: LoopView, ip: IpAddr, now: Moment)
    requires
        a.consistent(),
    ensures
        a.cap_ip(ip, now).consistent(),
        a.cap_ip(ip, now).lobbies == a.lobbies,
        a.cap_ip(ip, now).players == a.players,
        a.cap_ip(ip, now).gid_lobbies == a.gid_lobbies,
        a.cap_ip(ip, now).ice_servers == a.ice_servers,
{
    if a.has_peer(ip) {
        assoc::lemma_put_value(a.peers, ip, a.peer(ip).asked(now));
        lemma_peers(a, a.cap_ip(ip, now));
    }
}

/// A server that keeps its lobbies and players, and whose addresses occur once, makes sense.
proof fn lemma_peers(a: LoopView, b: LoopView)
    requires
        a.consistent(),
        assoc::keyed(b.peers),
        b == (LoopView { peers: b.peers, ..a }),
    ensures
        b.consistent(),
{
    assert forall|lid: LobbyKey| #[trigger] b.has_lobby(lid) <==> a.has_lobby(lid) by {}
}

proof fn lemma_introduce_session(a: LoopView, ip: IpAddr, now: Moment)
    requires
        a.consistent(),
    ensures
        a.introduce_session(ip, now).consistent(),
{
    assoc::lemma_put_value(a.peers, ip, a.peer(ip).opened());
    assoc::lemma_put_value(a.peers, ip, PeerView::fresh(now));
    lemma_peers(a, a.introduce_session(ip, now));
}

proof fn lemma_close_session(a: LoopView, ip: IpAddr, now: Moment)
    requires
        a.consistent(),
    ensures
        a.close_session(ip, now).consistent(),
{
    assoc::lemma_put_value(a.peers, ip, a.peer(ip).closed(now));
    lemma_peers(a, a.close_session(ip, now));
}

/// `b` holds the players of `a`, to whom messages may have been sent.
spec fn same_people(a: Players, b: Players) -> bool {
    &&& b.len() == a.len()
    &&& forall|i: int|
        0 <= i < a.len() ==> {
            let old = (#[trigger] a[i]);
            &&& b[i] == (old.0, PlayerView { outbox: b[i].1.outbox, ..old.1 })
        }
}

proof fn lemma_people_sent(a: Players, b: Players, pid: BasicId, msg: ServerMessageView)
    requires
        same_people(a, b),
    ensures
        same_people(a, model::sent(b, pid, msg)),
{
    if assoc::has(b, pid) {
        let k = assoc::place(b, pid);
        assert(b[k].0 == pid);
        assert forall|i: int| 0 <= i < a.len() implies ({
            let old = (#[trigger] a[i]);
            let new = model::sent(b, pid, msg)[i];
            new == (old.0, PlayerView { outbox: new.1.outbox, ..old.1 })
        }) by {
            assert(a[i].0 == b[i].0);
        }
    }
}

proof fn lemma_people_sent_all(
    a: Players,
    b: Players,
    ids: Seq<BasicId>,
    msg: ServerMessageView,
)
    requires
        same_people(a, b),
    ensures
        same_people(a, model::sent_all(b, ids, msg)),
    decreases ids.len(),
{
    if ids.len() > 0 {
        lemma_people_sent_all(a, b, ids.drop_last(), msg);
        lemma_people_sent(a, model::sent_all(b, ids.drop_last(), msg), ids.last(), msg);
    }
}

proof fn lemma_people_evicted(a: Players, lobbies: Lobbies, now: Moment)
    ensures
        same_people(a, model::evicted(a, lobbies, now)),
    decreases lobbies.len(),
{
    if lobbies.len() > 0 {
        lemma_people_evicted(a, lobbies.drop_last(), now);
        lemma_people_sent_all(
            a,
            model::evicted(a, lobbies.drop_last(), now),
            lobbies.last().1.players,
            model::idle_msg(),
        );
    }
}

proof fn lemma_people_met(
    a: Players,
    others: Seq<BasicId>,
    pid: BasicId,
    newcomer: ServerMessageView,
)
    ensures
        same_people(a, model::met(a, others, pid, newcomer)),
    decreases others.len(),
{
    if others.len() > 0 {
        let earlier = model::met(a, others.drop_last(), pid, newcomer);
        let other = others.last();
        lemma_people_met(a, others.drop_last(), pid, newcomer);
        let news = model::joined_msg(other, assoc::value(earlier, other));
        lemma_people_sent(a, earlier, pid, news);
        let shown = if assoc::has(earlier, other) {
            model::sent(earlier, pid, news)
        } else {
            earlier
        };
        lemma_people_sent(a, shown, other, newcomer);
    }
}

/// Messages alone put nothing out of order.
proof fn lemma_people(a: LoopView, b: LoopView)
    requires
        a.consistent(),
        b == (LoopView { players: b.players, ..a }),
        same_people(a.players, b.players),
    ensures
        b.consistent(),
{
    lemma_lobbies_alive(a);
    assert(same_shape(a, b));
    lemma_same_shape(a, b);
}

proof fn lemma_prune(a: LoopView, now: Moment)
    requires
        a.consistent(),
    ensures
        a.prune(now).consistent(),
{
    let told = LoopView { players: model::evicted(a.players, a.lobbies, now), ..a };
    lemma_people_evicted(a.players, a.lobbies, now);
    lemma_people(a, told);
    assoc::lemma_filter_value(a.peers, model::remembered(now));
    lemma_peers(told, a.prune(now));
}

/// Somebody whose number is not taken comes into a lobby.
proof fn lemma_enter(
    a: LoopView,
    lid: LobbyKey,
    pid: BasicId,
    metadata: MetadataView,
    now: Moment,
)
    requires
        a.almost_consistent(),
        a.has_lobby(lid),
        !a.has_player(pid),
        assoc::keyed(metadata),
        a.lobby(lid).players.len() == 0 ==> a.lobby(lid).master == pid && a.lobby(
            lid,
        ).idle_since is Some,
        forall|q: LobbyKey| q != lid && #[trigger] a.has_lobby(q) ==> alive(a.lobby(q)),
    ensures
        a.insert_player(pid, lid, metadata, now).consistent(),
{
    let l = a.lobby(lid);
    let entered = l.entered(pid);
    let b = a.insert_player(pid, lid, metadata, now);
    let birth = l.age(now);
    let player = PlayerView {
        lid,
        metadata,
        outbox: model::welcome(l, a.ice_servers, lid.lid, pid, birth),
        birth,
        metadata_budget: BucketView::fresh_metadata("player_metadata"@, now),
    };
    let c = a.with_lobby(lid, entered).with_player(pid, player);
    assert(!l.players.contains(pid)) by {
        if l.players.contains(pid) {
            assert(assoc::value(a.lobbies, lid).players.contains(pid));
        }
    }
    assert(entered.players == l.players.push(pid));
    assert(entered.players[l.players.len() as int] == pid);
    assoc::lemma_put_value(a.lobbies, lid, entered);
    assoc::lemma_put_value(a.players, pid, player);
    let at = assoc::place(a.lobbies, lid);
    assert(a.lobbies[at].0 == lid);
    assert forall|q: BasicId| l.players.contains(q) implies #[trigger] entered.players.contains(
        q,
    ) by {
        let k = choose|k: int| 0 <= k < l.players.len() && l.players[k] == q;
        assert(entered.players[k] == q);
    }
    assert forall|q: BasicId| #[trigger] entered.players.contains(q) implies q == pid
        || l.players.contains(q) by {}
    assert(alive(entered)) by {
        assert(entered.players.contains(pid));
    }
    assert(homed(c.lobbies, c.players)) by {
        assert forall|q: BasicId| #[trigger] assoc::has(c.players, q) implies assoc::has(
            c.lobbies,
            assoc::value(c.players, q).lid,
        ) && assoc::value(c.lobbies, assoc::value(c.players, q).lid).players.contains(q) by {
            if q != pid {
                assert(assoc::has(a.players, q));
                let home = assoc::value(a.players, q).lid;
                assert(assoc::value(c.players, q).lid == home);
                assert(assoc::has(c.lobbies, home));
                if home == lid {
                    assert(l.players.contains(q));
                }
            }
        }
        assert forall|k: LobbyKey, q: BasicId|
            assoc::has(c.lobbies, k) && #[trigger] assoc::value(c.lobbies, k).players.contains(
                q,
            ) implies assoc::has(c.players, q) && assoc::value(c.players, q).lid == k by {
            if k == lid {
                if q != pid {
                    assert(assoc::value(a.lobbies, lid).players.contains(q));
                    assert(assoc::has(c.players, q));
                }
            } else {
                assert(assoc::has(a.lobbies, k));
                assert(assoc::value(a.lobbies, k).players.contains(q));
                assert(q != pid);
                assert(assoc::has(c.players, q));
            }
        }
    }
    assert forall|k: LobbyKey| #[trigger] c.has_lobby(k) <==> in_index(c.gid_lobbies, k) by {
        assert(a.has_lobby(k) <==> in_index(a.gid_lobbies, k));
    }
    assert forall|k: LobbyKey| #[trigger] c.has_lobby(k) implies alive(c.lobby(k)) by {
        if k != lid {
            assert(a.has_lobby(k));
        }
    }
    id::lemma_with_id(l.players, pid);
    assert(c.consistent());
    lemma_people_met(c.players, l.players, pid, model::joined_msg(pid, player));
    lemma_people(c, b);
}

/// A lobby whose name is not taken is opened.
proof fn lemma_open(a: LoopView, lid: LobbyKey, lobby: LobbyView)
    requires
        a.consistent(),
        !a.has_lobby(lid),
        lobby.players.len() == 0,
        assoc::keyed(lobby.metadata),
    ensures
        a.open_lobby(lid, lobby).almost_consistent(),
        a.open_lobby(lid, lobby).has_lobby(lid),
        a.open_lobby(lid, lobby).lobby(lid) == lobby,
        forall|q: LobbyKey|
            q != lid && #[trigger] a.open_lobby(lid, lobby).has_lobby(q) ==> alive(
                a.open_lobby(lid, lobby).lobby(q),
            ),
{
    let b = a.open_lobby(lid, lobby);
    let ids = a.lobbies_of(lid.gid);
    let more = id::with_id(ids, lid.lid);
    assoc::lemma_put_value(a.lobbies, lid, lobby);
    assoc::lemma_put_value(a.gid_lobbies, lid.gid, more);
    assert(!in_index(a.gid_lobbies, lid));
    assert(!ids.contains(lid.lid));
    assert(ids.no_duplicates());
    id::lemma_with_id(ids, lid.lid);
    assert(more == ids.push(lid.lid));
    assert(more[ids.len() as int] == lid.lid);
    assert forall|q: LobbyKey| #[trigger] b.has_lobby(q) <==> in_index(b.gid_lobbies, q) by {
        assert(a.has_lobby(q) <==> in_index(a.gid_lobbies, q));
        if q.gid == lid.gid {
            if q.lid == lid.lid {
                assert(q == lid);
                assert(more.contains(lid.lid));
            } else {
                if ids.contains(q.lid) {
                    let k = choose|k: int| 0 <= k < ids.len() && ids[k] == q.lid;
                    assert(more[k] == q.lid);
                }
                assert(more.contains(q.lid) <==> ids.contains(q.lid));
                assert(ids.contains(q.lid) <==> in_index(a.gid_lobbies, q));
            }
        }
    }
    assert(tidy(b.gid_lobbies)) by {
        assert forall|gid: Seq<char>| #[trigger] assoc::has(b.gid_lobbies, gid) implies assoc::value(
            b.gid_lobbies,
            gid,
        ).len() > 0 by {
            if gid != lid.gid {
                assert(assoc::has(a.gid_lobbies, gid));
            }
        }
    }
    assert(homed(b.lobbies, b.players)) by {
        assert forall|q: BasicId| #[trigger] assoc::has(b.players, q) implies assoc::has(
            b.lobbies,
            assoc::value(b.players, q).lid,
        ) && assoc::value(b.lobbies, assoc::value(b.players, q).lid).players.contains(q) by {
            let home = assoc::value(a.players, q).lid;
            assert(assoc::has(a.lobbies, home));
            assert(home != lid);
            assert(assoc::has(b.lobbies, home));
        }
        assert forall|k: LobbyKey, q: BasicId|
            assoc::has(b.lobbies, k) && #[trigger] assoc::value(b.lobbies, k).players.contains(
                q,
            ) implies assoc::has(b.players, q) && assoc::value(b.players, q).lid == k by {
            assert(k != lid);
            assert(assoc::has(a.lobbies, k));
            assert(assoc::value(a.lobbies, k).players.contains(q));
        }
    }
    assert forall|q: LobbyKey| q != lid && #[trigger] b.has_lobby(q) implies alive(b.lobby(q)) by {
        assert(a.has_lobby(q));
    }
}

/// What taking a lobby out of the index does to the index.
proof fn lemma_unindexed(index: Index, lid: LobbyKey)
    requires
        assoc::keyed(index),
        model::listed_once(index),
        tidy(index),
    ensures
        assoc::keyed(model::unindexed(index, lid)),
        model::listed_once(model::unindexed(index, lid)),
        tidy(model::unindexed(index, lid)),
        forall|k: LobbyKey| #[trigger]
            in_index(model::unindexed(index, lid), k) <==> in_index(index, k) && k != lid,
{
    let after = model::unindexed(index, lid);
    if assoc::has(index, lid.gid) {
        let all = assoc::value(index, lid.gid);
        let ids = id::without_id(all, lid.lid);
        id::lemma_without_id(all, lid.lid);
        assoc::lemma_without_value(index, lid.gid);
        assoc::lemma_put_value(index, lid.gid, ids);
        assert forall|gid: Seq<char>| #[trigger] assoc::has(after, gid) implies assoc::value(
            after,
            gid,
        ).len() > 0 by {
            if gid != lid.gid {
                assert(assoc::has(index, gid));
            }
        }
        assert forall|k: LobbyKey| #[trigger] in_index(after, k) <==> in_index(index, k) && k
            != lid by {
            if k.gid == lid.gid {
                assert(ids.contains(k.lid) <==> all.contains(k.lid) && k.lid != lid.lid);
                if ids.len() == 0 {
                    assert(!ids.contains(k.lid));
                }
            } else {
                assert(assoc::has(after, k.gid) <==> assoc::has(index, k.gid));
            }
        }
    }
}

/// What sweeping the index does to it.
proof fn lemma_swept(index: Index, lobbies: Lobbies)
    requires
        assoc::keyed(index),
        model::listed_once(index),
        tidy(index),
    ensures
        assoc::keyed(model::swept(index, lobbies)),
        model::listed_once(model::swept(index, lobbies)),
        tidy(model::swept(index, lobbies)),
        forall|k: LobbyKey| #[trigger]
            in_index(model::swept(index, lobbies), k) <==> in_index(index, k) && forall|i: int|
                0 <= i < lobbies.len() && (#[trigger] lobbies[i]).0 == k
                    ==> lobbies[i].1.players.len() > 0,
    decreases lobbies.len(),
{
    if lobbies.len() > 0 {
        let shorter = lobbies.drop_last();
        let last = lobbies.last();
        lemma_swept(index, shorter);
        let earlier = model::swept(index, shorter);
        lemma_unindexed(earlier, last.0);
        let after = model::swept(index, lobbies);
        assert forall|k: LobbyKey| #[trigger] in_index(after, k) <==> in_index(index, k) && forall|
            i: int,
        |
            0 <= i < lobbies.len() && (#[trigger] lobbies[i]).0 == k
                ==> lobbies[i].1.players.len() > 0 by {
            assert(in_index(earlier, k) <==> in_index(index, k) && forall|i: int|
                0 <= i < shorter.len() && (#[trigger] shorter[i]).0 == k
                    ==> shorter[i].1.players.len() > 0);
            assert(lobbies[lobbies.len() - 1] == last);
            if in_index(after, k) {
                assert forall|i: int|
                    0 <= i < lobbies.len() && (#[trigger] lobbies[i]).0 == k implies lobbies[
                i
                ].1.players.len() > 0 by {
                    if i < shorter.len() {
                        assert(shorter[i] == lobbies[i]);
                    }
                }
            }
            if in_index(index, k) && (forall|i: int|
                0 <= i < lobbies.len() && (#[trigger] lobbies[i]).0 == k
                    ==> lobbies[i].1.players.len() > 0) {
                assert forall|i: int|
                    0 <= i < shorter.len() && (#[trigger] shorter[i]).0 == k implies shorter[
                i
                ].1.players.len() > 0 by {
                    assert(shorter[i] == lobbies[i]);
                }
            }
        }
    }
}

/// Dropping the lobbies that nobody is in leaves everything in order.
proof fn lemma_cleanup(a: LoopView)
    requires
        a.almost_consistent(),
    ensures
        a.cleanup_lobbies().consistent(),
{
    let b = a.cleanup_lobbies();
    let p = model::inhabited();
    assoc::lemma_filter_value(a.lobbies, p);
    lemma_swept(a.gid_lobbies, a.lobbies);
    assert forall|k: LobbyKey| #[trigger] b.has_lobby(k) <==> in_index(b.gid_lobbies, k) by {
        assert(a.has_lobby(k) <==> in_index(a.gid_lobbies, k));
        if a.has_lobby(k) {
            let at = assoc::place(a.lobbies, k);
            assert(a.lobbies[at] == (k, a.lobby(k)));
            assert forall|i: int| 0 <= i < a.lobbies.len() && (#[trigger] a.lobbies[i]).0
                == k implies i == at by {
                assoc::lemma_place(a.lobbies, i);
            }
        }
    }
    assert forall|k: LobbyKey| #[trigger] b.has_lobby(k) implies alive(b.lobby(k)) by {
        assert(a.has_lobby(k));
        assert(b.lobby(k) == a.lobby(k));
    }
    assert(homed(b.lobbies, b.players)) by {
        assert forall|q: BasicId| #[trigger] assoc::has(b.players, q) implies assoc::has(
            b.lobbies,
            assoc::value(b.players, q).lid,
        ) && assoc::value(b.lobbies, assoc::value(b.players, q).lid).players.contains(q) by {
            let home = assoc::value(a.players, q).lid;
            assert(assoc::has(a.lobbies, home));
            assert(assoc::value(a.lobbies, home).players.contains(q));
            assert(assoc::has(b.lobbies, home));
        }
        assert forall|k: LobbyKey, q: BasicId|
            assoc::has(b.lobbies, k) && #[trigger] assoc::value(b.lobbies, k).players.contains(
                q,
            ) implies assoc::has(b.players, q) && assoc::value(b.players, q).lid == k by {
            assert(assoc::has(a.lobbies, k));
            assert(assoc::value(a.lobbies, k).players.contains(q));
        }
    }
    assert forall|i: int| 0 <= i < b.lobbies.len() implies assoc::keyed(
        (#[trigger] b.lobbies[i]).1.metadata,
    ) && b.lobbies[i].1.players.no_duplicates() by {
        a.lobbies.lemma_filter_contains_rev(p, b.lobbies[i]);
    }
}

/// The server once the player is gone, before anybody has been told.
spec fn departed(a: LoopView, pid: BasicId, now: Moment) -> LoopView {
    let lid = a.player(pid).lid;
    LoopView { players: assoc::without(a.players, pid), ..a }.with_lobby(
        lid,
        a.lobby(lid).left(pid, now),
    )
}

proof fn lemma_depart(a: LoopView, pid: BasicId, now: Moment)
    requires
        a.consistent(),
        a.has_player(pid),
    ensures
        departed(a, pid, now).almost_consistent(),
{
    let lid = a.player(pid).lid;
    let l = a.lobby(lid);
    assert(a.has_lobby(lid));
    let after = l.left(pid, now);
    let c = departed(a, pid, now);
    assert(assoc::value(a.lobbies, lid).players.no_duplicates());
    id::lemma_without_id(l.players, pid);
    assoc::lemma_put_value(a.lobbies, lid, after);
    assoc::lemma_without_value(a.players, pid);
    assert(a.lobbies[assoc::place(a.lobbies, lid)].0 == lid);
    assert(after.players.len() == 0 || alive(after)) by {
        if after.players.len() > 0 {
            assert(after.players.contains(after.players[0]));
        }
    }
    assert(homed(c.lobbies, c.players)) by {
        assert forall|q: BasicId| #[trigger] assoc::has(c.players, q) implies assoc::has(
            c.lobbies,
            assoc::value(c.players, q).lid,
        ) && assoc::value(c.lobbies, assoc::value(c.players, q).lid).players.contains(q) by {
            assert(q != pid);
            assert(assoc::has(a.players, q));
            let home = assoc::value(a.players, q).lid;
            assert(assoc::value(c.players, q) == assoc::value(a.players, q));
            assert(assoc::has(c.lobbies, home));
            assert(assoc::value(a.lobbies, home).players.contains(q));
        }
        assert forall|k: LobbyKey, q: BasicId|
            assoc::has(c.lobbies, k) && #[trigger] assoc::value(c.lobbies, k).players.contains(
                q,
            ) implies assoc::has(c.players, q) && assoc::value(c.players, q).lid == k by {
            assert(assoc::has(a.lobbies, k));
            assert(assoc::value(a.lobbies, k).players.contains(q));
            assert(assoc::has(a.players, q) && assoc::value(a.players, q).lid == k);
            assert(q != pid);
            assert(assoc::has(c.players, q));
        }
    }
    assert forall|k: LobbyKey| #[trigger] c.has_lobby(k) <==> in_index(c.gid_lobbies, k) by {
        assert(a.has_lobby(k) <==> in_index(a.gid_lobbies, k));
    }
    assert forall|k: LobbyKey| #[trigger] c.has_lobby(k) implies c.lobby(k).players.len() == 0
        || alive(c.lobby(k)) by {
        assert(a.has_lobby(k));
    }
    assert forall|i: int| 0 <= i < c.players.len() implies assoc::keyed(
        (#[trigger] c.players[i]).1.metadata,
    ) by {
        let at = assoc::place(a.players, pid);
        assert(c.players[i] == a.players[if i < at {
            i
        } else {
            i + 1
        }]);
    }
}

proof fn lemma_remove(a: LoopView, pid: BasicId, reason: Option<KickView>, now: Moment)
    requires
        a.consistent(),
    ensures
        a.remove_player(pid, reason, now).consistent(),
{
    if a.has_player(pid) {
        let lid = a.player(pid).lid;
        let c = departed(a, pid, now);
        assert(a.has_lobby(lid));
        lemma_depart(a, pid, now);
        let news = ServerMessageView::SetMaster { pid: a.lobby(lid).left(pid, now).master };
        lemma_telling(c, lid, news);
        let passed = if a.lobby(lid).passes_on(pid) {
            c.telling(lid, news)
        } else {
            c
        };
        lemma_telling(passed, lid, ServerMessageView::Left { pid, reason });
        lemma_cleanup(passed.telling(lid, ServerMessageView::Left { pid, reason }));
    }
}

/// Somebody who is in a lobby comes into it once more.
proof fn lemma_reenter(
    a: LoopView,
    lid: LobbyKey,
    pid: BasicId,
    metadata: MetadataView,
    now: Moment,
)
    requires
        a.consistent(),
        a.has_player(pid),
        a.player(pid).lid == lid,
        assoc::keyed(metadata),
    ensures
        a.insert_player(pid, lid, metadata, now).consistent(),
{
    let l = a.lobby(lid);
    assert(a.has_lobby(lid));
    assert(l.players.contains(pid));
    lemma_lobby_of(a, lid);
    let birth = l.age(now);
    let player = PlayerView {
        lid,
        metadata,
        outbox: model::welcome(l, a.ice_servers, lid.lid, pid, birth),
        birth,
        metadata_budget: BucketView::fresh_metadata("player_metadata"@, now),
    };
    let b = a.with_lobby(lid, l.entered(pid));
    lemma_with_lobby(a, lid, l.entered(pid));
    let c = b.with_player(pid, player);
    lemma_with_player(b, pid, player);
    lemma_people_met(c.players, l.players, pid, model::joined_msg(pid, player));
    lemma_people(c, a.insert_player(pid, lid, metadata, now));
}

/// Somebody who is alone in a lobby opens it once more.
proof fn lemma_reopen(
    a: LoopView,
    lid: LobbyKey,
    lobby: LobbyView,
    pid: BasicId,
    metadata: MetadataView,
    now: Moment,
)
    requires
        a.consistent(),
        a.has_lobby(lid),
        a.lobby(lid).players == seq![pid],
        lobby.players == Seq::<BasicId>::empty(),
        lobby.master == pid,
        lobby.idle_since is Some,
        assoc::keyed(lobby.metadata),
        assoc::keyed(metadata),
    ensures
        a.open_lobby(lid, lobby).insert_player(pid, lid, metadata, now).consistent(),
{
    let open = a.open_lobby(lid, lobby);
    let b = open.insert_player(pid, lid, metadata, now);
    let birth = lobby.age(now);
    let player = PlayerView {
        lid,
        metadata,
        outbox: model::welcome(lobby, a.ice_servers, lid.lid, pid, birth),
        birth,
        metadata_budget: BucketView::fresh_metadata("player_metadata"@, now),
    };
    let at = assoc::place(a.lobbies, lid);
    assert(a.lobbies[at].0 == lid);
    assert(in_index(a.gid_lobbies, lid));
    assert(open.gid_lobbies =~= a.gid_lobbies);
    assoc::lemma_put_value(a.lobbies, lid, lobby);
    assoc::lemma_place(open.lobbies, at);
    assert(lobby.entered(pid).players =~= seq![pid]);
    let entered = lobby.entered(pid);
    assert(b.lobbies =~= a.lobbies.update(at, (lid, entered)));
    assert(a.lobby(lid).players[0] == pid);
    assert(assoc::value(a.lobbies, lid).players.contains(pid));
    assert(a.has_player(pid) && a.player(pid).lid == lid);
    assert(a.players[assoc::place(a.players, pid)].0 == pid);
    assert(b.players == assoc::put(a.players, pid, player));
    assert(entered.players[0] == pid);
    assert(alive(entered));
    lemma_lobbies_alive(a);
    assert(same_shape(a, b));
    lemma_same_shape(a, b);
}

/// A server that holds nothing makes sense.
pub proof fn law_start(ice_servers: Seq<model::IceServerView>)
    ensures
        (LoopView {
            gid_lobbies: seq![],
            lobbies: seq![],
            players: seq![],
            peers: seq![],
            ice_servers,
        }).consistent(),
{
}

/// Whether the numbers that the operation would be carried out with are not taken by somebody who
/// is elsewhere.
pub open spec fn numbers_free(
    a: LoopView,
    op: OpView,
    now: Moment,
    lid: BasicId,
    pid: BasicId,
) -> bool {
    match op {
        OpView::HostLobby { initiator, gid, listed, .. } => {
            let key = LobbyKey { lid, gid };
            ||| a.host_refusal(initiator, gid, listed, now) is Some
            ||| !a.has_lobby(key) && !a.has_player(pid)
            ||| a.has_lobby(key) && a.lobby(key).players == seq![pid]
        },
        OpView::JoinLobby { ip, lid, .. } => {
            ||| a.join_refusal(ip, lid, now) is Some
            ||| !a.has_player(pid)
            ||| a.player(pid).lid == lid
        },
        _ => true,
    }
}

/// Whatever the server is asked to do, what it holds makes sense afterwards: each player is in
/// exactly one lobby, and each lobby has players and a master among them, counts as idle exactly
/// while too few are there, and is in the index. Numbers that are drawn for a new lobby or a new
/// player must not belong to somebody who is elsewhere.
pub proof fn law_step_keeps_sense(
    a: LoopView,
    op: OpView,
    now: Moment,
    lid: BasicId,
    pid: BasicId,
)
    requires
        a.named(),
        a.orderly(),
        op.wf(),
        numbers_free(a, op, now, lid, pid),
    ensures
        a.step(op, now, lid, pid).named(),
        a.step(op, now, lid, pid).orderly(),
{
    match op {
        OpView::ListLobbies { ip, .. } => {
            lemma_cap_ip(a, ip, now);
        },
        OpView::HostLobby { initiator, gid, lobby_meta, capacity, listed, player_metadata } => {
            let asked = a.cap_ip(initiator, now);
            lemma_cap_ip(a, initiator, now);
            if a.host_refusal(initiator, gid, listed, now) is None {
                let key = LobbyKey { lid, gid };
                let lobby = LobbyView::opened(initiator, pid, lobby_meta, capacity, listed, now);
                if a.has_lobby(key) {
                    assert(asked.has_lobby(key));
                    lemma_reopen(asked, key, lobby, pid, player_metadata, now);
                } else {
                    assert(!asked.has_lobby(key));
                    lemma_open(asked, key, lobby);
                    assert(!asked.open_lobby(key, lobby).has_player(pid));
                    lemma_enter(asked.open_lobby(key, lobby), key, pid, player_metadata, now);
                }
            }
        },
        OpView::JoinLobby { ip, lid, player_metadata } => {
            let asked = a.cap_ip(ip, now);
            lemma_cap_ip(a, ip, now);
            if a.join_refusal(ip, lid, now) is None {
                assert(asked.has_lobby(lid));
                assert(alive(asked.lobby(lid)));
                if a.has_player(pid) {
                    assert(asked.has_player(pid));
                    lemma_reenter(asked, lid, pid, player_metadata, now);
                } else {
                    assert(!asked.has_player(pid));
                    lemma_enter(asked, lid, pid, player_metadata, now);
                }
            }
        },
        OpView::SetCapacity { initiator, capacity } => {
            if a.masters(initiator) {
                let lid = a.player(initiator).lid;
                let altered = a.lobby(lid).altered(now);
                lemma_lobby_of(a, lid);
                lemma_with_lobby(a, lid, altered);
                lemma_with_lobby(a, lid, LobbyView { capacity, ..altered });
                lemma_telling(
                    a.with_lobby(lid, LobbyView { capacity, ..altered }),
                    lid,
                    ServerMessageView::SetCapacity { capacity },
                );
            }
        },
        OpView::SetListed { initiator, listed } => {
            if a.masters(initiator) {
                let lid = a.player(initiator).lid;
                let altered = a.lobby(lid).altered(now);
                lemma_lobby_of(a, lid);
                lemma_with_lobby(a, lid, altered);
                lemma_with_lobby(a, lid, LobbyView { listed, ..altered });
                lemma_telling(
                    a.with_lobby(lid, LobbyView { listed, ..altered }),
                    lid,
                    ServerMessageView::SetListed { listed },
                );
            }
        },
        OpView::SetMaster { initiator, new_master } => {
            let lid = a.player(new_master).lid;
            if a.has_player(new_master) && a.has_lobby(lid) {
                let altered = a.lobby(lid).altered(now);
                lemma_lobby_of(a, lid);
                lemma_with_lobby(a, lid, altered);
                lemma_with_lobby(a, lid, LobbyView { master: new_master, ..altered });
                lemma_telling(
                    a.with_lobby(lid, LobbyView { master: new_master, ..altered }),
                    lid,
                    ServerMessageView::SetMaster { pid: new_master },
                );
            }
        },
        OpView::SetPlayerMeta { pid, key, value } => {
            if a.has_player(pid) {
                let p = a.player(pid);
                let price = model::field_price(key, value);
                let asked = PlayerView {
                    metadata_budget: p.metadata_budget.asked(price, now),
                    ..p
                };
                let set = PlayerView { metadata: assoc::put(p.metadata, key, value), ..asked };
                assert(a.players[assoc::place(a.players, pid)].0 == pid);
                assoc::lemma_put_value(p.metadata, key, value);
                lemma_with_player(a, pid, asked);
                lemma_with_player(a, pid, set);
                lemma_telling(
                    a.with_player(pid, set),
                    p.lid,
                    ServerMessageView::SetPlayerMeta { pid, key, value },
                );
            }
        },
        OpView::ErasePlayerMeta { pid, key } => {
            if a.has_player(pid) {
                let p = a.player(pid);
                let erased = PlayerView { metadata: assoc::without(p.metadata, key), ..p };
                assert(a.players[assoc::place(a.players, pid)].0 == pid);
                assoc::lemma_without_value(p.metadata, key);
                lemma_with_player(a, pid, erased);
                lemma_telling(
                    a.with_player(pid, erased),
                    p.lid,
                    ServerMessageView::ErasePlayerMeta { pid, key },
                );
            }
        },
        OpView::SetLobbyMeta { initiator, key, value } => {
            if a.masters(initiator) {
                let lid = a.player(initiator).lid;
                let l = a.lobby(lid);
                let price = model::field_price(key, value);
                let asked = LobbyView { metadata_budget: l.metadata_budget.asked(price, now), ..l };
                let set = LobbyView { metadata: assoc::put(l.metadata, key, value), ..asked };
                lemma_lobby_of(a, lid);
                assoc::lemma_put_value(l.metadata, key, value);
                lemma_with_lobby(a, lid, asked);
                lemma_with_lobby(a, lid, set);
                lemma_telling(
                    a.with_lobby(lid, set),
                    lid,
                    ServerMessageView::SetLobbyMeta { key, value },
                );
            }
        },
        OpView::EraseLobbyMeta { initiator, key } => {
            if a.masters(initiator) {
                let lid = a.player(initiator).lid;
                let l = a.lobby(lid);
                let erased = LobbyView { metadata: assoc::without(l.metadata, key), ..l };
                lemma_lobby_of(a, lid);
                assoc::lemma_without_value(l.metadata, key);
                lemma_with_lobby(a, lid, erased);
                lemma_telling(
                    a.with_lobby(lid, erased),
                    lid,
                    ServerMessageView::EraseLobbyMeta { key },
                );
            }
        },
        OpView::KickPlayer { kicker, kickee } => {
            lemma_sending(
                a,
                kickee,
                model::boot(payloads::natural("kick"@, "Kicked by lobby's master"@)),
            );
        },
        OpView::RemovePlayer { pid, reason } => {
            lemma_remove(a, pid, reason, now);
        },
        OpView::Relay { from, to, msg } => {
            lemma_sending(a, to, msg);
        },
        OpView::IntroduceSession { ip } => {
            lemma_introduce_session(a, ip, now);
        },
        OpView::Prune => {
            lemma_prune(a, now);
        },
        OpView::CloseSession { ip } => {
            lemma_close_session(a, ip, now);
        },
    }
}

/// A lobby's fields have names that occur once, and its master is in it.
proof fn lemma_lobby_of(a: LoopView, lid: LobbyKey)
    requires
        a.consistent(),
        a.has_lobby(lid),
    ensures
        assoc::keyed(a.lobby(lid).metadata),
        a.lobby(lid).players.contains(a.lobby(lid).master),
{
    assert(a.lobbies[assoc::place(a.lobbies, lid)].0 == lid);
}

} // verus!
