//! No limit on lobbies and sessions is exceeded, whatever the event-loop server is asked to do.

use crate::assoc;
use crate::blaster;
use crate::blaster::eventloop::{GLOBAL_SESSIONS_CAP, LOBBIES_PER_IP, SESSIONS_PER_IP_CAP};
use crate::blaster::model;
use crate::blaster::model::{Lobbies, LobbyView, LoopView, OpView, PeerView, Peers};
use crate::clock::Moment;
use crate::id::{BasicId, IpAddr, LobbyKey};
use vstd::prelude::*;

verus! {

impl LoopView {
    /// No address has opened more lobbies than it may.
    pub open spec fn few_lobbies(self) -> bool {
        forall|ip: IpAddr| #[trigger]
            self.lobbies.filter(model::hosted_by(ip)).len() <= LOBBIES_PER_IP
    }

    /// There are no more addresses, no more sessions from any of them, and no more sessions in all
    /// than there may be.
    pub open spec fn few_sessions(self) -> bool {
        self.capped() && model::total_sessions(self.peers) <= GLOBAL_SESSIONS_CAP
    }
}

/// If two lists agree in which of their places are picked, as many are picked.
proof fn lemma_same_count<A>(s: Seq<A>, t: Seq<A>, p: spec_fn(A) -> bool)
    requires
        s.len() == t.len(),
        forall|i: int| 0 <= i < s.len() ==> p(#[trigger] s[i]) == p(t[i]),
    ensures
        s.filter(p).len() == t.filter(p).len(),
    decreases s.len(),
{
    reveal(Seq::filter);
    if s.len() > 0 {
        assert forall|i: int| 0 <= i < s.drop_last().len() implies p(
            #[trigger] s.drop_last()[i],
        ) == p(t.drop_last()[i]) by {
            assert(s[i] == s.drop_last()[i]);
        }
        lemma_same_count(s.drop_last(), t.drop_last(), p);
        assert(p(s[s.len() - 1]) == p(t[t.len() - 1]));
    }
}

/// Of a part that is picked, no more can be picked than of the whole.
proof fn lemma_count_of_part<A>(s: Seq<A>, p: spec_fn(A) -> bool, q: spec_fn(A) -> bool)
    ensures
        s.filter(p).filter(q).len() <= s.filter(q).len(),
    decreases s.len(),
{
    reveal(Seq::filter);
    if s.len() > 0 {
        lemma_count_of_part(s.drop_last(), p, q);
        let u = s.drop_last().filter(p);
        if p(s.last()) {
            assert(u.push(s.last()).drop_last() =~= u);
        }
    }
}

/// How the number of those that are picked changes with one place.
proof fn lemma_count_update<A>(s: Seq<A>, i: int, e: A, p: spec_fn(A) -> bool)
    requires
        0 <= i < s.len(),
    ensures
        s.update(i, e).filter(p).len() == s.filter(p).len() - (if p(s[i]) {
            1int
        } else {
            0
        }) + (if p(e) {
            1int
        } else {
            0
        }),
    decreases s.len(),
{
    reveal(Seq::filter);
    let t = s.update(i, e);
    if i == s.len() - 1 {
        assert(t.drop_last() =~= s.drop_last());
    } else {
        lemma_count_update(s.drop_last(), i, e, p);
        assert(t.drop_last() =~= s.drop_last().update(i, e));
    }
}

/// If each lobby is still whose it was, nobody has opened more.
proof fn lemma_same_initiators(a: Lobbies, b: Lobbies, ip: IpAddr)
    requires
        b.len() == a.len(),
        forall|i: int|
            0 <= i < a.len() ==> (#[trigger] a[i]).1.initiator == b[i].1.initiator,
    ensures
        b.filter(model::hosted_by(ip)).len() == a.filter(model::hosted_by(ip)).len(),
{
    assert forall|i: int| 0 <= i < a.len() implies model::hosted_by(ip)(#[trigger] a[i])
        == model::hosted_by(ip)(b[i]) by {}
    lemma_same_count(a, b, model::hosted_by(ip));
}

/// A lobby that changes, but not in whose it is, counts as before.
proof fn lemma_put_keeps_initiators(a: Lobbies, lid: LobbyKey, lobby: LobbyView, ip: IpAddr)
    requires
        assoc::has(a, lid),
        lobby.initiator == assoc::value(a, lid).initiator,
    ensures
        assoc::put(a, lid, lobby).filter(model::hosted_by(ip)).len() == a.filter(
            model::hosted_by(ip),
        ).len(),
{
    lemma_same_initiators(a, assoc::put(a, lid, lobby), ip);
}

/// Whatever the server is asked to do, no address has opened more lobbies than it may afterwards.
pub proof fn law_step_keeps_lobbies_few(
    a: LoopView,
    op: OpView,
    now: Moment,
    lid: BasicId,
    pid: BasicId,
)
    requires
        a.named(),
        a.few_lobbies(),
    ensures
        a.step(op, now, lid, pid).few_lobbies(),
{
    let after = a.step(op, now, lid, pid);
    assert forall|ip: IpAddr| #[trigger] after.lobbies.filter(model::hosted_by(ip)).len()
        <= LOBBIES_PER_IP by {
        assert(a.lobbies.filter(model::hosted_by(ip)).len() <= LOBBIES_PER_IP);
        match op {
            OpView::HostLobby { initiator, gid, lobby_meta, capacity, listed, .. } => {
                if a.host_refusal(initiator, gid, listed, now) is None {
                    let key = LobbyKey { lid, gid };
                    let lobby = LobbyView::opened(
                        initiator,
                        pid,
                        lobby_meta,
                        capacity,
                        listed,
                        now,
                    );
                    let open = assoc::put(a.lobbies, key, lobby);
                    assoc::lemma_put_value(a.lobbies, key, lobby);
                    if a.has_lobby(key) {
                        lemma_count_update(
                            a.lobbies,
                            assoc::place(a.lobbies, key),
                            (key, lobby),
                            model::hosted_by(ip),
                        );
                    } else {
                        a.lobbies.lemma_filter_len_push(model::hosted_by(ip), (key, lobby));
                    }
                    lemma_put_keeps_initiators(open, key, lobby.entered(pid), ip);
                }
            },
            OpView::JoinLobby { ip: from, lid, .. } => {
                if a.join_refusal(from, lid, now) is None {
                    lemma_put_keeps_initiators(a.lobbies, lid, a.lobby(lid).entered(pid), ip);
                }
            },
            OpView::RemovePlayer { pid, .. } => {
                let lid = a.player(pid).lid;
                if a.has_player(pid) && a.has_lobby(lid) {
                    let left = a.lobby(lid).left(pid, now);
                    lemma_put_keeps_initiators(a.lobbies, lid, left, ip);
                    lemma_count_of_part(
                        assoc::put(a.lobbies, lid, left),
                        model::inhabited(),
                        model::hosted_by(ip),
                    );
                }
            },
            _ => {
                lemma_same_initiators(a.lobbies, after.lobbies, ip);
            },
        }
    }
}

/// How the number of open sessions changes with one address.
proof fn lemma_sessions_update(peers: Peers, i: int, e: (IpAddr, PeerView))
    requires
        0 <= i < peers.len(),
    ensures
        model::total_sessions(peers.update(i, e)) == model::total_sessions(peers)
            - blaster::open_sessions(peers[i].1.session_count) + blaster::open_sessions(
            e.1.session_count,
        ),
    decreases peers.len(),
{
    let t = peers.update(i, e);
    if i == peers.len() - 1 {
        assert(t.drop_last() =~= peers.drop_last());
    } else {
        lemma_sessions_update(peers.drop_last(), i, e);
        assert(t.drop_last() =~= peers.drop_last().update(i, e));
    }
}

/// Forgetting addresses opens no session.
proof fn lemma_sessions_filter(peers: Peers, p: spec_fn((IpAddr, PeerView)) -> bool)
    ensures
        model::total_sessions(peers.filter(p)) <= model::total_sessions(peers),
    decreases peers.len(),
{
    reveal(Seq::filter);
    if peers.len() > 0 {
        lemma_sessions_filter(peers.drop_last(), p);
        let u = peers.drop_last().filter(p);
        if p(peers.last()) {
            assert(u.push(peers.last()).drop_last() =~= u);
        }
    }
}

/// A change to one address changes the number of open sessions by as much.
proof fn lemma_sessions_put(a: LoopView, ip: IpAddr, peer: PeerView)
    requires
        a.named(),
        a.few_sessions(),
        a.has_peer(ip),
        blaster::open_sessions(peer.session_count) <= SESSIONS_PER_IP_CAP,
        blaster::open_sessions(peer.session_count) <= blaster::open_sessions(
            a.peer(ip).session_count,
        ) || (blaster::open_sessions(peer.session_count) <= blaster::open_sessions(
            a.peer(ip).session_count,
        ) + 1 && model::total_sessions(a.peers) < GLOBAL_SESSIONS_CAP),
    ensures
        a.with_peer(ip, peer).few_sessions(),
{
    let i = assoc::place(a.peers, ip);
    lemma_sessions_update(a.peers, i, (ip, peer));
}

/// Whatever the server is asked to do, no more sessions are open afterwards, in all and from any
/// address, and no more addresses are kept track of, than there may be.
pub proof fn law_step_keeps_sessions_few(
    a: LoopView,
    op: OpView,
    now: Moment,
    lid: BasicId,
    pid: BasicId,
)
    requires
        a.named(),
        a.few_sessions(),
    ensures
        a.step(op, now, lid, pid).few_sessions(),
{
    let after = a.step(op, now, lid, pid);
    match op {
        OpView::ListLobbies { ip, .. } => {
            if a.has_peer(ip) {
                lemma_sessions_put(a, ip, a.peer(ip).asked(now));
            }
        },
        OpView::HostLobby { initiator, .. } => {
            if a.has_peer(initiator) {
                lemma_sessions_put(a, initiator, a.peer(initiator).asked(now));
            }
        },
        OpView::JoinLobby { ip, .. } => {
            if a.has_peer(ip) {
                lemma_sessions_put(a, ip, a.peer(ip).asked(now));
            }
        },
        OpView::IntroduceSession { ip } => {
            if a.admits(ip) {
                if a.has_peer(ip) {
                    lemma_sessions_put(a, ip, a.peer(ip).opened());
                } else {
                    assert(after.peers.drop_last() =~= a.peers);
                }
            }
        },
        OpView::CloseSession { ip } => {
            if a.has_peer(ip) {
                lemma_sessions_put(a, ip, a.peer(ip).closed(now));
            }
        },
        OpView::Prune => {
            let p = model::remembered(now);
            lemma_sessions_filter(a.peers, p);
            a.peers.lemma_filter_len(p);
            assert forall|i: int| 0 <= i < after.peers.len() implies blaster::open_sessions(
                (#[trigger] after.peers[i]).1.session_count,
            ) <= SESSIONS_PER_IP_CAP by {
                a.peers.lemma_filter_contains_rev(p, after.peers[i]);
                assert(a.peers.contains(after.peers[i]));
            }
        },
        _ => {
            assert(after.peers == a.peers);
        },
    }
}

/// A server that holds nothing exceeds no limit.
pub proof fn law_start_is_within_limits(ice_servers: Seq<model::IceServerView>)
    ensures
        ({
            let a = LoopView {
                gid_lobbies: seq![],
                lobbies: seq![],
                players: seq![],
                peers: seq![],
                ice_servers,
            };
            a.few_lobbies() && a.few_sessions()
        }),
{
    assert forall|ip: IpAddr| #[trigger] Seq::<(LobbyKey, LobbyView)>::empty().filter(
        model::hosted_by(ip),
    ).len() <= LOBBIES_PER_IP by {
        Seq::<(LobbyKey, LobbyView)>::empty().lemma_filter_len(model::hosted_by(ip));
    }
}

} // verus!
