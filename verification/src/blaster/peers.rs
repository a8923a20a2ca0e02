//! How sessions come and go at the event-loop server, what is forgotten in time, and how messages
//! are fetched.

use crate::assoc;
use crate::blaster::effects;
use crate::blaster::laws;
use crate::blaster::listings;
use crate::blaster::model;
use crate::blaster::model::{LoopView, OpView, PeerView, Peers, PlayerView, ReplyView};
use crate::blaster::payloads::ServerMessageView;
use crate::blaster::PeerSessionCount;
use crate::clock::Moment;
use crate::id::{BasicId, IpAddr};
use crate::protocol::payloads::KickView;
use crate::tokens::BucketView;
use vstd::prelude::*;

verus! {

/// How many sessions there are.
pub open spec fn sessions(count: PeerSessionCount) -> nat {
    match count {
        PeerSessionCount::Active(n) => n as nat,
        PeerSessionCount::Decaying(_) => 0,
    }
}

/// The sessions of all addresses add up: none where there is no address, and with each address
/// come its own.
pub proof fn law_sessions_add_up(peers: Peers, ip: IpAddr, peer: PeerView)
    ensures
        model::total_sessions(seq![]) == 0,
        model::total_sessions(peers.push((ip, peer))) == model::total_sessions(peers) + sessions(
            peer.session_count,
        ),
{
    assert(peers.push((ip, peer)).drop_last() =~= peers);
}

/// A session is let in if there are fewer than 1024 of them, and fewer than four from its address,
/// or fewer than 512 addresses if it is the first from its own; and whether it was is the answer.
pub proof fn law_answer_to_sessions(a: LoopView, ip: IpAddr, now: Moment)
    ensures
        a.reply(OpView::IntroduceSession { ip }, now, 0) == ReplyView::Introduced(
            model::total_sessions(a.peers) < 1024 && if a.has_peer(ip) {
                sessions(a.peer(ip).session_count) < 4
            } else {
                a.peers.len() < 512
            },
        ),
{
}

/// A session that is let in is one more from its address; an address that is new can be served
/// four times at once, and twice a second after that; and nothing else changes. A session that is
/// not let in changes nothing.
pub proof fn law_sessions_come(a: LoopView, ip: IpAddr, now: Moment)
    requires
        a.named(),
    ensures
        ({
            let b = a.step(OpView::IntroduceSession { ip }, now, 0, 0);
            if a.reply(OpView::IntroduceSession { ip }, now, 0) != ReplyView::Introduced(true) {
                b == a
            } else {
                &&& b.lobbies == a.lobbies
                &&& b.players == a.players
                &&& b.gid_lobbies == a.gid_lobbies
                &&& b.ice_servers == a.ice_servers
                &&& if a.has_peer(ip) {
                    &&& listings::other_peers_kept(a.peers, b.peers, ip)
                    &&& b.has_peer(ip)
                    &&& b.peer(ip).session_count is Active
                    &&& sessions(b.peer(ip).session_count) == sessions(a.peer(ip).session_count) + 1
                    &&& b.peer(ip).sessions_budget == a.peer(ip).sessions_budget
                } else {
                    b.peers == a.peers.push(
                        (
                            ip,
                            PeerView {
                                session_count: PeerSessionCount::Active(1),
                                sessions_budget: BucketView {
                                    identifier: "sessions_per_ip"@,
                                    tokens: 4 * 1_000_000_000,
                                    last_refill: now,
                                    rate: 2,
                                    max: 3,
                                },
                            },
                        ),
                    )
                }
            }
        }),
{
    if a.has_peer(ip) {
        assoc::lemma_put_value(a.peers, ip, a.peer(ip).opened());
        assert(a.peers[assoc::place(a.peers, ip)].0 == ip);
    }
}

/// A session that goes is one less from its address; an address without one decays from then on;
/// and nothing else changes.
pub proof fn law_sessions_go(a: LoopView, ip: IpAddr, now: Moment)
    requires
        a.named(),
    ensures
        ({
            let b = a.step(OpView::CloseSession { ip }, now, 0, 0);
            if !a.has_peer(ip) {
                b == a
            } else {
                &&& b.lobbies == a.lobbies
                &&& b.players == a.players
                &&& b.gid_lobbies == a.gid_lobbies
                &&& b.ice_servers == a.ice_servers
                &&& listings::other_peers_kept(a.peers, b.peers, ip)
                &&& b.has_peer(ip)
                &&& b.peer(ip).sessions_budget == a.peer(ip).sessions_budget
                &&& match a.peer(ip).session_count {
                    PeerSessionCount::Decaying(since) => b.peer(ip).session_count
                        == PeerSessionCount::Decaying(since),
                    PeerSessionCount::Active(n) => if n <= 1 {
                        b.peer(ip).session_count == PeerSessionCount::Decaying(now)
                    } else {
                        b.peer(ip).session_count is Active && sessions(b.peer(ip).session_count) + 1
                            == n
                    },
                }
            }
        }),
{
    if a.has_peer(ip) {
        assoc::lemma_put_value(a.peers, ip, a.peer(ip).closed(now));
        assert(a.peers[assoc::place(a.peers, ip)].0 == ip);
    }
}

/// Pruning forgets an address exactly if no session has come from it for a minute, and keeps all
/// others as they are; lobbies and their index stay.
pub proof fn law_pruning_forgets_addresses(a: LoopView, ip: IpAddr, now: Moment)
    requires
        a.named(),
    ensures
        ({
            let b = a.step(OpView::Prune, now, 0, 0);
            &&& b.has_peer(ip) <==> a.has_peer(ip) && !(a.peer(
                ip,
            ).session_count matches PeerSessionCount::Decaying(since) && since + 60 * 1_000_000_000
                <= now)
            &&& b.has_peer(ip) ==> b.peer(ip) == a.peer(ip)
            &&& b.lobbies == a.lobbies
            &&& b.gid_lobbies == a.gid_lobbies
            &&& b.ice_servers == a.ice_servers
        }),
{
    assoc::lemma_filter_value(a.peers, model::remembered(now));
}

/// Pruning shows a player the door exactly if their lobby has been idle for three minutes, and
/// leaves everybody else as they are.
pub proof fn law_pruning_ends_idleness(a: LoopView, pid: BasicId, now: Moment)
    requires
        a.consistent(),
        a.has_player(pid),
    ensures
        ({
            let b = a.step(OpView::Prune, now, 0, 0);
            &&& b.has_player(pid)
            &&& if a.lobby(a.player(pid).lid).idle_since matches Some(since) && since + 180
                * 1_000_000_000 <= now {
                effects::got(
                    a.player(pid),
                    b.player(pid),
                    ServerMessageView::Disconnected {
                        reason: KickView::Natural {
                            code: "inactive_lobby"@,
                            msg: "Inactive lobby"@,
                        },
                    },
                )
            } else {
                b.player(pid) == a.player(pid)
            }
        }),
{
    laws::law_prune_empties_idle_lobbies(a, pid, now);
    let p = a.player(pid);
    assert(p.outbox.push(model::idle_msg()).drop_last() =~= p.outbox);
}

/// Each delivery is of one player's messages, all of them and in order, and is not empty.
pub proof fn law_deliveries_are_true(a: LoopView, i: int)
    requires
        a.named(),
        0 <= i < a.mail().len(),
    ensures
        a.has_player(a.mail()[i].0),
        a.mail()[i].1 == a.player(a.mail()[i].0).outbox,
        a.mail()[i].1.len() > 0,
{
    let found = a.players.filter(model::has_mail());
    a.players.lemma_filter_pred(model::has_mail(), i);
    a.players.lemma_filter_contains_rev(model::has_mail(), found[i]);
    let k = choose|k: int| 0 <= k < a.players.len() && a.players[k] == found[i];
    assoc::lemma_place(a.players, k);
}

/// Each player whom messages are on their way to gets one delivery.
pub proof fn law_deliveries_are_complete(a: LoopView, pid: BasicId) -> (i: int)
    requires
        a.named(),
        a.has_player(pid),
        a.player(pid).outbox.len() > 0,
    ensures
        0 <= i < a.mail().len(),
        a.mail()[i].0 == pid,
        forall|j: int| 0 <= j < a.mail().len() && (#[trigger] a.mail()[j]).0 == pid ==> j == i,
{
    laws::law_mail_is_handed_over_once(a, pid);
    let i = choose|i: int| 0 <= i < a.mail().len() && a.mail()[i] == (pid, a.player(pid).outbox);
    let found = a.players.filter(model::has_mail());
    assoc::lemma_filter_value(a.players, model::has_mail());
    assert forall|j: int| 0 <= j < a.mail().len() && (#[trigger] a.mail()[j]).0 == pid implies j
        == i by {
        assert(found[j].0 == pid && found[i].0 == pid);
    }
    i
}

/// Once the messages have been fetched, none are on their way, and nothing else has changed.
pub proof fn law_fetching_leaves_no_messages(a: LoopView)
    ensures
        ({
            let b = a.mail_collected();
            &&& b.lobbies == a.lobbies
            &&& b.gid_lobbies == a.gid_lobbies
            &&& b.peers == a.peers
            &&& b.ice_servers == a.ice_servers
            &&& b.players.len() == a.players.len()
            &&& forall|i: int|
                0 <= i < a.players.len() ==> (#[trigger] b.players[i]).0 == a.players[i].0
                    && b.players[i].1.outbox.len() == 0 && b.players[i].1 == (PlayerView {
                    outbox: b.players[i].1.outbox,
                    ..a.players[i].1
                })
        }),
{
}

} // verus!
