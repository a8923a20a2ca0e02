//! What can be relied on when dealing with the event-loop server.

use crate::assoc;
use crate::blaster;
use crate::blaster::consistency;
use crate::blaster::model;
use crate::blaster::model::{
    Lobbies, LobbyView, LoopView, OpView, PeerView, PlayerView, Players, ReplyView,
};
use crate::blaster::payloads::ServerMessageView;
use crate::clock::Moment;
use crate::id;
use crate::id::{BasicId, IpAddr, LobbyKey};
use crate::protocol::aux::MetadataView;
use crate::protocol::payloads::KickView;
use crate::tokens::BucketView;
use vstd::prelude::*;

verus! {

/// Only its master can change a lobby or show somebody the door: what anybody else asks for in that
/// way changes nothing.
pub proof fn law_only_masters_command(a: LoopView, pid: BasicId, op: OpView, now: Moment)
    requires
        !a.masters(pid),
        match op {
            OpView::SetCapacity { initiator, .. } => initiator == pid,
            OpView::SetListed { initiator, .. } => initiator == pid,
            OpView::SetLobbyMeta { initiator, .. } => initiator == pid,
            OpView::EraseLobbyMeta { initiator, .. } => initiator == pid,
            OpView::KickPlayer { kicker, .. } => kicker == pid,
            _ => false,
        },
    ensures
        a.step(op, now, 0, 0) == a,
{
}

/// Only the master of a lobby can hand the post on, and only to somebody in it.
pub proof fn law_only_masters_abdicate(
    a: LoopView,
    initiator: BasicId,
    new_master: BasicId,
    now: Moment,
)
    requires
        a.consistent(),
        !(a.masters(initiator) && a.has_player(new_master) && a.player(new_master).lid == a.player(
            initiator,
        ).lid),
    ensures
        a.step(OpView::SetMaster { initiator, new_master }, now, 0, 0) == a,
{
    let lid = a.player(new_master).lid;
    if a.has_player(new_master) && a.has_lobby(lid) && a.lobby(lid).master == initiator {
        assert(consistency::alive(a.lobby(lid)));
        assert(assoc::value(a.lobbies, lid).players.contains(initiator));
        assert(a.has_player(initiator) && a.player(initiator).lid == lid);
    }
}

/// What is said in a lobby reaches everybody in it once, and nobody else.
pub proof fn law_told_reaches_the_lobby(
    players: Players,
    lid: LobbyKey,
    msg: ServerMessageView,
    pid: BasicId,
)
    requires
        assoc::keyed(players),
        assoc::has(players, pid),
    ensures
        assoc::has(model::told(players, lid, msg), pid),
        assoc::value(model::told(players, lid, msg), pid) == if assoc::value(players, pid).lid
            == lid {
            assoc::value(players, pid).posted(msg)
        } else {
            assoc::value(players, pid)
        },
{
    let told = model::told(players, lid, msg);
    assoc::lemma_same_keys(players, told);
    let i = assoc::place(players, pid);
    assert(told[i].0 == players[i].0);
}

/// What is sent to a player reaches that player once, and nobody else.
pub proof fn law_sent_reaches_the_player(
    players: Players,
    to: BasicId,
    msg: ServerMessageView,
    pid: BasicId,
)
    requires
        assoc::keyed(players),
        assoc::has(players, pid),
    ensures
        assoc::has(model::sent(players, to, msg), pid),
        assoc::value(model::sent(players, to, msg), pid) == if pid == to {
            assoc::value(players, pid).posted(msg)
        } else {
            assoc::value(players, pid)
        },
{
    if assoc::has(players, to) {
        assoc::lemma_put_value(players, to, assoc::value(players, to).posted(msg));
    }
}

/// A message that a player has passed on reaches only somebody in the same lobby.
pub proof fn law_relay_stays_in_the_lobby(
    a: LoopView,
    from: BasicId,
    to: BasicId,
    msg: ServerMessageView,
    pid: BasicId,
    now: Moment,
)
    requires
        a.named(),
        a.has_player(pid),
    ensures
        ({
            let after = a.step(OpView::Relay { from, to, msg }, now, 0, 0);
            &&& after.has_player(pid)
            &&& after.player(pid) == if pid == to && a.has_player(from) && a.player(from).lid
                == a.player(to).lid {
                a.player(pid).posted(msg)
            } else {
                a.player(pid)
            }
        }),
{
    law_sent_reaches_the_player(a.players, to, msg, pid);
}

/// Somebody who may not open a lobby, or may not join one, is answered with the reason, and nothing
/// comes of it but that their address's budget was asked.
pub proof fn law_refusal_changes_nothing(
    a: LoopView,
    op: OpView,
    now: Moment,
    lid: BasicId,
    pid: BasicId,
)
    requires
        match op {
            OpView::HostLobby { initiator, gid, listed, .. } => a.host_refusal(
                initiator,
                gid,
                listed,
                now,
            ) is Some,
            OpView::JoinLobby { ip, lid, .. } => a.join_refusal(ip, lid, now) is Some,
            OpView::ListLobbies { ip, .. } => !a.serves(ip, now),
            _ => false,
        },
    ensures
        a.step(op, now, lid, pid) == (LoopView { peers: a.step(op, now, lid, pid).peers, ..a }),
        match a.reply(op, now, pid) {
            ReplyView::Pid(r) => r is Err,
            ReplyView::Listing(r) => r is Err,
            _ => false,
        },
{
}

/// Who joins a lobby finds room in it: afterwards there are no more players in the lobby than it
/// may hold.
pub proof fn law_join_finds_room(
    a: LoopView,
    ip: IpAddr,
    lid: LobbyKey,
    metadata: MetadataView,
    pid: BasicId,
    now: Moment,
)
    requires
        a.named(),
        a.join_refusal(ip, lid, now) is None,
    ensures
        ({
            let after = a.join_lobby(ip, lid, metadata, pid, now);
            &&& after.has_lobby(lid)
            &&& after.lobby(lid).players == id::with_id(a.lobby(lid).players, pid)
            &&& after.lobby(lid).players.len() <= after.lobby(lid).capacity
        }),
{
    assoc::lemma_put_value(a.lobbies, lid, a.lobby(lid).entered(pid));
}

/// A lobby that was just opened is there, its host is its only player and its master, and it is
/// found under its game.
pub proof fn law_host_is_alone_in_the_lobby(
    a: LoopView,
    ip: IpAddr,
    gid: Seq<char>,
    lobby_meta: MetadataView,
    capacity: usize,
    listed: bool,
    metadata: MetadataView,
    lid: BasicId,
    pid: BasicId,
    now: Moment,
)
    requires
        a.consistent(),
        assoc::keyed(lobby_meta),
        assoc::keyed(metadata),
        a.host_refusal(ip, gid, listed, now) is None,
        !a.has_lobby(LobbyKey { lid, gid }),
        !a.has_player(pid),
    ensures
        ({
            let key = LobbyKey { lid, gid };
            let after = a.host_lobby(
                ip,
                gid,
                lobby_meta,
                capacity,
                listed,
                metadata,
                lid,
                pid,
                now,
            );
            &&& after.has_lobby(key)
            &&& after.lobby(key) == (LobbyView {
                players: seq![pid],
                ..LobbyView::opened(ip, pid, lobby_meta, capacity, listed, now)
            })
            &&& after.masters(pid)
            &&& after.player(pid).lid == key
            &&& after.player(pid).metadata == metadata
            &&& after.lobbies_of(gid) == a.lobbies_of(gid).push(lid)
        }),
{
    let key = LobbyKey { lid, gid };
    let asked = a.cap_ip(ip, now);
    let lobby = LobbyView::opened(ip, pid, lobby_meta, capacity, listed, now);
    let open = asked.open_lobby(key, lobby);
    let after = open.insert_player(pid, key, metadata, now);
    let op = OpView::HostLobby {
        initiator: ip,
        gid,
        lobby_meta,
        capacity,
        listed,
        player_metadata: metadata,
    };
    consistency::law_step_keeps_sense(a, op, now, lid, pid);
    assert(a.step(op, now, lid, pid) == after);
    assert(!consistency::in_index(a.gid_lobbies, key));
    assert(!a.lobbies_of(gid).contains(lid));
    assoc::lemma_put_value(asked.lobbies, key, lobby);
    assoc::lemma_put_value(open.lobbies, key, lobby.entered(pid));
    assoc::lemma_put_value(asked.gid_lobbies, gid, id::with_id(asked.lobbies_of(gid), lid));
    assert(lobby.entered(pid).players =~= seq![pid]);
    let player = PlayerView {
        lid: key,
        metadata,
        outbox: model::welcome(lobby, a.ice_servers, lid, pid, lobby.age(now)),
        birth: lobby.age(now),
        metadata_budget: BucketView::fresh_metadata("player_metadata"@, now),
    };
    assoc::lemma_put_value(asked.players, pid, player);
    assert(after.players == assoc::put(asked.players, pid, player));
}

/// Sending a message keeps the list of players in order.
proof fn lemma_sent_keyed(players: Players, to: BasicId, msg: ServerMessageView)
    requires
        assoc::keyed(players),
    ensures
        assoc::keyed(model::sent(players, to, msg)),
        forall|q: BasicId| #[trigger]
            assoc::has(model::sent(players, to, msg), q) <==> assoc::has(players, q),
{
    if assoc::has(players, to) {
        assoc::lemma_put_value(players, to, assoc::value(players, to).posted(msg));
    }
}

/// The news of each of the others, as the newcomer gets it.
pub open spec fn introductions(players: Players, others: Seq<BasicId>) -> Seq<ServerMessageView> {
    others.map_values(|q: BasicId| model::joined_msg(q, assoc::value(players, q)))
}

/// When a newcomer meets others, each of whom is there once, everybody is told of everybody else
/// once.
proof fn lemma_met(
    players: Players,
    others: Seq<BasicId>,
    pid: BasicId,
    newcomer: ServerMessageView,
)
    requires
        assoc::keyed(players),
        assoc::has(players, pid),
        others.no_duplicates(),
        forall|i: int|
            0 <= i < others.len() ==> assoc::has(players, #[trigger] others[i]) && others[i] != pid,
    ensures
        assoc::keyed(model::met(players, others, pid, newcomer)),
        forall|q: BasicId| #[trigger]
            assoc::has(model::met(players, others, pid, newcomer), q) <==> assoc::has(players, q),
        assoc::value(model::met(players, others, pid, newcomer), pid) == (PlayerView {
            outbox: assoc::value(players, pid).outbox + introductions(players, others),
            ..assoc::value(players, pid)
        }),
        forall|q: BasicId|
            q != pid && assoc::has(players, q) ==> #[trigger] assoc::value(
                model::met(players, others, pid, newcomer),
                q,
            ) == if others.contains(q) {
                assoc::value(players, q).posted(newcomer)
            } else {
                assoc::value(players, q)
            },
    decreases others.len(),
{
    let after = model::met(players, others, pid, newcomer);
    let me = assoc::value(players, pid);
    if others.len() == 0 {
        assert(me.outbox + introductions(players, others) =~= me.outbox);
    } else {
        let fewer = others.drop_last();
        let other = others.last();
        assert forall|i: int| 0 <= i < fewer.len() implies assoc::has(
            players,
            #[trigger] fewer[i],
        ) && fewer[i] != pid by {
            assert(fewer[i] == others[i]);
        }
        lemma_met(players, fewer, pid, newcomer);
        let earlier = model::met(players, fewer, pid, newcomer);
        assert(others[others.len() - 1] == other);
        assert(!fewer.contains(other)) by {
            if fewer.contains(other) {
                let k = choose|k: int| 0 <= k < fewer.len() && fewer[k] == other;
                assert(others[k] == others[others.len() - 1]);
            }
        }
        assert(assoc::has(earlier, other));
        assert(assoc::value(earlier, other) == assoc::value(players, other));
        let news = model::joined_msg(other, assoc::value(players, other));
        let shown = model::sent(earlier, pid, news);
        lemma_sent_keyed(earlier, pid, news);
        lemma_sent_keyed(shown, other, newcomer);
        assert forall|q: BasicId| #[trigger] assoc::has(after, q) <==> assoc::has(players, q) by {
            assert(assoc::has(shown, q) <==> assoc::has(earlier, q));
        }
        assert(assoc::has(earlier, pid));
        assert(assoc::has(shown, pid));
        law_sent_reaches_the_player(earlier, pid, news, pid);
        law_sent_reaches_the_player(shown, other, newcomer, pid);
        assert(introductions(players, others) =~= introductions(players, fewer).push(news));
        assert((me.outbox + introductions(players, fewer)).push(news) =~= me.outbox
            + introductions(players, others));
        assert forall|q: BasicId| q != pid && assoc::has(players, q) implies #[trigger] assoc::value(
            after,
            q,
        ) == if others.contains(q) {
            assoc::value(players, q).posted(newcomer)
        } else {
            assoc::value(players, q)
        } by {
            assert(assoc::has(earlier, q));
            law_sent_reaches_the_player(earlier, pid, news, q);
            law_sent_reaches_the_player(shown, other, newcomer, q);
            if fewer.contains(q) {
                let k = choose|k: int| 0 <= k < fewer.len() && fewer[k] == q;
                assert(others[k] == q);
            }
            if others.contains(q) && q != other {
                let k = choose|k: int| 0 <= k < others.len() && others[k] == q;
                assert(fewer[k] == q);
            }
        }
    }
}

/// Somebody who comes into a lobby is welcomed and told of each player who is there, each of those
/// is told of the newcomer, and nobody else is told anything.
pub proof fn law_newcomer_meets_everybody(
    a: LoopView,
    lid: LobbyKey,
    pid: BasicId,
    metadata: MetadataView,
    now: Moment,
)
    requires
        a.consistent(),
        a.has_lobby(lid),
        !a.has_player(pid),
    ensures
        ({
            let after = a.insert_player(pid, lid, metadata, now);
            let lobby = a.lobby(lid);
            let news = ServerMessageView::Joined { pid, metadata, birth: lobby.age(now) };
            &&& after.has_player(pid)
            &&& after.player(pid).outbox == model::welcome(
                lobby,
                a.ice_servers,
                lid.lid,
                pid,
                lobby.age(now),
            ) + introductions(a.players, lobby.players)
            &&& forall|q: BasicId| #[trigger]
                a.has_player(q) ==> after.has_player(q) && after.player(q) == if a.player(q).lid
                    == lid {
                    a.player(q).posted(news)
                } else {
                    a.player(q)
                }
        }),
{
    let after = a.insert_player(pid, lid, metadata, now);
    let lobby = a.lobby(lid);
    let others = lobby.players;
    let news = ServerMessageView::Joined { pid, metadata, birth: lobby.age(now) };
    let player = PlayerView {
        lid,
        metadata,
        outbox: model::welcome(lobby, a.ice_servers, lid.lid, pid, lobby.age(now)),
        birth: lobby.age(now),
        metadata_budget: BucketView::fresh_metadata("player_metadata"@, now),
    };
    let arrived = assoc::put(a.players, pid, player);
    assoc::lemma_put_value(a.players, pid, player);
    assert(assoc::value(a.lobbies, lid).players.no_duplicates());
    assert forall|i: int| 0 <= i < others.len() implies assoc::has(arrived, #[trigger] others[i])
        && others[i] != pid && assoc::value(arrived, others[i]) == assoc::value(
        a.players,
        others[i],
    ) by {
        assert(assoc::value(a.lobbies, lid).players.contains(others[i]));
        assert(assoc::has(a.players, others[i]));
        assert(assoc::has(arrived, others[i]));
    }
    lemma_met(arrived, others, pid, news);
    assert(introductions(arrived, others) =~= introductions(a.players, others));
    assert forall|q: BasicId| #[trigger] a.has_player(q) implies after.has_player(q)
        && after.player(q) == if a.player(q).lid == lid {
        a.player(q).posted(news)
    } else {
        a.player(q)
    } by {
        assert(assoc::has(arrived, q));
        assert(assoc::value(arrived, q) == a.player(q));
        assert(assoc::has(after.players, q));
        if a.player(q).lid == lid {
            assert(assoc::has(a.players, q));
            assert(others.contains(q));
        } else if others.contains(q) {
            assert(assoc::value(a.lobbies, lid).players.contains(q));
        }
    }
}

/// What is known of a newcomer besides their messages.
pub proof fn lemma_newcomer(
    a: LoopView,
    lid: LobbyKey,
    pid: BasicId,
    metadata: MetadataView,
    now: Moment,
)
    requires
        a.consistent(),
        a.has_lobby(lid),
        !a.has_player(pid),
    ensures
        ({
            let me = a.insert_player(pid, lid, metadata, now).player(pid);
            &&& me.lid == lid
            &&& me.metadata == metadata
            &&& me.birth == a.lobby(lid).age(now)
            &&& me.metadata_budget == BucketView::fresh_metadata("player_metadata"@, now)
        }),
{
    let lobby = a.lobby(lid);
    let others = lobby.players;
    let news = ServerMessageView::Joined { pid, metadata, birth: lobby.age(now) };
    let player = PlayerView {
        lid,
        metadata,
        outbox: model::welcome(lobby, a.ice_servers, lid.lid, pid, lobby.age(now)),
        birth: lobby.age(now),
        metadata_budget: BucketView::fresh_metadata("player_metadata"@, now),
    };
    let arrived = assoc::put(a.players, pid, player);
    assoc::lemma_put_value(a.players, pid, player);
    assert(assoc::value(a.lobbies, lid).players.no_duplicates());
    assert forall|i: int| 0 <= i < others.len() implies assoc::has(arrived, #[trigger] others[i])
        && others[i] != pid by {
        assert(assoc::value(a.lobbies, lid).players.contains(others[i]));
        assert(assoc::has(a.players, others[i]));
    }
    lemma_met(arrived, others, pid, news);
}

/// A lobby that is listed and has room is shown to whoever looks for lobbies of its game, unless
/// there are more such lobbies than are asked for.
pub proof fn law_open_lobbies_are_shown(
    a: LoopView,
    lid: BasicId,
    gid: Seq<char>,
    limit: usize,
)
    requires
        a.consistent(),
        a.has_lobby(LobbyKey { lid, gid }),
        a.lobby(LobbyKey { lid, gid }).listed,
        !a.lobby(LobbyKey { lid, gid }).is_full(),
        a.lobbies_of(gid).filter(a.shown(gid)).len() <= LoopView::listing_limit(limit),
    ensures
        a.list_lobbies(gid, limit).contains(a.listing(gid)(lid)),
{
    let key = LobbyKey { lid, gid };
    let ids = a.lobbies_of(gid);
    let p = a.shown(gid);
    let found = ids.filter(p);
    assert(consistency::in_index(a.gid_lobbies, key));
    assert(ids.contains(lid));
    let k = choose|k: int| 0 <= k < ids.len() && ids[k] == lid;
    ids.lemma_filter_contains(p, k);
    let j = choose|j: int| 0 <= j < found.len() && found[j] == lid;
    let list = a.list_lobbies(gid, limit);
    assert(found.take(found.len() as int) =~= found);
    assert(list[j] == a.listing(gid)(lid));
}

/// Whoever looks for lobbies of a game is shown lobbies of that game that are listed and have room,
/// and no more than were asked for.
pub proof fn law_only_open_lobbies_are_shown(a: LoopView, gid: Seq<char>, limit: usize, i: int)
    requires
        0 <= i < a.list_lobbies(gid, limit).len(),
    ensures
        a.list_lobbies(gid, limit).len() <= LoopView::listing_limit(limit),
        ({
            let key = LobbyKey { lid: a.list_lobbies(gid, limit)[i].lid, gid };
            &&& a.has_lobby(key)
            &&& a.lobby(key).listed
            &&& !a.lobby(key).is_full()
            &&& a.list_lobbies(gid, limit)[i] == a.listing(gid)(key.lid)
        }),
{
    let found = a.lobbies_of(gid).filter(a.shown(gid));
    a.lobbies_of(gid).lemma_filter_pred(a.shown(gid), i);
}

/// What is picked out of a list in which nothing occurs twice holds nothing twice.
proof fn lemma_filter_once<A>(s: Seq<A>, p: spec_fn(A) -> bool)
    requires
        s.no_duplicates(),
    ensures
        s.filter(p).no_duplicates(),
    decreases s.len(),
{
    reveal(Seq::filter);
    if s.len() > 0 {
        let shorter = s.drop_last();
        let found = shorter.filter(p);
        lemma_filter_once(shorter, p);
        if p(s.last()) {
            assert(!found.contains(s.last())) by {
                if found.contains(s.last()) {
                    shorter.lemma_filter_contains_rev(p, s.last());
                    let k = choose|k: int| 0 <= k < shorter.len() && shorter[k] == s.last();
                    assert(s[k] == s[s.len() - 1]);
                }
            }
            assert(found.push(s.last()).no_duplicates());
        }
    }
}

/// Nobody is shown the same lobby twice.
pub proof fn law_no_lobby_is_shown_twice(
    a: LoopView,
    gid: Seq<char>,
    limit: usize,
    i: int,
    j: int,
)
    requires
        a.named(),
        0 <= i < j < a.list_lobbies(gid, limit).len(),
    ensures
        a.list_lobbies(gid, limit)[i].lid != a.list_lobbies(gid, limit)[j].lid,
{
    let ids = a.lobbies_of(gid);
    assert(ids.no_duplicates());
    lemma_filter_once(ids, a.shown(gid));
    let found = ids.filter(a.shown(gid));
    assert(found[i] != found[j]);
}

/// A session that is let in and goes again leaves the number of open sessions as it was.
pub proof fn law_close_undoes_introduce(a: LoopView, ip: IpAddr, t1: Moment, t2: Moment)
    requires
        a.consistent(),
        a.admits(ip),
    ensures
        ({
            let open = a.introduce_session(ip, t1);
            let after = open.close_session(ip, t2);
            let before = if a.has_peer(ip) {
                blaster::open_sessions(a.peer(ip).session_count)
            } else {
                0
            };
            &&& blaster::open_sessions(open.peer(ip).session_count) == before + 1
            &&& blaster::open_sessions(after.peer(ip).session_count) == before
            &&& after.has_peer(ip)
            &&& forall|q: IpAddr| q != ip ==> (#[trigger] after.has_peer(q) <==> a.has_peer(q))
            &&& forall|q: IpAddr|
                q != ip && a.has_peer(q) ==> #[trigger] after.peer(q) == a.peer(q)
        }),
{
    let open = a.introduce_session(ip, t1);
    let opened = if a.has_peer(ip) {
        a.peer(ip).opened()
    } else {
        PeerView::fresh(t1)
    };
    if a.has_peer(ip) {
        assert(a.peers[assoc::place(a.peers, ip)].0 == ip);
    }
    assoc::lemma_put_value(a.peers, ip, opened);
    assoc::lemma_put_value(open.peers, ip, opened.closed(t2));
    let after = open.close_session(ip, t2);
    assert forall|q: IpAddr| q != ip implies (#[trigger] after.has_peer(q) <==> a.has_peer(q)) by {
        assert(open.has_peer(q) <==> a.has_peer(q));
    }
    assert forall|q: IpAddr| q != ip && a.has_peer(q) implies #[trigger] after.peer(q) == a.peer(
        q,
    ) by {
        assert(open.has_peer(q));
        assert(open.peer(q) == a.peer(q));
    }
}

/// An address is forgotten exactly if no session has come from it for long; one that has a session
/// never is.
pub proof fn law_prune_forgets_the_decayed(a: LoopView, ip: IpAddr, now: Moment)
    requires
        a.named(),
        a.has_peer(ip),
    ensures
        a.prune(now).has_peer(ip) <==> !a.peer(ip).decayed(now),
        a.prune(now).has_peer(ip) ==> a.prune(now).peer(ip) == a.peer(ip),
        blaster::open_sessions(a.peer(ip).session_count) > 0 ==> a.prune(now).has_peer(ip),
{
    assoc::lemma_filter_value(a.peers, model::remembered(now));
}

/// Fetching the messages hands over, for each player, what was on its way to them, and leaves
/// nothing behind.
pub proof fn law_mail_is_handed_over_once(a: LoopView, pid: BasicId)
    requires
        a.named(),
        a.has_player(pid),
    ensures
        a.player(pid).outbox.len() > 0 ==> a.mail().contains((pid, a.player(pid).outbox)),
        a.mail_collected().mail().len() == 0,
        a.mail_collected().has_player(pid),
        a.mail_collected().player(pid) == (PlayerView { outbox: seq![], ..a.player(pid) }),
{
    let i = assoc::place(a.players, pid);
    let after = a.mail_collected();
    assert(a.players[i] == (pid, a.player(pid)));
    assoc::lemma_same_keys(a.players, after.players);
    assert(after.players[i].0 == pid);
    if a.player(pid).outbox.len() > 0 {
        a.players.lemma_filter_contains(model::has_mail(), i);
        let found = a.players.filter(model::has_mail());
        let j = choose|j: int| 0 <= j < found.len() && found[j] == a.players[i];
        assert(a.mail()[j] == (pid, a.player(pid).outbox));
    }
    let left = after.players.filter(model::has_mail());
    if left.len() > 0 {
        after.players.lemma_filter_pred(model::has_mail(), 0);
        after.players.lemma_filter_contains_rev(model::has_mail(), left[0]);
        let j = choose|j: int| 0 <= j < after.players.len() && after.players[j] == left[0];
        assert(after.players[j].1.outbox.len() == 0);
    }
}

/// Each of several players is told the same.
proof fn lemma_sent_all(players: Players, ids: Seq<BasicId>, msg: ServerMessageView)
    requires
        assoc::keyed(players),
        ids.no_duplicates(),
    ensures
        assoc::keyed(model::sent_all(players, ids, msg)),
        forall|q: BasicId| #[trigger]
            assoc::has(model::sent_all(players, ids, msg), q) <==> assoc::has(players, q),
        forall|q: BasicId|
            assoc::has(players, q) ==> #[trigger] assoc::value(
                model::sent_all(players, ids, msg),
                q,
            ) == if ids.contains(q) {
                assoc::value(players, q).posted(msg)
            } else {
                assoc::value(players, q)
            },
    decreases ids.len(),
{
    if ids.len() > 0 {
        let fewer = ids.drop_last();
        let last = ids.last();
        lemma_sent_all(players, fewer, msg);
        let earlier = model::sent_all(players, fewer, msg);
        let after = model::sent_all(players, ids, msg);
        lemma_sent_keyed(earlier, last, msg);
        assert(ids[ids.len() - 1] == last);
        assert forall|q: BasicId| #[trigger] assoc::has(after, q) <==> assoc::has(players, q) by {
            assert(assoc::has(earlier, q) <==> assoc::has(players, q));
        }
        assert forall|q: BasicId| assoc::has(players, q) implies #[trigger] assoc::value(after, q)
            == if ids.contains(q) {
            assoc::value(players, q).posted(msg)
        } else {
            assoc::value(players, q)
        } by {
            assert(assoc::has(earlier, q));
            law_sent_reaches_the_player(earlier, last, msg, q);
            if fewer.contains(q) {
                let k = choose|k: int| 0 <= k < fewer.len() && fewer[k] == q;
                assert(ids[k] == q);
                assert(q != last);
            }
            if ids.contains(q) && q != last {
                let k = choose|k: int| 0 <= k < ids.len() && ids[k] == q;
                assert(fewer[k] == q);
            }
        }
    }
}

/// Whether one of the lobbies is the player's, and is idle.
spec fn idles(lobbies: Lobbies, lid: LobbyKey, pid: BasicId, now: Moment) -> bool {
    exists|i: int|
        0 <= i < lobbies.len() && (#[trigger] lobbies[i]).0 == lid && lobbies[i].1.idle(now)
            && lobbies[i].1.players.contains(pid)
}

/// Who is in an idle lobby is shown the door once.
proof fn lemma_evicted(players: Players, lobbies: Lobbies, now: Moment)
    requires
        assoc::keyed(players),
        assoc::keyed(lobbies),
        forall|i: int|
            0 <= i < lobbies.len() ==> (#[trigger] lobbies[i]).1.players.no_duplicates(),
        forall|i: int, q: BasicId|
            0 <= i < lobbies.len() && #[trigger] lobbies[i].1.players.contains(q) && assoc::has(
                players,
                q,
            ) ==> assoc::value(players, q).lid == lobbies[i].0,
    ensures
        assoc::keyed(model::evicted(players, lobbies, now)),
        forall|q: BasicId| #[trigger]
            assoc::has(model::evicted(players, lobbies, now), q) <==> assoc::has(players, q),
        forall|q: BasicId|
            assoc::has(players, q) ==> #[trigger] assoc::value(
                model::evicted(players, lobbies, now),
                q,
            ) == if idles(lobbies, assoc::value(players, q).lid, q, now) {
                assoc::value(players, q).posted(model::idle_msg())
            } else {
                assoc::value(players, q)
            },
    decreases lobbies.len(),
{
    if lobbies.len() > 0 {
        let fewer = lobbies.drop_last();
        let last = lobbies.last();
        let ids = last.1.players;
        assert(lobbies[lobbies.len() - 1] == last);
        assert forall|i: int| 0 <= i < fewer.len() implies (#[trigger] fewer[
            i
        ]).1.players.no_duplicates() by {
            assert(fewer[i] == lobbies[i]);
        }
        assert forall|i: int, q: BasicId|
            0 <= i < fewer.len() && #[trigger] fewer[i].1.players.contains(q) && assoc::has(
                players,
                q,
            ) implies assoc::value(players, q).lid == fewer[i].0 by {
            assert(lobbies[i].1.players.contains(q));
        }
        lemma_evicted(players, fewer, now);
        let earlier = model::evicted(players, fewer, now);
        let after = model::evicted(players, lobbies, now);
        lemma_sent_all(earlier, ids, model::idle_msg());
        assert forall|q: BasicId| #[trigger] assoc::has(after, q) <==> assoc::has(players, q) by {
            assert(assoc::has(earlier, q) <==> assoc::has(players, q));
        }
        assert forall|q: BasicId| assoc::has(players, q) implies #[trigger] assoc::value(after, q)
            == if idles(lobbies, assoc::value(players, q).lid, q, now) {
            assoc::value(players, q).posted(model::idle_msg())
        } else {
            assoc::value(players, q)
        } by {
            let home = assoc::value(players, q).lid;
            assert(assoc::has(earlier, q));
            if idles(fewer, home, q, now) {
                let k = choose|k: int|
                    0 <= k < fewer.len() && (#[trigger] fewer[k]).0 == home && fewer[k].1.idle(now)
                        && fewer[k].1.players.contains(q);
                assert(lobbies[k] == fewer[k]);
                assert(idles(lobbies, home, q, now));
                assert(lobbies[k].0 != lobbies[lobbies.len() - 1].0);
                if ids.contains(q) {
                    assert(lobbies[lobbies.len() - 1].1.players.contains(q));
                }
                assert(!ids.contains(q));
            } else if idles(lobbies, home, q, now) {
                let k = choose|k: int|
                    0 <= k < lobbies.len() && (#[trigger] lobbies[k]).0 == home
                        && lobbies[k].1.idle(now) && lobbies[k].1.players.contains(q);
                if k < fewer.len() {
                    assert(fewer[k] == lobbies[k]);
                }
            } else if last.1.idle(now) && ids.contains(q) {
                assert(lobbies[lobbies.len() - 1].1.players.contains(q));
                assert(idles(lobbies, home, q, now));
            }
        }
    }
}

/// Pruning shows each player of an idle lobby the door, once, and tells nobody else anything.
pub proof fn law_prune_empties_idle_lobbies(a: LoopView, pid: BasicId, now: Moment)
    requires
        a.consistent(),
        a.has_player(pid),
    ensures
        a.prune(now).has_player(pid),
        a.prune(now).player(pid) == if a.lobby(a.player(pid).lid).idle(now) {
            a.player(pid).posted(model::idle_msg())
        } else {
            a.player(pid)
        },
{
    let lid = a.player(pid).lid;
    assert forall|i: int| 0 <= i < a.lobbies.len() implies (#[trigger] a.lobbies[
        i
    ]).1.players.no_duplicates() by {
        assoc::lemma_place(a.lobbies, i);
        assert(assoc::value(a.lobbies, a.lobbies[i].0).players.no_duplicates());
    }
    assert forall|i: int, q: BasicId|
        0 <= i < a.lobbies.len() && #[trigger] a.lobbies[i].1.players.contains(q) && assoc::has(
            a.players,
            q,
        ) implies assoc::value(a.players, q).lid == a.lobbies[i].0 by {
        assoc::lemma_place(a.lobbies, i);
        assert(assoc::value(a.lobbies, a.lobbies[i].0).players.contains(q));
    }
    lemma_evicted(a.players, a.lobbies, now);
    assert(assoc::has(a.players, pid));
    assert(a.has_lobby(lid));
    let at = assoc::place(a.lobbies, lid);
    assert(a.lobbies[at] == (lid, a.lobby(lid)));
    assert(a.lobby(lid).players.contains(pid));
    if idles(a.lobbies, lid, pid, now) {
        let k = choose|k: int|
            0 <= k < a.lobbies.len() && (#[trigger] a.lobbies[k]).0 == lid && a.lobbies[k].1.idle(
                now,
            ) && a.lobbies[k].1.players.contains(pid);
        assoc::lemma_place(a.lobbies, k);
    }
}

/// When a player goes, everybody else in the lobby is told so after having been told of the new
/// master if there is a new one, and nobody in another lobby is told anything.
pub proof fn law_departure_is_announced(
    a: LoopView,
    pid: BasicId,
    reason: Option<KickView>,
    now: Moment,
    other: BasicId,
)
    requires
        a.consistent(),
        a.has_player(pid),
        a.has_player(other),
        other != pid,
    ensures
        ({
            let lid = a.player(pid).lid;
            let lobby = a.lobby(lid);
            let after = a.remove_player(pid, reason, now);
            let left = ServerMessageView::Left { pid, reason };
            &&& !after.has_player(pid)
            &&& after.has_player(other)
            &&& after.player(other) == if a.player(other).lid != lid {
                a.player(other)
            } else if lobby.master == pid {
                a.player(other).posted(
                    ServerMessageView::SetMaster { pid: after.lobby(lid).master },
                ).posted(left)
            } else {
                a.player(other).posted(left)
            }
        }),
{
    let lid = a.player(pid).lid;
    let lobby = a.lobby(lid);
    let next = lobby.left(pid, now);
    let left = ServerMessageView::Left { pid, reason };
    let news = ServerMessageView::SetMaster { pid: next.master };
    assert(a.has_lobby(lid));
    let gone = LoopView { players: assoc::without(a.players, pid), ..a }.with_lobby(lid, next);
    assoc::lemma_without_value(a.players, pid);
    assert(assoc::has(gone.players, other));
    let passed = if lobby.passes_on(pid) {
        gone.telling(lid, news)
    } else {
        gone
    };
    law_told_reaches_the_lobby(gone.players, lid, news, other);
    assoc::lemma_same_keys(gone.players, gone.telling(lid, news).players);
    law_told_reaches_the_lobby(passed.players, lid, left, other);
    assoc::lemma_same_keys(passed.players, passed.telling(lid, left).players);
    assert(assoc::has(gone.telling(lid, news).players, pid) <==> assoc::has(gone.players, pid));
    assert(assoc::has(passed.telling(lid, left).players, pid) <==> assoc::has(passed.players, pid));
    if a.player(other).lid == lid {
        assert(assoc::has(a.players, other));
        assert(assoc::value(a.lobbies, lid).players.no_duplicates());
        id::lemma_without_id(lobby.players, pid);
        assert(next.players.contains(other));
        let c = passed.telling(lid, left);
        assoc::lemma_put_value(a.lobbies, lid, next);
        assoc::lemma_filter_value(c.lobbies, model::inhabited());
        assert(assoc::has(c.lobbies.filter(model::inhabited()), lid));
    }
}

/// Somebody who has left is in no lobby any more; the lobby stays with the others in it, or ends if
/// there are none, and everybody else stays where they are.
pub proof fn law_leaver_is_gone(
    a: LoopView,
    pid: BasicId,
    reason: Option<KickView>,
    now: Moment,
)
    requires
        a.consistent(),
        a.has_player(pid),
    ensures
        ({
            let lid = a.player(pid).lid;
            let after = a.remove_player(pid, reason, now);
            &&& !after.has_player(pid)
            &&& forall|q: BasicId|
                q != pid ==> (#[trigger] after.has_player(q) <==> a.has_player(q))
            &&& after.has_lobby(lid) <==> a.lobby(lid).players.len() > 1
            &&& after.has_lobby(lid) ==> after.lobby(lid) == a.lobby(lid).left(pid, now)
            &&& forall|k: LobbyKey|
                k != lid ==> (#[trigger] after.has_lobby(k) <==> a.has_lobby(k))
            &&& forall|k: LobbyKey|
                k != lid && a.has_lobby(k) ==> #[trigger] after.lobby(k) == a.lobby(k)
        }),
{
    let lid = a.player(pid).lid;
    let lobby = a.lobby(lid);
    let next = lobby.left(pid, now);
    let after = a.remove_player(pid, reason, now);
    assert(a.has_lobby(lid));
    let gone = LoopView { players: assoc::without(a.players, pid), ..a }.with_lobby(lid, next);
    let news = ServerMessageView::SetMaster { pid: next.master };
    let passed = if lobby.passes_on(pid) {
        gone.telling(lid, news)
    } else {
        gone
    };
    let told = passed.telling(lid, ServerMessageView::Left { pid, reason });
    assoc::lemma_without_value(a.players, pid);
    assoc::lemma_same_keys(gone.players, gone.telling(lid, news).players);
    assoc::lemma_same_keys(passed.players, told.players);
    assert forall|q: BasicId| #[trigger] after.has_player(q) <==> assoc::has(gone.players, q) by {
        assert(assoc::has(told.players, q) <==> assoc::has(passed.players, q));
        assert(assoc::has(gone.telling(lid, news).players, q) <==> assoc::has(gone.players, q));
    }
    assert(assoc::value(a.lobbies, lid).players.no_duplicates());
    id::lemma_without_id(lobby.players, pid);
    assert(lobby.players.contains(pid));
    assoc::lemma_put_value(a.lobbies, lid, next);
    assoc::lemma_filter_value(gone.lobbies, model::inhabited());
    assert(after.lobbies == gone.lobbies.filter(model::inhabited()));
    assert forall|k: LobbyKey| k != lid implies (#[trigger] after.has_lobby(k) <==> a.has_lobby(
        k,
    )) by {
        assert(assoc::has(gone.lobbies, k) <==> assoc::has(a.lobbies, k));
        if a.has_lobby(k) {
            assert(consistency::alive(a.lobby(k)));
        }
    }
    assert forall|k: LobbyKey| k != lid && a.has_lobby(k) implies #[trigger] after.lobby(k)
        == a.lobby(k) by {
        assert(after.has_lobby(k));
        assert(assoc::has(gone.lobbies, k));
    }
}

/// Whoever joins a lobby and leaves it leaves in it who was in it before, under the same master.
pub proof fn law_leaving_undoes_joining(
    a: LoopView,
    ip: IpAddr,
    lid: LobbyKey,
    metadata: MetadataView,
    pid: BasicId,
    reason: Option<KickView>,
    t1: Moment,
    t2: Moment,
)
    requires
        a.consistent(),
        assoc::keyed(metadata),
        a.join_refusal(ip, lid, t1) is None,
        !a.has_player(pid),
    ensures
        ({
            let after = a.join_lobby(ip, lid, metadata, pid, t1).remove_player(pid, reason, t2);
            &&& after.has_lobby(lid)
            &&& after.lobby(lid).players == a.lobby(lid).players
            &&& after.lobby(lid).master == a.lobby(lid).master
            &&& forall|q: BasicId| #[trigger] after.has_player(q) <==> a.has_player(q)
        }),
{
    let op = OpView::JoinLobby { ip, lid, player_metadata: metadata };
    consistency::law_step_keeps_sense(a, op, t1, 0, pid);
    let joined = a.join_lobby(ip, lid, metadata, pid, t1);
    let asked = a.cap_ip(ip, t1);
    assert(a.step(op, t1, 0, pid) == joined);
    law_join_finds_room(a, ip, lid, metadata, pid, t1);
    consistency::law_step_keeps_sense(
        a,
        OpView::ListLobbies { ip, gid: lid.gid, limit: 0 },
        t1,
        0,
        0,
    );
    assert(asked.consistent());
    law_newcomer_meets_everybody(asked, lid, pid, metadata, t1);
    let ids = a.lobby(lid).players;
    assert(consistency::alive(a.lobby(lid)));
    assert(!ids.contains(pid)) by {
        if ids.contains(pid) {
            assert(assoc::value(a.lobbies, lid).players.contains(pid));
        }
    }
    assert(ids.push(pid).drop_last() =~= ids);
    assert(id::without_id(ids.push(pid), pid) == ids) by {
        reveal(Seq::filter);
        lemma_without_absent(ids, pid);
    }
    assert(joined.has_player(pid));
    let joined_lobby = a.lobby(lid).entered(pid);
    assoc::lemma_put_value(a.lobbies, lid, joined_lobby);
    assert(joined.lobby(lid) == joined_lobby);
    assert(joined.player(pid).lid == lid) by {
        assert(joined_lobby.players[ids.len() as int] == pid);
        assert(assoc::value(joined.lobbies, lid).players.contains(pid));
    }
    law_leaver_is_gone(joined, pid, reason, t2);
    let after = joined.remove_player(pid, reason, t2);
    assert(a.lobby(lid).master != pid);
    assert forall|q: BasicId| #[trigger] after.has_player(q) <==> a.has_player(q) by {
        if q != pid {
            assert(after.has_player(q) <==> joined.has_player(q));
            if a.has_player(q) {
                assert(asked.has_player(q));
            }
            if joined.has_player(q) {
                lemma_met_keeps_people(asked, lid, pid, metadata, t1, q);
            }
        }
    }
}

/// A number that is not there cannot be taken out.
pub proof fn lemma_without_absent(ids: Seq<BasicId>, pid: BasicId)
    requires
        !ids.contains(pid),
    ensures
        id::without_id(ids, pid) == ids,
    decreases ids.len(),
{
    reveal(Seq::filter);
    if ids.len() > 0 {
        assert(ids[ids.len() - 1] != pid);
        assert(!ids.drop_last().contains(pid)) by {
            if ids.drop_last().contains(pid) {
                let k = choose|k: int| 0 <= k < ids.len() - 1 && ids.drop_last()[k] == pid;
                assert(ids[k] == pid);
            }
        }
        lemma_without_absent(ids.drop_last(), pid);
        assert(ids.drop_last().push(ids.last()) =~= ids);
    }
}

/// Nobody but the newcomer comes in with the newcomer.
proof fn lemma_met_keeps_people(
    a: LoopView,
    lid: LobbyKey,
    pid: BasicId,
    metadata: MetadataView,
    now: Moment,
    q: BasicId,
)
    requires
        a.consistent(),
        a.has_lobby(lid),
        !a.has_player(pid),
        q != pid,
        a.insert_player(pid, lid, metadata, now).has_player(q),
    ensures
        a.has_player(q),
{
    let lobby = a.lobby(lid);
    let others = lobby.players;
    let news = ServerMessageView::Joined { pid, metadata, birth: lobby.age(now) };
    let player = PlayerView {
        lid,
        metadata,
        outbox: model::welcome(lobby, a.ice_servers, lid.lid, pid, lobby.age(now)),
        birth: lobby.age(now),
        metadata_budget: BucketView::fresh_metadata("player_metadata"@, now),
    };
    let arrived = assoc::put(a.players, pid, player);
    assoc::lemma_put_value(a.players, pid, player);
    assert(assoc::value(a.lobbies, lid).players.no_duplicates());
    assert forall|i: int| 0 <= i < others.len() implies assoc::has(arrived, #[trigger] others[i])
        && others[i] != pid by {
        assert(assoc::value(a.lobbies, lid).players.contains(others[i]));
        assert(assoc::has(a.players, others[i]));
    }
    lemma_met(arrived, others, pid, news);
    assert(assoc::has(arrived, q));
}

} // verus!
