//! How players come into a lobby of the event-loop server and leave it, field by field.

use crate::assoc;
use crate::blaster::consistency;
use crate::blaster::effects;
use crate::blaster::laws;
use crate::blaster::listings;
use crate::blaster::model;
use crate::blaster::model::{
    IceServerView, Index, Lobbies, LobbyView, LoopView, OpView, PeerView, PlayerView, Players,
    ReplyView,
};
use crate::blaster::payloads::ServerMessageView;
use crate::clock::Moment;
use crate::id;
use crate::id::{BasicId, IpAddr, LobbyKey};
use crate::picking;
use crate::protocol::aux::MetadataView;
use crate::protocol::payloads::KickView;
use crate::tokens::BucketView;
use vstd::prelude::*;

verus! {

/// Whether somebody at the address is served: a session has come from it, and it has not been
/// served too often of late.
pub open spec fn served(a: LoopView, ip: IpAddr, now: Moment) -> bool {
    a.has_peer(ip) && a.peer(ip).sessions_budget.affords(1, now)
}

/// The messages begin with those that a newcomer to the lobby gets: whether it is listed, how many
/// players it holds, each of its fields, who its master is, and how to reach the others.
pub open spec fn greeted(
    outbox: Seq<ServerMessageView>,
    lobby: LobbyView,
    ice_servers: Seq<IceServerView>,
    lid: BasicId,
    pid: BasicId,
    birth: u128,
) -> bool {
    let fields = lobby.metadata.len() as int;
    &&& outbox.len() >= fields + 4
    &&& outbox[0] == (ServerMessageView::SetListed { listed: lobby.listed })
    &&& outbox[1] == (ServerMessageView::SetCapacity { capacity: lobby.capacity })
    &&& forall|i: int|
        0 <= i < fields ==> #[trigger] outbox[i + 2] == (ServerMessageView::SetLobbyMeta {
            key: lobby.metadata[i].0,
            value: lobby.metadata[i].1,
        })
    &&& outbox[fields + 2] == (ServerMessageView::SetMaster { pid: lobby.master })
    &&& outbox[fields + 3] == (ServerMessageView::Connected { ice_servers, lid, pid, birth })
}

/// The messages end with the news of each of the players.
pub open spec fn introduced(
    outbox: Seq<ServerMessageView>,
    players: Players,
    ids: Seq<BasicId>,
) -> bool {
    &&& outbox.len() >= ids.len()
    &&& forall|j: int|
        0 <= j < ids.len() ==> #[trigger] outbox[outbox.len() - ids.len() + j] == (
        ServerMessageView::Joined {
            pid: ids[j],
            metadata: assoc::value(players, ids[j]).metadata,
            birth: assoc::value(players, ids[j]).birth,
        })
}

/// `age` is how many whole milliseconds have passed from one moment to the other.
pub open spec fn milliseconds(since: Moment, now: Moment, age: u128) -> bool {
    if since <= now {
        age * 1_000_000 <= now - since < (age + 1) * 1_000_000
    } else {
        age == 0
    }
}

/// The budget for metadata that a lobby or a player starts out with.
pub open spec fn metadata_budget(identifier: Seq<char>, now: Moment) -> BucketView {
    BucketView {
        identifier,
        tokens: 8192 * 1_000_000_000,
        last_refill: now,
        rate: 4096,
        max: 8192,
    }
}

/// Sending messages leaves everybody in their place.
proof fn lemma_met_places(
    players: Players,
    others: Seq<BasicId>,
    pid: BasicId,
    newcomer: ServerMessageView,
)
    ensures
        model::met(players, others, pid, newcomer).len() == players.len(),
        forall|i: int|
            0 <= i < players.len() ==> (#[trigger] model::met(
                players,
                others,
                pid,
                newcomer,
            )[i]).0 == players[i].0,
    decreases others.len(),
{
    if others.len() > 0 {
        let fewer = others.drop_last();
        lemma_met_places(players, fewer, pid, newcomer);
        let earlier = model::met(players, fewer, pid, newcomer);
        let news = model::joined_msg(others.last(), assoc::value(earlier, others.last()));
        lemma_sent_places(earlier, pid, news);
        lemma_sent_places(model::sent(earlier, pid, news), others.last(), newcomer);
        lemma_sent_places(earlier, others.last(), newcomer);
    }
}

/// Sending a message leaves everybody in their place.
proof fn lemma_sent_places(players: Players, to: BasicId, msg: ServerMessageView)
    ensures
        model::sent(players, to, msg).len() == players.len(),
        forall|i: int|
            0 <= i < players.len() ==> (#[trigger] model::sent(players, to, msg)[i]).0
                == players[i].0,
{
    if assoc::has(players, to) {
        assert(players[assoc::place(players, to)].0 == to);
    }
}

/// A lobby's age in milliseconds.
proof fn lemma_age(lobby: LobbyView, now: Moment)
    ensures
        milliseconds(lobby.created_at, now, lobby.age(now)),
{
    if lobby.created_at <= now {
        let d = (now - lobby.created_at) as nat;
        assert(lobby.age(now) == d / 1_000_000);
    }
}

/// Why somebody who wants to join a lobby may not: they are not served, there is no such lobby, or
/// there are as many players in it as it holds; else they are let in, under the number `pid`.
pub proof fn law_answer_to_joining(
    a: LoopView,
    ip: IpAddr,
    lid: LobbyKey,
    player_metadata: MetadataView,
    pid: BasicId,
    now: Moment,
)
    ensures
        a.reply(OpView::JoinLobby { ip, lid, player_metadata }, now, pid) == ReplyView::Pid(
            if !served(a, ip, now) {
                Err(
                    KickView::Violation { code: "rate_limited"@, msg: "Sessions per IP cap"@ },
                )
            } else if !a.has_lobby(lid) {
                Err(KickView::Violation { code: "lobby_not_found"@, msg: "Lobby not found"@ })
            } else if a.lobby(lid).players.len() >= a.lobby(lid).capacity {
                Err(KickView::Violation { code: "lobby_full"@, msg: "Lobby is full"@ })
            } else {
                Ok(pid)
            },
        ),
{
}

/// Whoever is not let into a lobby changes nothing but that their address's budget was asked.
pub proof fn law_refused_entry_changes_nothing(
    a: LoopView,
    op: OpView,
    ip: IpAddr,
    lid: BasicId,
    pid: BasicId,
    now: Moment,
)
    requires
        a.named(),
        match op {
            OpView::HostLobby { initiator, .. } => initiator == ip,
            OpView::JoinLobby { ip: from, .. } => from == ip,
            _ => false,
        },
        !(a.reply(op, now, pid) matches ReplyView::Pid(Ok(_))),
    ensures
        ({
            let b = a.step(op, now, lid, pid);
            &&& b.lobbies == a.lobbies
            &&& b.players == a.players
            &&& b.gid_lobbies == a.gid_lobbies
            &&& b.ice_servers == a.ice_servers
            &&& address_asked(a, b, ip, now)
        }),
{
    listings::lemma_served(a, ip, now);
}

/// The address's budget was asked for one service, and all other addresses are as before.
pub open spec fn address_asked(a: LoopView, b: LoopView, ip: IpAddr, now: Moment) -> bool {
    &&& listings::other_peers_kept(a.peers, b.peers, ip)
    &&& a.has_peer(ip) ==> b.has_peer(ip) && b.peer(ip) == (PeerView {
        sessions_budget: a.peer(ip).sessions_budget.asked(1, now),
        ..a.peer(ip)
    })
}

/// Whoever is let into a lobby is its last player; the lobby does not count as idle any more and is
/// otherwise as before; the newcomer is told all about the lobby and of each player in it, in this
/// order, and nothing else; each of those is told of the newcomer; and nothing else changes.
pub proof fn law_joining(
    a: LoopView,
    ip: IpAddr,
    lid: LobbyKey,
    player_metadata: MetadataView,
    pid: BasicId,
    now: Moment,
)
    requires
        a.consistent(),
        assoc::keyed(player_metadata),
        !a.has_player(pid),
        a.reply(OpView::JoinLobby { ip, lid, player_metadata }, now, pid) == ReplyView::Pid(
            Ok(pid),
        ),
    ensures
        ({
            let b = a.step(OpView::JoinLobby { ip, lid, player_metadata }, now, 0, pid);
            let l = a.lobby(lid);
            let me = b.player(pid);
            &&& b.has_lobby(lid)
            &&& b.lobby(lid) == (LobbyView {
                players: l.players.push(pid),
                idle_since: None,
                ..l
            })
            &&& effects::other_lobbies_kept(a.lobbies, b.lobbies, lid)
            &&& b.has_player(pid)
            &&& me.lid == lid
            &&& me.metadata == player_metadata
            &&& milliseconds(l.created_at, now, me.birth)
            &&& me.metadata_budget == metadata_budget("player_metadata"@, now)
            &&& me.outbox.len() == l.metadata.len() + 4 + l.players.len()
            &&& greeted(me.outbox, l, a.ice_servers, lid.lid, pid, me.birth)
            &&& introduced(me.outbox, a.players, l.players)
            &&& b.players.len() == a.players.len() + 1
            &&& b.players.last().0 == pid
            &&& effects::news(
                a.players,
                b.players.drop_last(),
                lid,
                ServerMessageView::Joined { pid, metadata: player_metadata, birth: me.birth },
            )
            &&& b.gid_lobbies == a.gid_lobbies
            &&& b.ice_servers == a.ice_servers
            &&& address_asked(a, b, ip, now)
        }),
{
    let c = a.cap_ip(ip, now);
    listings::lemma_served(a, ip, now);
    consistency::law_step_keeps_sense(
        a,
        OpView::ListLobbies { ip, gid: lid.gid, limit: 0 },
        now,
        0,
        0,
    );
    assert(c.consistent());
    lemma_entry(c, lid, player_metadata, pid, now);
    let l = a.lobby(lid);
    assert(consistency::alive(l));
    assert(!l.players.contains(pid)) by {
        if assoc::value(a.lobbies, lid).players.contains(pid) {
            assert(a.has_player(pid));
        }
    }
}

/// What comes of it when a player comes into a lobby.
proof fn lemma_entry(
    a: LoopView,
    lid: LobbyKey,
    metadata: MetadataView,
    pid: BasicId,
    now: Moment,
)
    requires
        a.consistent(),
        assoc::keyed(metadata),
        a.has_lobby(lid),
        !a.has_player(pid),
    ensures
        ({
            let b = a.insert_player(pid, lid, metadata, now);
            let l = a.lobby(lid);
            let me = b.player(pid);
            &&& b.has_lobby(lid)
            &&& b.lobby(lid) == l.entered(pid)
            &&& effects::other_lobbies_kept(a.lobbies, b.lobbies, lid)
            &&& b.has_player(pid)
            &&& me.lid == lid
            &&& me.metadata == metadata
            &&& me.birth == l.age(now)
            &&& milliseconds(l.created_at, now, me.birth)
            &&& me.metadata_budget == metadata_budget("player_metadata"@, now)
            &&& me.outbox.len() == l.metadata.len() + 4 + l.players.len()
            &&& greeted(me.outbox, l, a.ice_servers, lid.lid, pid, me.birth)
            &&& introduced(me.outbox, a.players, l.players)
            &&& b.players.len() == a.players.len() + 1
            &&& b.players.last().0 == pid
            &&& effects::news(
                a.players,
                b.players.drop_last(),
                lid,
                ServerMessageView::Joined { pid, metadata, birth: me.birth },
            )
        }),
{
    let b = a.insert_player(pid, lid, metadata, now);
    let l = a.lobby(lid);
    let birth = l.age(now);
    let player = PlayerView {
        lid,
        metadata,
        outbox: model::welcome(l, a.ice_servers, lid.lid, pid, birth),
        birth,
        metadata_budget: BucketView::fresh_metadata("player_metadata"@, now),
    };
    let arrived = assoc::put(a.players, pid, player);
    let news = ServerMessageView::Joined { pid, metadata, birth };
    laws::law_newcomer_meets_everybody(a, lid, pid, metadata, now);
    lemma_met_places(arrived, l.players, pid, news);
    assoc::lemma_put_value(a.players, pid, player);
    assoc::lemma_put_value(a.lobbies, lid, l.entered(pid));
    assoc::lemma_same_keys(arrived, b.players);
    assert(b.players.last().0 == pid);
    assoc::lemma_place(b.players, a.players.len() as int);
    laws::lemma_newcomer(a, lid, pid, metadata, now);
    lemma_age(l, now);
    let at = assoc::place(a.lobbies, lid);
    assert(a.lobbies[at].0 == lid);
    let me = b.player(pid);
    let welcome = model::welcome(l, a.ice_servers, lid.lid, pid, birth);
    let rest = laws::introductions(a.players, l.players);
    let fields = l.metadata.len() as int;
    assert(welcome.len() == fields + 4);
    assert forall|i: int| 0 <= i < fields implies #[trigger] me.outbox[i + 2] == (
    ServerMessageView::SetLobbyMeta { key: l.metadata[i].0, value: l.metadata[i].1 }) by {
        assert(model::field_msgs(l.metadata)[i] == model::field_msg(l.metadata[i]));
        assert(welcome[i + 2] == model::field_msgs(l.metadata)[i]);
    }
    assert forall|j: int| 0 <= j < l.players.len() implies #[trigger] me.outbox[me.outbox.len()
        - l.players.len() + j] == (ServerMessageView::Joined {
        pid: l.players[j],
        metadata: assoc::value(a.players, l.players[j]).metadata,
        birth: assoc::value(a.players, l.players[j]).birth,
    }) by {
        assert(me.outbox[fields + 4 + j] == rest[j]);
    }
    let before = b.players.drop_last();
    assert forall|i: int| 0 <= i < a.players.len() implies (#[trigger] before[i]).0
        == a.players[i].0 && if a.players[i].1.lid == lid {
        effects::got(a.players[i].1, before[i].1, news)
    } else {
        before[i].1 == a.players[i].1
    } by {
        let q = a.players[i].0;
        assert(arrived[i] == a.players[i]);
        assert(b.players[i].0 == q);
        assoc::lemma_place(a.players, i);
        assoc::lemma_place(b.players, i);
        assert(a.has_player(q));
        assert(b.player(q) == b.players[i].1);
        assert(a.players[i].1.outbox.push(news).drop_last() =~= a.players[i].1.outbox);
    }
}

/// A newcomer is told each field of the lobby, by name and value, before being connected.
pub proof fn law_newcomer_is_told_each_field(
    a: LoopView,
    ip: IpAddr,
    lid: LobbyKey,
    player_metadata: MetadataView,
    pid: BasicId,
    now: Moment,
    key: Seq<char>,
) -> (at: (int, int))
    requires
        a.consistent(),
        assoc::keyed(player_metadata),
        !a.has_player(pid),
        a.reply(OpView::JoinLobby { ip, lid, player_metadata }, now, pid) == ReplyView::Pid(
            Ok(pid),
        ),
        assoc::has(a.lobby(lid).metadata, key),
    ensures
        ({
            let b = a.step(OpView::JoinLobby { ip, lid, player_metadata }, now, 0, pid);
            let outbox = b.player(pid).outbox;
            &&& 0 <= at.0 < at.1 < outbox.len()
            &&& outbox[at.0] == (ServerMessageView::SetLobbyMeta {
                key,
                value: assoc::value(a.lobby(lid).metadata, key),
            })
            &&& outbox[at.1] is Connected
        }),
{
    law_joining(a, ip, lid, player_metadata, pid, now);
    let b = a.step(OpView::JoinLobby { ip, lid, player_metadata }, now, 0, pid);
    let meta = a.lobby(lid).metadata;
    let i = assoc::place(meta, key);
    assert(meta[i].0 == key);
    assert(b.player(pid).outbox[i + 2] is SetLobbyMeta);
    (i + 2, meta.len() as int + 3)
}

/// A newcomer is told as many fields as the lobby has.
pub proof fn law_newcomer_is_told_no_other_field(
    a: LoopView,
    ip: IpAddr,
    lid: LobbyKey,
    player_metadata: MetadataView,
    pid: BasicId,
    now: Moment,
    i: int,
)
    requires
        a.consistent(),
        assoc::keyed(player_metadata),
        !a.has_player(pid),
        a.reply(OpView::JoinLobby { ip, lid, player_metadata }, now, pid) == ReplyView::Pid(
            Ok(pid),
        ),
        0 <= i < a.step(OpView::JoinLobby { ip, lid, player_metadata }, now, 0, pid).player(
            pid,
        ).outbox.len(),
    ensures
        a.step(OpView::JoinLobby { ip, lid, player_metadata }, now, 0, pid).player(
            pid,
        ).outbox[i] is SetLobbyMeta <==> 2 <= i < a.lobby(lid).metadata.len() + 2,
{
    law_joining(a, ip, lid, player_metadata, pid, now);
    let l = a.lobby(lid);
    let outbox = a.step(OpView::JoinLobby { ip, lid, player_metadata }, now, 0, pid).player(
        pid,
    ).outbox;
    if 2 <= i < l.metadata.len() + 2 {
        assert(outbox[(i - 2) + 2] is SetLobbyMeta);
    } else if i >= l.metadata.len() + 4 {
        let j = i - l.metadata.len() - 4;
        assert(outbox[outbox.len() - l.players.len() + j] is Joined);
    }
}

/// Whether a lobby was opened from the address.
pub open spec fn opened_from(ip: IpAddr) -> spec_fn((LobbyKey, LobbyView)) -> bool {
    |e: (LobbyKey, LobbyView)| e.1.initiator == ip
}

/// Whether the lobby of the game that goes by the number is listed.
pub open spec fn listed_in(lobbies: Lobbies, gid: Seq<char>) -> spec_fn(BasicId) -> bool {
    |lid: BasicId|
        assoc::has(lobbies, LobbyKey { lid, gid }) && assoc::value(
            lobbies,
            LobbyKey { lid, gid },
        ).listed
}

/// The numbers of the lobbies of the game, in the order in which they were opened.
pub open spec fn numbers_of(index: Index, gid: Seq<char>) -> Seq<BasicId> {
    if assoc::has(index, gid) {
        assoc::value(index, gid)
    } else {
        seq![]
    }
}

/// Why somebody who wants to open a lobby may not: they are not served, a listed one was opened from
/// their address already and theirs is to be listed, four were opened from it already, or theirs is
/// to be listed and 32 of the game are; else they are let in, under the number `pid`.
pub proof fn law_answer_to_hosting(
    a: LoopView,
    ip: IpAddr,
    gid: Seq<char>,
    lobby_meta: MetadataView,
    capacity: usize,
    listed: bool,
    player_metadata: MetadataView,
    pid: BasicId,
    now: Moment,
)
    ensures
        a.reply(
            OpView::HostLobby {
                initiator: ip,
                gid,
                lobby_meta,
                capacity,
                listed,
                player_metadata,
            },
            now,
            pid,
        ) == ReplyView::Pid(
            if !served(a, ip, now) {
                Err(
                    KickView::Violation { code: "rate_limited"@, msg: "Sessions per IP cap"@ },
                )
            } else if (listed && exists|i: int|
                0 <= i < a.lobbies.len() && (#[trigger] a.lobbies[i]).1.initiator == ip
                    && a.lobbies[i].1.listed) || a.lobbies.filter(opened_from(ip)).len() >= 4 {
                Err(
                    KickView::Violation { code: "rate_limited"@, msg: "Lobbies per IP limit"@ },
                )
            } else if listed && numbers_of(a.gid_lobbies, gid).filter(
                listed_in(a.lobbies, gid),
            ).len() >= 32 {
                Err(
                    KickView::Violation { code: "rate_limited"@, msg: "Lobbies per GID limit"@ },
                )
            } else {
                Ok(pid)
            },
        ),
{
    picking::lemma_same_filter(a.lobbies, opened_from(ip), model::hosted_by(ip));
    picking::lemma_same_filter(numbers_of(a.gid_lobbies, gid), listed_in(a.lobbies, gid), a.listed(gid));
    let mine = a.lobbies.filter(model::listed_by(ip));
    if mine.len() > 0 {
        a.lobbies.lemma_filter_pred(model::listed_by(ip), 0);
        a.lobbies.lemma_filter_contains_rev(model::listed_by(ip), mine[0]);
        let k = choose|k: int| 0 <= k < a.lobbies.len() && a.lobbies[k] == mine[0];
        assert(a.lobbies[k].1.initiator == ip && a.lobbies[k].1.listed);
    }
    if exists|i: int|
        0 <= i < a.lobbies.len() && (#[trigger] a.lobbies[i]).1.initiator == ip
            && a.lobbies[i].1.listed {
        let i = choose|i: int|
            0 <= i < a.lobbies.len() && (#[trigger] a.lobbies[i]).1.initiator == ip
                && a.lobbies[i].1.listed;
        a.lobbies.lemma_filter_contains(model::listed_by(ip), i);
        assert(mine.contains(a.lobbies[i]));
    }
}

/// Whoever opens a lobby gets it as they asked for it, with themselves as its master and only
/// player; it is the newest of its game; its host is told all about it, and nothing else; and
/// nothing else changes.
pub proof fn law_hosting(
    a: LoopView,
    ip: IpAddr,
    gid: Seq<char>,
    lobby_meta: MetadataView,
    capacity: usize,
    listed: bool,
    player_metadata: MetadataView,
    lid: BasicId,
    pid: BasicId,
    now: Moment,
)
    requires
        a.consistent(),
        assoc::keyed(lobby_meta),
        assoc::keyed(player_metadata),
        !a.has_lobby(LobbyKey { lid, gid }),
        !a.has_player(pid),
        a.reply(
            OpView::HostLobby {
                initiator: ip,
                gid,
                lobby_meta,
                capacity,
                listed,
                player_metadata,
            },
            now,
            pid,
        ) == ReplyView::Pid(Ok(pid)),
    ensures
        ({
            let key = LobbyKey { lid, gid };
            let b = a.step(
                OpView::HostLobby {
                    initiator: ip,
                    gid,
                    lobby_meta,
                    capacity,
                    listed,
                    player_metadata,
                },
                now,
                lid,
                pid,
            );
            let l = LobbyView {
                players: seq![pid],
                initiator: ip,
                master: pid,
                metadata: lobby_meta,
                capacity,
                listed,
                idle_since: Some(now),
                created_at: now,
                alterations_budget: BucketView {
                    identifier: "alterations"@,
                    tokens: 2 * 1_000_000_000,
                    last_refill: now,
                    rate: 1,
                    max: 2,
                },
                metadata_budget: metadata_budget("lobby_metadata"@, now),
            };
            let me = b.player(pid);
            &&& b.lobbies == a.lobbies.push((key, l))
            &&& b.players == a.players.push((pid, me))
            &&& b.has_player(pid)
            &&& me.lid == key
            &&& me.metadata == player_metadata
            &&& me.birth == 0
            &&& me.metadata_budget == metadata_budget("player_metadata"@, now)
            &&& me.outbox.len() == lobby_meta.len() + 4
            &&& greeted(me.outbox, l, a.ice_servers, lid, pid, 0)
            &&& numbers_of(b.gid_lobbies, gid) == numbers_of(a.gid_lobbies, gid).push(lid)
            &&& forall|g: Seq<char>|
                g != gid ==> #[trigger] numbers_of(b.gid_lobbies, g) == numbers_of(a.gid_lobbies, g)
            &&& b.ice_servers == a.ice_servers
            &&& address_asked(a, b, ip, now)
        }),
{
    let key = LobbyKey { lid, gid };
    let op = OpView::HostLobby {
        initiator: ip,
        gid,
        lobby_meta,
        capacity,
        listed,
        player_metadata,
    };
    let b = a.step(op, now, lid, pid);
    let c = a.cap_ip(ip, now);
    listings::lemma_served(a, ip, now);
    let fresh = LobbyView::opened(ip, pid, lobby_meta, capacity, listed, now);
    let open = c.open_lobby(key, fresh);
    laws::law_host_is_alone_in_the_lobby(
        a,
        ip,
        gid,
        lobby_meta,
        capacity,
        listed,
        player_metadata,
        lid,
        pid,
        now,
    );
    assoc::lemma_put_value(c.lobbies, key, fresh);
    assert(!consistency::in_index(a.gid_lobbies, key));
    assoc::lemma_put_value(c.gid_lobbies, gid, id::with_id(c.lobbies_of(gid), lid));
    let birth = fresh.age(now);
    lemma_age(fresh, now);
    assert(birth == 0);
    let welcome = model::welcome(fresh, a.ice_servers, lid, pid, birth);
    let player = PlayerView {
        lid: key,
        metadata: player_metadata,
        outbox: welcome,
        birth,
        metadata_budget: BucketView::fresh_metadata("player_metadata"@, now),
    };
    assoc::lemma_put_value(a.players, pid, player);
    assert(fresh.players.len() == 0);
    assert(b.players == assoc::put(a.players, pid, player));
    assert(b.players =~= a.players.push((pid, player)));
    assoc::lemma_place(open.lobbies, a.lobbies.len() as int);
    assert(fresh.entered(pid).players =~= seq![pid]);
    assert(b.lobbies =~= a.lobbies.push((key, fresh.entered(pid))));
    let fields = lobby_meta.len() as int;
    assert(welcome.len() == fields + 4);
    assert forall|i: int| 0 <= i < fields implies #[trigger] welcome[i + 2] == (
    ServerMessageView::SetLobbyMeta { key: lobby_meta[i].0, value: lobby_meta[i].1 }) by {
        assert(model::field_msgs(lobby_meta)[i] == model::field_msg(lobby_meta[i]));
        assert(welcome[i + 2] == model::field_msgs(lobby_meta)[i]);
    }
    assert forall|g: Seq<char>| g != gid implies #[trigger] numbers_of(b.gid_lobbies, g)
        == numbers_of(a.gid_lobbies, g) by {
        assert(assoc::has(b.gid_lobbies, g) <==> assoc::has(a.gid_lobbies, g));
    }
    assert(a.lobbies_of(gid) == numbers_of(a.gid_lobbies, gid));
    assert(b.lobbies_of(gid) == numbers_of(b.gid_lobbies, gid));
}

/// Taking a number out of a set closes the gap that it leaves.
proof fn lemma_without_is_remove(ids: Seq<BasicId>, at: int)
    requires
        ids.no_duplicates(),
        0 <= at < ids.len(),
    ensures
        id::without_id(ids, ids[at]) == ids.remove(at),
    decreases ids.len(),
{
    reveal(Seq::filter);
    let shorter = ids.drop_last();
    let pid = ids[at];
    if at == ids.len() - 1 {
        laws::lemma_without_absent(shorter, pid);
        assert(ids.remove(at) =~= shorter);
    } else {
        assert(ids[ids.len() - 1] != pid);
        lemma_without_is_remove(shorter, at);
        assert(shorter[at] == pid);
        assert(ids.remove(at) =~= shorter.remove(at).push(ids.last()));
    }
}

/// If nobody is in one of the lobbies alone, sweeping the index takes that one out of it.
proof fn lemma_swept_one(index: Index, lobbies: Lobbies, lid: LobbyKey)
    requires
        assoc::keyed(lobbies),
        forall|i: int|
            0 <= i < lobbies.len() && (#[trigger] lobbies[i]).0 != lid ==> lobbies[i].1.players.len()
                > 0,
    ensures
        model::swept(index, lobbies) == if exists|i: int|
            0 <= i < lobbies.len() && (#[trigger] lobbies[i]).0 == lid && lobbies[i].1.players.len()
                == 0 {
            model::unindexed(index, lid)
        } else {
            index
        },
    decreases lobbies.len(),
{
    if lobbies.len() > 0 {
        let shorter = lobbies.drop_last();
        let n = lobbies.len() - 1;
        assert forall|i: int| 0 <= i < shorter.len() && (#[trigger] shorter[i]).0
            != lid implies shorter[i].1.players.len() > 0 by {
            assert(lobbies[i] == shorter[i]);
        }
        lemma_swept_one(index, shorter, lid);
        if lobbies[n].0 == lid {
            assert forall|i: int| 0 <= i < shorter.len() implies (#[trigger] shorter[i]).0 != lid by {
                assert(lobbies[i].0 != lobbies[n].0);
            }
        } else if exists|i: int|
            0 <= i < lobbies.len() && (#[trigger] lobbies[i]).0 == lid && lobbies[i].1.players.len()
                == 0 {
            let i = choose|i: int|
                0 <= i < lobbies.len() && (#[trigger] lobbies[i]).0 == lid
                    && lobbies[i].1.players.len() == 0;
            assert(shorter[i] == lobbies[i]);
        } else if exists|i: int|
            0 <= i < shorter.len() && (#[trigger] shorter[i]).0 == lid && shorter[i].1.players.len()
                == 0 {
            let i = choose|i: int|
                0 <= i < shorter.len() && (#[trigger] shorter[i]).0 == lid
                    && shorter[i].1.players.len() == 0;
            assert(lobbies[i] == shorter[i]);
        }
    }
}

/// When a player leaves, the others of their lobby close ranks and stay in it; if it was the master
/// who left, the one who has been there the longest of them is the next; if fewer than two are left,
/// the lobby counts as idle from then on, unless it did already; and it is otherwise as before. All
/// other lobbies and players are as before, and so is the index of lobbies.
pub proof fn law_leaving(
    a: LoopView,
    pid: BasicId,
    reason: Option<KickView>,
    now: Moment,
    at: int,
)
    requires
        a.consistent(),
        a.has_player(pid),
        a.lobby(a.player(pid).lid).players.len() > 1,
        0 <= at < a.lobby(a.player(pid).lid).players.len(),
        a.lobby(a.player(pid).lid).players[at] == pid,
    ensures
        ({
            let lid = a.player(pid).lid;
            let l = a.lobby(lid);
            let b = a.step(OpView::RemovePlayer { pid, reason }, now, 0, 0);
            let left = l.players.remove(at);
            &&& b.has_lobby(lid)
            &&& b.lobby(lid) == (LobbyView {
                players: left,
                master: if l.master == pid {
                    left[0]
                } else {
                    l.master
                },
                idle_since: if left.len() < 2 && l.idle_since is None {
                    Some(now)
                } else {
                    l.idle_since
                },
                ..l
            })
            &&& effects::other_lobbies_kept(a.lobbies, b.lobbies, lid)
            &&& surroundings_kept_by_leaving(a, b)
            &&& b.gid_lobbies == a.gid_lobbies
        }),
{
    let lid = a.player(pid).lid;
    let l = a.lobby(lid);
    let next = l.left(pid, now);
    let b = a.step(OpView::RemovePlayer { pid, reason }, now, 0, 0);
    assert(a.has_lobby(lid));
    assert(assoc::value(a.lobbies, lid).players.no_duplicates());
    lemma_without_is_remove(l.players, at);
    let put = assoc::put(a.lobbies, lid, next);
    assoc::lemma_put_value(a.lobbies, lid, next);
    let place = assoc::place(a.lobbies, lid);
    assert(a.lobbies[place].0 == lid);
    assert forall|i: int| 0 <= i < put.len() implies (#[trigger] put[i]).1.players.len() > 0 by {
        if i != place {
            assoc::lemma_place(a.lobbies, i);
            assert(a.has_lobby(a.lobbies[i].0));
            assert(consistency::alive(a.lobby(a.lobbies[i].0)));
        }
    }
    lemma_all_inhabited(put);
    assert(b.lobbies == put);
    lemma_swept_one(a.gid_lobbies, put, lid);
}

/// The addresses and the ICE servers are as before.
pub open spec fn surroundings_kept_by_leaving(a: LoopView, b: LoopView) -> bool {
    b.peers == a.peers && b.ice_servers == a.ice_servers
}

/// Where somebody is in every lobby, none is dropped.
proof fn lemma_all_inhabited(lobbies: Lobbies)
    requires
        forall|i: int| 0 <= i < lobbies.len() ==> (#[trigger] lobbies[i]).1.players.len() > 0,
    ensures
        lobbies.filter(model::inhabited()) == lobbies,
    decreases lobbies.len(),
{
    reveal(Seq::filter);
    if lobbies.len() > 0 {
        let shorter = lobbies.drop_last();
        assert forall|i: int| 0 <= i < shorter.len() implies (#[trigger] shorter[i]).1.players.len()
            > 0 by {
            assert(lobbies[i] == shorter[i]);
        }
        lemma_all_inhabited(shorter);
        assert(lobbies[lobbies.len() - 1].1.players.len() > 0);
        assert(shorter.push(lobbies.last()) =~= lobbies);
    }
}

/// Where nobody is in one lobby alone, that one is dropped.
proof fn lemma_one_dropped(lobbies: Lobbies, at: int)
    requires
        0 <= at < lobbies.len(),
        forall|i: int|
            0 <= i < lobbies.len() ==> ((#[trigger] lobbies[i]).1.players.len() > 0 <==> i != at),
    ensures
        lobbies.filter(model::inhabited()) == lobbies.remove(at),
    decreases lobbies.len(),
{
    reveal(Seq::filter);
    let shorter = lobbies.drop_last();
    if at == lobbies.len() - 1 {
        assert forall|i: int| 0 <= i < shorter.len() implies (#[trigger] shorter[i]).1.players.len()
            > 0 by {
            assert(lobbies[i] == shorter[i]);
        }
        lemma_all_inhabited(shorter);
        assert(lobbies[at].1.players.len() == 0);
        assert(lobbies.remove(at) =~= shorter);
    } else {
        assert forall|i: int| 0 <= i < shorter.len() implies ((#[trigger] shorter[
            i
        ]).1.players.len() > 0 <==> i != at) by {
            assert(lobbies[i] == shorter[i]);
        }
        lemma_one_dropped(shorter, at);
        assert(lobbies[lobbies.len() - 1].1.players.len() > 0);
        assert(lobbies.remove(at) =~= shorter.remove(at).push(lobbies.last()));
    }
}

/// When its last player leaves, a lobby ends: it is not there any more, nor among the lobbies of its
/// game, of which the others keep their order; and all other lobbies and players are as before.
pub proof fn law_last_one_ends_the_lobby(
    a: LoopView,
    pid: BasicId,
    reason: Option<KickView>,
    now: Moment,
    at: int,
    place: int,
)
    requires
        a.consistent(),
        a.has_player(pid),
        a.lobby(a.player(pid).lid).players.len() == 1,
        0 <= at < a.lobbies.len(),
        a.lobbies[at].0 == a.player(pid).lid,
        0 <= place < numbers_of(a.gid_lobbies, a.player(pid).lid.gid).len(),
        numbers_of(a.gid_lobbies, a.player(pid).lid.gid)[place] == a.player(pid).lid.lid,
    ensures
        ({
            let gid = a.player(pid).lid.gid;
            let b = a.step(OpView::RemovePlayer { pid, reason }, now, 0, 0);
            &&& b.lobbies == a.lobbies.remove(at)
            &&& numbers_of(b.gid_lobbies, gid) == numbers_of(a.gid_lobbies, gid).remove(place)
            &&& forall|g: Seq<char>|
                g != gid ==> #[trigger] numbers_of(b.gid_lobbies, g) == numbers_of(a.gid_lobbies, g)
            &&& surroundings_kept_by_leaving(a, b)
            &&& !b.has_player(pid)
            &&& forall|q: BasicId|
                q != pid ==> (#[trigger] b.has_player(q) <==> a.has_player(q))
            &&& forall|q: BasicId|
                q != pid && a.has_player(q) ==> #[trigger] b.player(q) == a.player(q)
        }),
{
    let lid = a.player(pid).lid;
    let gid = lid.gid;
    let l = a.lobby(lid);
    let next = l.left(pid, now);
    let b = a.step(OpView::RemovePlayer { pid, reason }, now, 0, 0);
    assert(a.has_lobby(lid));
    assert(l.players.contains(pid));
    let i = choose|i: int| 0 <= i < l.players.len() && l.players[i] == pid;
    assert(assoc::value(a.lobbies, lid).players.no_duplicates());
    lemma_without_is_remove(l.players, i);
    assert(next.players.len() == 0);
    let put = assoc::put(a.lobbies, lid, next);
    assoc::lemma_put_value(a.lobbies, lid, next);
    assoc::lemma_place(a.lobbies, at);
    assert(put[at] == (lid, next));
    assert forall|k: int| 0 <= k < put.len() implies ((#[trigger] put[k]).1.players.len() > 0 <==> k
        != at) by {
        if k != at {
            assoc::lemma_place(a.lobbies, k);
            assert(a.has_lobby(a.lobbies[k].0));
            assert(consistency::alive(a.lobby(a.lobbies[k].0)));
            assert(put[k] == a.lobbies[k]);
        }
    }
    lemma_one_dropped(put, at);
    assert(b.lobbies =~= a.lobbies.remove(at));
    lemma_swept_one(a.gid_lobbies, put, lid);
    assert(b.gid_lobbies == model::unindexed(a.gid_lobbies, lid));
    let ids = numbers_of(a.gid_lobbies, gid);
    assert(ids.no_duplicates());
    lemma_without_is_remove(ids, place);
    assoc::lemma_put_value(a.gid_lobbies, gid, ids.remove(place));
    assoc::lemma_without_value(a.gid_lobbies, gid);
    assert(ids.remove(place).len() == 0 ==> ids.remove(place) =~= seq![]);
    assert forall|g: Seq<char>| g != gid implies #[trigger] numbers_of(b.gid_lobbies, g)
        == numbers_of(a.gid_lobbies, g) by {
        assert(assoc::has(b.gid_lobbies, g) <==> assoc::has(a.gid_lobbies, g));
    }
    laws::law_leaver_is_gone(a, pid, reason, now);
    assert forall|q: BasicId| q != pid && a.has_player(q) implies #[trigger] b.player(q)
        == a.player(q) by {
        laws::law_departure_is_announced(a, pid, reason, now, q);
        if a.player(q).lid == lid {
            assert(assoc::has(a.players, q));
            assert(l.players.contains(q));
        }
    }
}

/// When a player leaves, they are gone; each of the others in the lobby is told who has left and
/// why, after being told who the new master is if it was the master who left; and everybody else is
/// as before.
pub proof fn law_others_learn_who_left(
    a: LoopView,
    pid: BasicId,
    reason: Option<KickView>,
    now: Moment,
    other: BasicId,
)
    requires
        a.consistent(),
        a.has_player(pid),
        a.has_player(other),
        other != pid,
    ensures
        ({
            let lid = a.player(pid).lid;
            let b = a.step(OpView::RemovePlayer { pid, reason }, now, 0, 0);
            let p = a.player(other);
            let left = ServerMessageView::Left { pid, reason };
            &&& !b.has_player(pid)
            &&& b.has_player(other)
            &&& b.player(other) == if p.lid != lid {
                p
            } else if a.lobby(lid).master == pid {
                PlayerView {
                    outbox: p.outbox.push(
                        ServerMessageView::SetMaster { pid: b.lobby(lid).master },
                    ).push(left),
                    ..p
                }
            } else {
                PlayerView { outbox: p.outbox.push(left), ..p }
            }
        }),
{
    laws::law_departure_is_announced(a, pid, reason, now, other);
}

/// Nobody can be made to leave who is not there.
pub proof fn law_strangers_do_not_leave(
    a: LoopView,
    pid: BasicId,
    reason: Option<KickView>,
    now: Moment,
)
    requires
        !a.has_player(pid),
    ensures
        a.step(OpView::RemovePlayer { pid, reason }, now, 0, 0) == a,
{
}

} // verus!
