//! What comes of each operation of the mailbox server, field by field: what changes, to what, and
//! that nothing else does.

use crate::assoc;
use crate::clock::Moment;
use crate::id::{BasicId, LobbyKey};
use crate::mailbox::laws;
use crate::mailbox::model;
use crate::mailbox::model::{
    BlasterView, Lobbies, LobbyView, OpView, PlayerView, Players, ReplyView,
};
use crate::picking;
use crate::protocol::aux;
use crate::protocol::payloads::{KickView, ServerMessageView};
use vstd::prelude::*;

verus! {

/// One more message waits for the player, behind the others, and nothing else of them has changed.
pub open spec fn got(before: PlayerView, after: PlayerView, msg: ServerMessageView) -> bool {
    &&& after.queue.len() == before.queue.len() + 1
    &&& after.queue.last() == msg
    &&& after.queue.drop_last() == before.queue
    &&& after.lid == before.lid
    &&& after.meta == before.meta
}

/// Everybody in the lobby, but for `but`, got the message; everybody else, but for `but`, is as
/// before; and everybody is there as before.
pub open spec fn news_to_others(
    before: Players,
    after: Players,
    lid: LobbyKey,
    msg: ServerMessageView,
    but: BasicId,
) -> bool {
    &&& after.len() == before.len()
    &&& forall|i: int|
        0 <= i < before.len() ==> (#[trigger] after[i]).0 == before[i].0 && (before[i].0 == but
            || if before[i].1.lid == lid {
            got(before[i].1, after[i].1, msg)
        } else {
            after[i].1 == before[i].1
        })
}

/// Everybody in the lobby got the message, everybody else is as before, and everybody is there as
/// before.
pub open spec fn news(
    before: Players,
    after: Players,
    lid: LobbyKey,
    msg: ServerMessageView,
) -> bool {
    &&& after.len() == before.len()
    &&& forall|i: int|
        0 <= i < before.len() ==> (#[trigger] after[i]).0 == before[i].0 && if before[i].1.lid
            == lid {
            got(before[i].1, after[i].1, msg)
        } else {
            after[i].1 == before[i].1
        }
}

/// The lobbies are the same, and all but `but` are as before.
pub open spec fn other_lobbies_kept(before: Lobbies, after: Lobbies, but: LobbyKey) -> bool {
    &&& after.len() == before.len()
    &&& forall|i: int|
        0 <= i < before.len() ==> (#[trigger] after[i]).0 == before[i].0 && (before[i].0 == but
            || after[i].1 == before[i].1)
}

/// The players are the same, and all but `but` are as before.
pub open spec fn other_players_kept(before: Players, after: Players, but: BasicId) -> bool {
    &&& after.len() == before.len()
    &&& forall|i: int|
        0 <= i < before.len() ==> (#[trigger] after[i]).0 == before[i].0 && (before[i].0 == but
            || after[i].1 == before[i].1)
}

/// A lobby is put in the place of the one that goes by its name.
pub proof fn lemma_lobby_put(lobbies: Lobbies, lid: LobbyKey, lobby: LobbyView)
    requires
        assoc::keyed(lobbies),
        assoc::has(lobbies, lid),
    ensures
        other_lobbies_kept(lobbies, assoc::put(lobbies, lid, lobby), lid),
        assoc::has(assoc::put(lobbies, lid, lobby), lid),
        assoc::value(assoc::put(lobbies, lid, lobby), lid) == lobby,
{
    assoc::lemma_put_value(lobbies, lid, lobby);
    let at = assoc::place(lobbies, lid);
    assert(lobbies[at].0 == lid);
    assert forall|i: int| 0 <= i < lobbies.len() && lobbies[i].0 != lid implies assoc::put(
        lobbies,
        lid,
        lobby,
    )[i] == lobbies[i] by {
        assert(i != at);
    }
}

/// Telling a lobby something is news to everybody in it.
pub proof fn lemma_news(players: Players, lid: LobbyKey, msg: ServerMessageView)
    ensures
        news(players, model::told(players, lid, msg), lid, msg),
{
    let after = model::told(players, lid, msg);
    assert forall|i: int| 0 <= i < players.len() implies (#[trigger] after[i]).0 == players[i].0
        && if players[i].1.lid == lid {
        got(players[i].1, after[i].1, msg)
    } else {
        after[i].1 == players[i].1
    } by {
        assert(players[i].1.queue.push(msg).drop_last() =~= players[i].1.queue);
    }
}

/// A lobby that is to hold so many players holds so many from then on, nothing else of it changes,
/// and everybody in it is told. A lobby that is not there does not change.
pub proof fn law_setting_capacity(a: BlasterView, lid: LobbyKey, capacity: usize, now: Moment)
    requires
        a.wf(),
    ensures
        ({
            let b = a.step(OpView::SetLobbyCapacity { lid, capacity }, now);
            if a.has_lobby(lid) {
                &&& b.has_lobby(lid)
                &&& b.lobby(lid) == (LobbyView { capacity, ..a.lobby(lid) })
                &&& other_lobbies_kept(a.lobbies, b.lobbies, lid)
                &&& news(a.players, b.players, lid, ServerMessageView::SetCapacity { capacity })
                &&& b.ice_servers == a.ice_servers
            } else {
                b == a
            }
        }),
{
    if a.has_lobby(lid) {
        lemma_lobby_put(a.lobbies, lid, LobbyView { capacity, ..a.lobby(lid) });
        lemma_news(a.players, lid, ServerMessageView::SetCapacity { capacity });
    }
}

/// A lobby that is to be listed, or not, is or is not from then on, nothing else of it changes, and
/// everybody in it is told. A lobby that is not there does not change.
pub proof fn law_setting_listed(a: BlasterView, lid: LobbyKey, listed: bool, now: Moment)
    requires
        a.wf(),
    ensures
        ({
            let b = a.step(OpView::SetLobbyListed { lid, listed }, now);
            if a.has_lobby(lid) {
                &&& b.has_lobby(lid)
                &&& b.lobby(lid) == (LobbyView { listed, ..a.lobby(lid) })
                &&& other_lobbies_kept(a.lobbies, b.lobbies, lid)
                &&& news(a.players, b.players, lid, ServerMessageView::SetListed { listed })
                &&& b.ice_servers == a.ice_servers
            } else {
                b == a
            }
        }),
{
    if a.has_lobby(lid) {
        lemma_lobby_put(a.lobbies, lid, LobbyView { listed, ..a.lobby(lid) });
        lemma_news(a.players, lid, ServerMessageView::SetListed { listed });
    }
}

/// A lobby that was just unlisted is shown to nobody.
pub proof fn law_unlisted_lobbies_are_hidden(
    a: BlasterView,
    lid: LobbyKey,
    limit: usize,
    t1: Moment,
    t2: Moment,
    i: int,
)
    requires
        a.wf(),
        a.has_lobby(lid),
    ensures
        match a.step(OpView::SetLobbyListed { lid, listed: false }, t1).reply(
            OpView::ListLobbies { gid: lid.gid, limit },
            t2,
        ) {
            ReplyView::Listing(list) => 0 <= i < list.len() ==> list[i].lid != lid.lid,
            _ => false,
        },
{
    let b = a.step(OpView::SetLobbyListed { lid, listed: false }, t1);
    law_setting_listed(a, lid, false, t1);
    let found = b.lobbies.filter(b.shown(lid.gid));
    let list = b.list_lobbies(lid.gid, limit);
    if 0 <= i < list.len() {
        b.lobbies.lemma_filter_pred(b.shown(lid.gid), i);
        b.lobbies.lemma_filter_contains_rev(b.shown(lid.gid), found[i]);
        let k = choose|k: int| 0 <= k < b.lobbies.len() && b.lobbies[k] == found[i];
        assoc::lemma_put_value(a.lobbies, lid, LobbyView { listed: false, ..a.lobby(lid) });
        assoc::lemma_place(b.lobbies, k);
        assert(list[i].lid == found[i].0.lid);
    }
}

/// One player changes, but not where they are, and everybody in their lobby is told something.
proof fn lemma_player_changed(
    a: BlasterView,
    pid: BasicId,
    set: PlayerView,
    msg: ServerMessageView,
)
    requires
        a.wf(),
        a.has_player(pid),
        set.lid == a.player(pid).lid,
    ensures
        ({
            let b = a.with_player(pid, set).telling(set.lid, msg);
            &&& b.has_player(pid)
            &&& b.player(pid) == (PlayerView { queue: set.queue.push(msg), ..set })
            &&& news_to_others(a.players, b.players, set.lid, msg, pid)
        }),
{
    let c = a.with_player(pid, set);
    let b = c.telling(set.lid, msg);
    let at = assoc::place(a.players, pid);
    assert(a.players[at].0 == pid);
    assoc::lemma_put_value(a.players, pid, set);
    assoc::lemma_same_keys(c.players, b.players);
    assoc::lemma_place(c.players, at);
    assert(c.players[at] == (pid, set));
    assert(b.players[at].0 == pid);
    assoc::lemma_place(b.players, at);
    lemma_news(c.players, set.lid, msg);
    assert forall|i: int| 0 <= i < a.players.len() implies (#[trigger] b.players[i]).0
        == a.players[i].0 && (a.players[i].0 == pid || if a.players[i].1.lid == set.lid {
        got(a.players[i].1, b.players[i].1, msg)
    } else {
        b.players[i].1 == a.players[i].1
    }) by {
        if i != at {
            assert(c.players[i] == a.players[i]);
        }
    }
}

/// A player who has room for a field sets it: it has the value that was given, all their other
/// fields are as before, everybody in the lobby is told the name and the value, and nothing else
/// changes. Where there is no such player, or no room, nothing changes.
pub proof fn law_player_sets_a_field(
    a: BlasterView,
    pid: BasicId,
    key: Seq<char>,
    value: Seq<char>,
    now: Moment,
)
    requires
        a.wf(),
    ensures
        ({
            let p = a.player(pid);
            let b = a.step(OpView::SetPlayerMeta { pid, key, value }, now);
            let msg = ServerMessageView::SetPlayerMeta { pid, key, value };
            if a.has_player(pid) && (assoc::has(p.meta, key) || p.meta.len() < 16) {
                &&& b.has_player(pid)
                &&& aux::field_set(p.meta, b.player(pid).meta, key, value)
                &&& b.player(pid).meta.len() == p.meta.len() + if assoc::has(p.meta, key) {
                    0int
                } else {
                    1
                }
                &&& b.player(pid).queue == p.queue.push(msg)
                &&& b.player(pid).lid == p.lid
                &&& news_to_others(a.players, b.players, p.lid, msg, pid)
                &&& b.lobbies == a.lobbies
                &&& b.ice_servers == a.ice_servers
            } else {
                b == a
            }
        }),
{
    let p = a.player(pid);
    if a.has_player(pid) {
        let set = PlayerView { meta: assoc::put(p.meta, key, value), ..p };
        lemma_player_changed(a, pid, set, ServerMessageView::SetPlayerMeta { pid, key, value });
        assert(assoc::keyed(a.players[assoc::place(a.players, pid)].1.meta));
        assoc::lemma_put_value(p.meta, key, value);
    }
}

/// A player erases one of their fields: it is gone, all their other fields are as before, everybody
/// in the lobby is told, and nothing else changes. Where there is no such player or field, nothing
/// changes.
pub proof fn law_player_erases_a_field(a: BlasterView, pid: BasicId, key: Seq<char>, now: Moment)
    requires
        a.wf(),
    ensures
        ({
            let p = a.player(pid);
            let b = a.step(OpView::ErasePlayerMeta { pid, key }, now);
            let msg = ServerMessageView::ErasePlayerMeta { pid, key };
            if a.has_player(pid) && assoc::has(p.meta, key) {
                &&& b.has_player(pid)
                &&& aux::field_erased(p.meta, b.player(pid).meta, key)
                &&& b.player(pid).meta.len() == p.meta.len() - 1
                &&& b.player(pid).queue == p.queue.push(msg)
                &&& b.player(pid).lid == p.lid
                &&& news_to_others(a.players, b.players, p.lid, msg, pid)
                &&& b.lobbies == a.lobbies
                &&& b.ice_servers == a.ice_servers
            } else {
                b == a
            }
        }),
{
    let p = a.player(pid);
    if a.has_player(pid) && assoc::has(p.meta, key) {
        let erased = PlayerView { meta: assoc::without(p.meta, key), ..p };
        lemma_player_changed(a, pid, erased, ServerMessageView::ErasePlayerMeta { pid, key });
        assert(assoc::keyed(a.players[assoc::place(a.players, pid)].1.meta));
        assoc::lemma_without_value(p.meta, key);
    }
}

/// A field of a lobby that has room for it is set: it has the value that was given, all its other
/// fields are as before, everybody in the lobby is told the name and the value, and nothing else
/// changes. Where there is no such lobby, or no room, nothing changes.
pub proof fn law_setting_a_field_of_a_lobby(
    a: BlasterView,
    lid: LobbyKey,
    key: Seq<char>,
    value: Seq<char>,
    now: Moment,
)
    requires
        a.wf(),
    ensures
        ({
            let l = a.lobby(lid);
            let b = a.step(OpView::SetLobbyMeta { lid, key, value }, now);
            if a.has_lobby(lid) && (assoc::has(l.meta, key) || l.meta.len() < 16) {
                &&& b.has_lobby(lid)
                &&& aux::field_set(l.meta, b.lobby(lid).meta, key, value)
                &&& b.lobby(lid).meta.len() == l.meta.len() + if assoc::has(l.meta, key) {
                    0int
                } else {
                    1
                }
                &&& b.lobby(lid) == (LobbyView { meta: b.lobby(lid).meta, ..l })
                &&& other_lobbies_kept(a.lobbies, b.lobbies, lid)
                &&& news(a.players, b.players, lid, ServerMessageView::SetLobbyMeta { key, value })
                &&& b.ice_servers == a.ice_servers
            } else {
                b == a
            }
        }),
{
    let l = a.lobby(lid);
    if a.has_lobby(lid) {
        lemma_lobby_put(a.lobbies, lid, LobbyView { meta: assoc::put(l.meta, key, value), ..l });
        lemma_news(a.players, lid, ServerMessageView::SetLobbyMeta { key, value });
        assert(assoc::keyed(a.lobbies[assoc::place(a.lobbies, lid)].1.meta));
        assoc::lemma_put_value(l.meta, key, value);
    }
}

/// A field of a lobby is erased: it is gone, all its other fields are as before, everybody in the
/// lobby is told, and nothing else changes. Where there is no such lobby or field, nothing changes.
pub proof fn law_erasing_a_field_of_a_lobby(
    a: BlasterView,
    lid: LobbyKey,
    key: Seq<char>,
    now: Moment,
)
    requires
        a.wf(),
    ensures
        ({
            let l = a.lobby(lid);
            let b = a.step(OpView::EraseLobbyMeta { lid, key }, now);
            if a.has_lobby(lid) && assoc::has(l.meta, key) {
                &&& b.has_lobby(lid)
                &&& aux::field_erased(l.meta, b.lobby(lid).meta, key)
                &&& b.lobby(lid).meta.len() == l.meta.len() - 1
                &&& b.lobby(lid) == (LobbyView { meta: b.lobby(lid).meta, ..l })
                &&& other_lobbies_kept(a.lobbies, b.lobbies, lid)
                &&& news(a.players, b.players, lid, ServerMessageView::EraseLobbyMeta { key })
                &&& b.ice_servers == a.ice_servers
            } else {
                b == a
            }
        }),
{
    let l = a.lobby(lid);
    if a.has_lobby(lid) && assoc::has(l.meta, key) {
        lemma_lobby_put(a.lobbies, lid, LobbyView { meta: assoc::without(l.meta, key), ..l });
        lemma_news(a.players, lid, ServerMessageView::EraseLobbyMeta { key });
        assert(assoc::keyed(a.lobbies[assoc::place(a.lobbies, lid)].1.meta));
        assoc::lemma_without_value(l.meta, key);
    }
}

/// A message to a player waits for them, and nothing else changes. To nobody who is not there can
/// anything be sent.
pub proof fn law_sending(a: BlasterView, pid: BasicId, msg: ServerMessageView, now: Moment)
    requires
        a.wf(),
    ensures
        sent_alone(a, a.step(OpView::SendTo { pid, msg }, now), pid, msg, a.has_player(pid)),
{
    lemma_sent(a, pid, msg);
}

/// If it was sent, the message waits for the player, and nothing else has changed; if not, nothing
/// has.
pub open spec fn sent_alone(
    a: BlasterView,
    b: BlasterView,
    pid: BasicId,
    msg: ServerMessageView,
    sent: bool,
) -> bool {
    if sent {
        &&& b.has_player(pid)
        &&& got(a.player(pid), b.player(pid), msg)
        &&& other_players_kept(a.players, b.players, pid)
        &&& b.lobbies == a.lobbies
        &&& b.ice_servers == a.ice_servers
    } else {
        b == a
    }
}

/// What a message to one player comes to.
proof fn lemma_sent(a: BlasterView, pid: BasicId, msg: ServerMessageView)
    requires
        a.wf(),
    ensures
        sent_alone(
            a,
            BlasterView { players: model::sent(a.players, pid, msg), ..a },
            pid,
            msg,
            a.has_player(pid),
        ),
{
    if a.has_player(pid) {
        let p = a.player(pid);
        assoc::lemma_put_value(a.players, pid, p.posted(msg));
        assert(a.players[assoc::place(a.players, pid)].0 == pid);
        assert(p.queue.push(msg).drop_last() =~= p.queue);
    }
}

/// A player who is in the lobby is told that they were kicked, and nothing else changes. Nobody can
/// be kicked from a lobby that they are not in.
pub proof fn law_kicking(a: BlasterView, lid: LobbyKey, pid: BasicId, now: Moment)
    requires
        a.wf(),
    ensures
        sent_alone(
            a,
            a.step(OpView::KickPlayer { lid, pid }, now),
            pid,
            ServerMessageView::Disconnected {
                reason: KickView::Natural { code: "kick"@, msg: "Kicked by lobby's master"@ },
            },
            a.has_player(pid) && a.player(pid).lid == lid,
        ),
{
    lemma_sent(
        a,
        pid,
        ServerMessageView::Disconnected {
            reason: KickView::Natural { code: "kick"@, msg: "Kicked by lobby's master"@ },
        },
    );
}

/// Fetching a player's messages leaves none of them waiting, and changes nothing else.
pub proof fn law_fetching(a: BlasterView, pid: BasicId, now: Moment)
    requires
        a.wf(),
    ensures
        ({
            let op = OpView::FlushPlayerQueue { pid };
            let b = a.step(op, now);
            if a.has_player(pid) {
                &&& a.reply(op, now) == ReplyView::Queue(a.player(pid).queue)
                &&& b.has_player(pid)
                &&& b.player(pid).queue.len() == 0
                &&& b.player(pid) == (PlayerView { queue: b.player(pid).queue, ..a.player(pid) })
                &&& other_players_kept(a.players, b.players, pid)
                &&& b.lobbies == a.lobbies
                &&& b.ice_servers == a.ice_servers
            } else {
                a.reply(op, now) == ReplyView::Queue(seq![]) && b == a
            }
        }),
{
    if a.has_player(pid) {
        assoc::lemma_put_value(a.players, pid, PlayerView { queue: seq![], ..a.player(pid) });
        assert(a.players[assoc::place(a.players, pid)].0 == pid);
    }
}

/// Who is in the lobby.
pub open spec fn dwells(lid: LobbyKey) -> spec_fn((BasicId, PlayerView)) -> bool {
    |e: (BasicId, PlayerView)| e.1.lid == lid
}

/// How many players are in the lobby.
pub open spec fn headcount(players: Players, lid: LobbyKey) -> nat {
    players.filter(dwells(lid)).len()
}

/// The server counts the players in a lobby.
pub proof fn lemma_headcount(players: Players, lid: LobbyKey)
    ensures
        players.filter(dwells(lid)) == players.filter(model::in_lobby(lid)),
        headcount(players, lid) == model::players_in(players, lid),
{
    picking::lemma_same_filter(players, dwells(lid), model::in_lobby(lid));
}

/// Questions are answered truthfully, and change nothing: whether a lobby or a player is there,
/// whether there are as many players in a lobby as it holds, and whether it is a swarm.
pub proof fn law_answers_are_true(a: BlasterView, lid: LobbyKey, pid: BasicId, now: Moment)
    ensures
        a.reply(OpView::HasLobby { lid }, now) == ReplyView::Answer(assoc::has(a.lobbies, lid)),
        a.reply(OpView::HasPlayer { pid }, now) == ReplyView::Answer(assoc::has(a.players, pid)),
        a.reply(OpView::LobbyFull { lid }, now) == ReplyView::Answer(
            assoc::has(a.lobbies, lid) && headcount(a.players, lid) >= assoc::value(
                a.lobbies,
                lid,
            ).capacity,
        ),
        a.reply(OpView::LobbyIsSwarm { lid }, now) == ReplyView::Answer(
            assoc::has(a.lobbies, lid) && assoc::value(a.lobbies, lid).swarm,
        ),
        a.step(OpView::HasLobby { lid }, now) == a,
        a.step(OpView::HasPlayer { pid }, now) == a,
        a.step(OpView::LobbyFull { lid }, now) == a,
        a.step(OpView::LobbyIsSwarm { lid }, now) == a,
{
    lemma_headcount(a.players, lid);
}

/// `pid` is the first of the players who is in the lobby.
pub open spec fn first_of(players: Players, lid: LobbyKey, pid: BasicId) -> bool {
    exists|i: int|
        0 <= i < players.len() && (#[trigger] players[i]).0 == pid && players[i].1.lid == lid
            && forall|j: int| 0 <= j < i ==> (#[trigger] players[j]).1.lid != lid
}

/// `who` is the master of the lobby: who holds the post, if that player is around; else the one who
/// has been in the lobby the longest, if anybody is in it.
pub open spec fn rules(a: BlasterView, lid: LobbyKey, who: Option<BasicId>) -> bool {
    if !a.has_lobby(lid) {
        who is None
    } else if a.has_player(a.lobby(lid).master) {
        who == Some(a.lobby(lid).master)
    } else {
        match who {
            Some(pid) => first_of(a.players, lid, pid),
            None => forall|i: int| 0 <= i < a.players.len() ==> (#[trigger] a.players[i]).1.lid != lid,
        }
    }
}

/// Who holds the post of master of the lobby is `who`, if that is somebody; and nothing else has
/// changed.
pub open spec fn post_filled(
    a: BlasterView,
    b: BlasterView,
    lid: LobbyKey,
    who: Option<BasicId>,
) -> bool {
    match who {
        Some(pid) => {
            &&& b.has_lobby(lid)
            &&& b.lobby(lid) == (LobbyView { master: pid, ..a.lobby(lid) })
            &&& other_lobbies_kept(a.lobbies, b.lobbies, lid)
            &&& b.players == a.players
            &&& b.ice_servers == a.ice_servers
        },
        None => b == a,
    }
}

/// The server finds the master of a lobby.
pub proof fn lemma_rules(a: BlasterView, lid: LobbyKey)
    requires
        assoc::keyed(a.lobbies),
    ensures
        rules(a, lid, a.master_of(lid)),
        post_filled(a, a.mastered(lid), lid, a.master_of(lid)),
{
    if a.has_lobby(lid) {
        if !a.has_player(a.lobby(lid).master) {
            let p = model::in_lobby(lid);
            if a.players.filter(p).len() > 0 {
                let i = picking::lemma_filter_first(a.players, p);
                assert forall|j: int| 0 <= j < i implies (#[trigger] a.players[j]).1.lid != lid by {
                    assert(!p(a.players[j]));
                }
                assert(first_of(a.players, lid, a.players[i].0));
            } else {
                assert forall|i: int| 0 <= i < a.players.len() implies (#[trigger] a.players[
                    i
                ]).1.lid != lid by {
                    if a.players[i].1.lid == lid {
                        a.players.lemma_filter_contains(p, i);
                    }
                }
            }
        }
        if let Some(master) = a.master_of(lid) {
            lemma_lobby_put(a.lobbies, lid, LobbyView { master, ..a.lobby(lid) });
        }
    }
}

/// The server names the master of a lobby, who holds the post from then on; and nothing else
/// changes.
pub proof fn law_naming_the_master(a: BlasterView, lid: LobbyKey, now: Moment)
    requires
        a.wf(),
    ensures
        match a.reply(OpView::MasterOf { lid }, now) {
            ReplyView::Master(who) => rules(a, lid, who) && post_filled(
                a,
                a.step(OpView::MasterOf { lid }, now),
                lid,
                who,
            ),
            _ => false,
        },
{
    lemma_rules(a, lid);
}

/// The master of a lobby hands the post to somebody else in it: that is who holds it from then on,
/// nothing else of the lobby changes, and everybody in it is told. Nobody else can hand it on.
pub proof fn law_handing_the_post_on(
    a: BlasterView,
    initiator: BasicId,
    new: BasicId,
    now: Moment,
    who: Option<BasicId>,
)
    requires
        a.wf(),
        a.has_player(new),
        rules(a, a.player(new).lid, who),
    ensures
        ({
            let lid = a.player(new).lid;
            let b = a.step(
                OpView::SetLobbyMaster { initiator_pid: initiator, new_master_pid: new },
                now,
            );
            if who == Some(initiator) && new != initiator {
                &&& b.has_lobby(lid)
                &&& b.lobby(lid) == (LobbyView { master: new, ..a.lobby(lid) })
                &&& other_lobbies_kept(a.lobbies, b.lobbies, lid)
                &&& news(a.players, b.players, lid, ServerMessageView::SetMaster { pid: new })
                &&& b.ice_servers == a.ice_servers
            } else {
                post_filled(a, b, lid, who)
            }
        }),
{
    let lid = a.player(new).lid;
    lemma_rules(a, lid);
    lemma_one_rules(a, lid, who, a.master_of(lid));
    if who == Some(initiator) && new != initiator {
        let asked = a.mastered(lid);
        let set = LobbyView { master: new, ..asked.lobby(lid) };
        assoc::lemma_put_value(a.lobbies, lid, LobbyView { master: initiator, ..a.lobby(lid) });
        lemma_lobby_put(asked.lobbies, lid, set);
        lemma_news(a.players, lid, ServerMessageView::SetMaster { pid: new });
    }
}

/// Nobody can hand on a post to somebody who is not there.
pub proof fn law_post_stays(a: BlasterView, initiator: BasicId, new: BasicId, now: Moment)
    requires
        !a.has_player(new),
    ensures
        a.step(OpView::SetLobbyMaster { initiator_pid: initiator, new_master_pid: new }, now) == a,
{
}

/// A lobby has one master.
pub proof fn lemma_one_rules(
    a: BlasterView,
    lid: LobbyKey,
    x: Option<BasicId>,
    y: Option<BasicId>,
)
    requires
        rules(a, lid, x),
        rules(a, lid, y),
    ensures
        x == y,
{
    if a.has_lobby(lid) && !a.has_player(a.lobby(lid).master) {
        if x is Some && y is Some {
            let i = choose|i: int|
                0 <= i < a.players.len() && (#[trigger] a.players[i]).0 == x->0
                    && a.players[i].1.lid == lid && forall|j: int|
                    0 <= j < i ==> (#[trigger] a.players[j]).1.lid != lid;
            let k = choose|k: int|
                0 <= k < a.players.len() && (#[trigger] a.players[k]).0 == y->0
                    && a.players[k].1.lid == lid && forall|j: int|
                    0 <= j < k ==> (#[trigger] a.players[j]).1.lid != lid;
            assert(i == k);
        }
    }
}

/// A lobby is there as it was put there, in the place of the one that went by its name if there was
/// one; and nothing else changes.
pub proof fn law_opening(a: BlasterView, lid: LobbyKey, lobby: LobbyView, now: Moment)
    requires
        a.wf(),
    ensures
        ({
            let b = a.step(OpView::InsertLobby { lid, lobby }, now);
            &&& b.has_lobby(lid)
            &&& b.lobby(lid) == lobby
            &&& a.has_lobby(lid) ==> other_lobbies_kept(a.lobbies, b.lobbies, lid)
            &&& !a.has_lobby(lid) ==> b.lobbies == a.lobbies.push((lid, lobby))
            &&& b.players == a.players
            &&& b.ice_servers == a.ice_servers
        }),
{
    assoc::lemma_put_value(a.lobbies, lid, lobby);
    if a.has_lobby(lid) {
        lemma_lobby_put(a.lobbies, lid, lobby);
    }
}

/// A lobby is dropped exactly if nobody is in it; the others are as before; and nothing else
/// changes.
pub proof fn law_dropping_lobbies(a: BlasterView, lid: LobbyKey, now: Moment)
    requires
        a.wf(),
    ensures
        ({
            let b = a.step(OpView::CleanupLobbies, now);
            &&& b.has_lobby(lid) <==> a.has_lobby(lid) && exists|i: int|
                0 <= i < a.players.len() && (#[trigger] a.players[i]).1.lid == lid
            &&& b.has_lobby(lid) ==> b.lobby(lid) == a.lobby(lid)
            &&& b.players == a.players
            &&& b.ice_servers == a.ice_servers
        }),
{
    laws::law_cleanup_keeps_inhabited_lobbies(a, lid);
    let p = model::in_lobby(lid);
    let found = a.players.filter(p);
    if found.len() > 0 {
        a.players.lemma_filter_pred(p, 0);
        a.players.lemma_filter_contains_rev(p, found[0]);
        let k = choose|k: int| 0 <= k < a.players.len() && a.players[k] == found[0];
        assert(a.players[k].1.lid == lid);
    }
    if exists|i: int| 0 <= i < a.players.len() && (#[trigger] a.players[i]).1.lid == lid {
        let i = choose|i: int| 0 <= i < a.players.len() && (#[trigger] a.players[i]).1.lid == lid;
        a.players.lemma_filter_contains(p, i);
    }
}

/// A look at a lobby's timer: it runs from the first look that finds exactly one player there, and
/// stops with any look that finds fewer or more; who is found there ten minutes after it began to
/// run is to go. Nothing else changes.
pub proof fn law_looking_at_the_timer(a: BlasterView, lid: LobbyKey, now: Moment)
    requires
        a.wf(),
    ensures
        ({
            let op = OpView::AdvanceLobbyTimer { lid };
            let b = a.step(op, now);
            let l = a.lobby(lid);
            if !a.has_lobby(lid) {
                a.reply(op, now) == ReplyView::Nothing && b == a
            } else {
                &&& b.has_lobby(lid)
                &&& b.lobby(lid) == (LobbyView {
                    death_timer: if headcount(a.players, lid) != 1 {
                        None
                    } else if l.death_timer is None {
                        Some(now)
                    } else {
                        l.death_timer
                    },
                    ..l
                })
                &&& other_lobbies_kept(a.lobbies, b.lobbies, lid)
                &&& b.players == a.players
                &&& b.ice_servers == a.ice_servers
                &&& a.reply(op, now) == ReplyView::Timer(
                    if headcount(a.players, lid) == 1 && (l.death_timer matches Some(start) && start
                        + 600 * 1_000_000_000 <= now) {
                        Some(
                            KickView::Natural {
                                code: "inactive_lobby"@,
                                msg: "Inactive lobby"@,
                            },
                        )
                    } else {
                        None
                    },
                )
            }
        }),
{
    lemma_headcount(a.players, lid);
    if a.has_lobby(lid) {
        let death_timer = if headcount(a.players, lid) != 1 {
            None
        } else if a.lobby(lid).death_timer is None {
            Some(now)
        } else {
            a.lobby(lid).death_timer
        };
        lemma_lobby_put(a.lobbies, lid, LobbyView { death_timer, ..a.lobby(lid) });
    }
}

/// What the server does not name as an answer, it does not answer.
pub proof fn law_orders_are_not_answered(a: BlasterView, op: OpView, now: Moment)
    requires
        match op {
            OpView::MasterOf { .. } => false,
            OpView::HasLobby { .. } => false,
            OpView::HasPlayer { .. } => false,
            OpView::LobbyFull { .. } => false,
            OpView::LobbyIsSwarm { .. } => false,
            OpView::ListLobbies { .. } => false,
            OpView::AdvanceLobbyTimer { .. } => false,
            OpView::FlushPlayerQueue { .. } => false,
            _ => true,
        },
    ensures
        a.reply(op, now) == ReplyView::Nothing,
{
}

} // verus!
