//! What comes of each operation of the event-loop server, field by field: what changes, to what,
//! and that nothing else does.

use crate::assoc;
use crate::blaster::model;
use crate::blaster::model::{Lobbies, LobbyView, LoopView, OpView, PlayerView, Players};
use crate::blaster::payloads::ServerMessageView;
use crate::clock::Moment;
use crate::id::{BasicId, LobbyKey};
use crate::protocol::aux;
use crate::protocol::payloads::KickView;
use crate::text;
use vstd::prelude::*;

verus! {

/// One more message is on its way to the player, behind the others, and nothing else of them has
/// changed.
pub open spec fn got(before: PlayerView, after: PlayerView, msg: ServerMessageView) -> bool {
    &&& after.outbox.len() == before.outbox.len() + 1
    &&& after.outbox.last() == msg
    &&& after.outbox.drop_last() == before.outbox
    &&& after.lid == before.lid
    &&& after.metadata == before.metadata
    &&& after.birth == before.birth
    &&& after.metadata_budget == before.metadata_budget
}

/// Everybody in the lobby, but for `but`, got the message; everybody else, but for `but`, is as
/// before; and everybody is there as before.
pub open spec fn news_to_others(
    before: Players,
    after: Players,
    lid: LobbyKey,
    msg: ServerMessageView,
    but: BasicId,
) -> bool {
    &&& after.len() == before.len()
    &&& forall|i: int|
        0 <= i < before.len() ==> (#[trigger] after[i]).0 == before[i].0 && (before[i].0 == but
            || if before[i].1.lid == lid {
            got(before[i].1, after[i].1, msg)
        } else {
            after[i].1 == before[i].1
        })
}

/// Everybody in the lobby got the message, everybody else is as before, and everybody is there as
/// before.
pub open spec fn news(
    before: Players,
    after: Players,
    lid: LobbyKey,
    msg: ServerMessageView,
) -> bool {
    &&& after.len() == before.len()
    &&& forall|i: int|
        0 <= i < before.len() ==> (#[trigger] after[i]).0 == before[i].0 && if before[i].1.lid
            == lid {
            got(before[i].1, after[i].1, msg)
        } else {
            after[i].1 == before[i].1
        }
}

/// The lobbies are the same, and all but `but` are as before.
pub open spec fn other_lobbies_kept(before: Lobbies, after: Lobbies, but: LobbyKey) -> bool {
    &&& after.len() == before.len()
    &&& forall|i: int|
        0 <= i < before.len() ==> (#[trigger] after[i]).0 == before[i].0 && (before[i].0 == but
            || after[i].1 == before[i].1)
}

/// The players are the same, and all but `but` are as before.
pub open spec fn other_players_kept(before: Players, after: Players, but: BasicId) -> bool {
    &&& after.len() == before.len()
    &&& forall|i: int|
        0 <= i < before.len() ==> (#[trigger] after[i]).0 == before[i].0 && (before[i].0 == but
            || after[i].1 == before[i].1)
}

/// The index of lobbies, the addresses and the ICE servers are as before.
pub open spec fn surroundings_kept(a: LoopView, b: LoopView) -> bool {
    b.gid_lobbies == a.gid_lobbies && b.peers == a.peers && b.ice_servers == a.ice_servers
}

/// A lobby is put in the place of the one that goes by its name.
proof fn lemma_lobby_put(lobbies: Lobbies, lid: LobbyKey, lobby: LobbyView)
    requires
        assoc::keyed(lobbies),
        assoc::has(lobbies, lid),
    ensures
        other_lobbies_kept(lobbies, assoc::put(lobbies, lid, lobby), lid),
        assoc::has(assoc::put(lobbies, lid, lobby), lid),
        assoc::value(assoc::put(lobbies, lid, lobby), lid) == lobby,
{
    assoc::lemma_put_value(lobbies, lid, lobby);
    let at = assoc::place(lobbies, lid);
    assert(lobbies[at].0 == lid);
    assert forall|i: int| 0 <= i < lobbies.len() && lobbies[i].0 != lid implies assoc::put(
        lobbies,
        lid,
        lobby,
    )[i] == lobbies[i] by {
        assert(i != at);
    }
}

/// Telling a lobby something is news to everybody in it.
proof fn lemma_news(players: Players, lid: LobbyKey, msg: ServerMessageView)
    ensures
        news(players, model::told(players, lid, msg), lid, msg),
{
    let after = model::told(players, lid, msg);
    assert forall|i: int| 0 <= i < players.len() implies (#[trigger] after[i]).0 == players[i].0
        && if players[i].1.lid == lid {
        got(players[i].1, after[i].1, msg)
    } else {
        after[i].1 == players[i].1
    } by {
        assert(players[i].1.outbox.push(msg).drop_last() =~= players[i].1.outbox);
    }
}

/// The master of a lobby sets how many players it may hold, from 1 to 16: that is what it holds
/// from then on, nothing else of the lobby changes but what is left of its budget, and everybody in
/// it is told.
pub proof fn law_master_sets_capacity(a: LoopView, pid: BasicId, capacity: usize, now: Moment)
    requires
        a.named(),
        a.has_player(pid),
        a.has_lobby(a.player(pid).lid),
        a.lobby(a.player(pid).lid).master == pid,
        a.lobby(a.player(pid).lid).alterations_budget.affords(1, now),
        1 <= capacity <= 16,
    ensures
        ({
            let lid = a.player(pid).lid;
            let b = a.step(OpView::SetCapacity { initiator: pid, capacity }, now, 0, 0);
            &&& b.has_lobby(lid)
            &&& b.lobby(lid) == (LobbyView {
                capacity,
                alterations_budget: a.lobby(lid).alterations_budget.asked(1, now),
                ..a.lobby(lid)
            })
            &&& other_lobbies_kept(a.lobbies, b.lobbies, lid)
            &&& news(a.players, b.players, lid, ServerMessageView::SetCapacity { capacity })
            &&& surroundings_kept(a, b)
        }),
{
    let lid = a.player(pid).lid;
    lemma_lobby_put(a.lobbies, lid, LobbyView { capacity, ..a.lobby(lid).altered(now) });
    lemma_news(a.players, lid, ServerMessageView::SetCapacity { capacity });
}

/// The master of a lobby has it listed or not: that is what it is from then on, nothing else of the
/// lobby changes but what is left of its budget, and everybody in it is told.
pub proof fn law_master_sets_listed(a: LoopView, pid: BasicId, listed: bool, now: Moment)
    requires
        a.named(),
        a.has_player(pid),
        a.has_lobby(a.player(pid).lid),
        a.lobby(a.player(pid).lid).master == pid,
        a.lobby(a.player(pid).lid).alterations_budget.affords(1, now),
    ensures
        ({
            let lid = a.player(pid).lid;
            let b = a.step(OpView::SetListed { initiator: pid, listed }, now, 0, 0);
            &&& b.has_lobby(lid)
            &&& b.lobby(lid) == (LobbyView {
                listed,
                alterations_budget: a.lobby(lid).alterations_budget.asked(1, now),
                ..a.lobby(lid)
            })
            &&& other_lobbies_kept(a.lobbies, b.lobbies, lid)
            &&& news(a.players, b.players, lid, ServerMessageView::SetListed { listed })
            &&& surroundings_kept(a, b)
        }),
{
    let lid = a.player(pid).lid;
    lemma_lobby_put(a.lobbies, lid, LobbyView { listed, ..a.lobby(lid).altered(now) });
    lemma_news(a.players, lid, ServerMessageView::SetListed { listed });
}

/// The master of a lobby hands the post to somebody else in it: that is who holds it from then on,
/// nothing else of the lobby changes but what is left of its budget, and everybody in it is told.
pub proof fn law_master_hands_the_post_on(
    a: LoopView,
    pid: BasicId,
    new_master: BasicId,
    now: Moment,
)
    requires
        a.named(),
        a.has_player(new_master),
        a.has_lobby(a.player(new_master).lid),
        a.lobby(a.player(new_master).lid).master == pid,
        a.lobby(a.player(new_master).lid).alterations_budget.affords(1, now),
        new_master != pid,
    ensures
        ({
            let lid = a.player(new_master).lid;
            let b = a.step(OpView::SetMaster { initiator: pid, new_master }, now, 0, 0);
            &&& b.has_lobby(lid)
            &&& b.lobby(lid) == (LobbyView {
                master: new_master,
                alterations_budget: a.lobby(lid).alterations_budget.asked(1, now),
                ..a.lobby(lid)
            })
            &&& other_lobbies_kept(a.lobbies, b.lobbies, lid)
            &&& news(a.players, b.players, lid, ServerMessageView::SetMaster { pid: new_master })
            &&& surroundings_kept(a, b)
        }),
{
    let lid = a.player(new_master).lid;
    lemma_lobby_put(
        a.lobbies,
        lid,
        LobbyView { master: new_master, ..a.lobby(lid).altered(now) },
    );
    lemma_news(a.players, lid, ServerMessageView::SetMaster { pid: new_master });
}

/// A lobby whose settings have changed too often of late keeps them: nobody is told anything, and
/// nothing changes but that the lobby's budget was asked.
pub proof fn law_settings_change_at_a_pace(a: LoopView, op: OpView, lid: LobbyKey, now: Moment)
    requires
        a.named(),
        a.has_lobby(lid),
        !a.lobby(lid).alterations_budget.affords(1, now),
        match op {
            OpView::SetCapacity { initiator, capacity } => a.has_player(initiator) && a.player(
                initiator,
            ).lid == lid && a.lobby(lid).master == initiator && 1 <= capacity <= 16,
            OpView::SetListed { initiator, .. } => a.has_player(initiator) && a.player(
                initiator,
            ).lid == lid && a.lobby(lid).master == initiator,
            OpView::SetMaster { initiator, new_master } => a.has_player(new_master) && a.player(
                new_master,
            ).lid == lid && a.lobby(lid).master == initiator && new_master != initiator,
            _ => false,
        },
    ensures
        ({
            let b = a.step(op, now, 0, 0);
            &&& b.players == a.players
            &&& b.has_lobby(lid)
            &&& b.lobby(lid) == (LobbyView {
                alterations_budget: a.lobby(lid).alterations_budget.asked(1, now),
                ..a.lobby(lid)
            })
            &&& other_lobbies_kept(a.lobbies, b.lobbies, lid)
            &&& surroundings_kept(a, b)
        }),
{
    lemma_lobby_put(a.lobbies, lid, a.lobby(lid).altered(now));
}

/// What is no change of a lobby's settings changes nothing: a capacity of no player, or of more
/// than 16, a post handed to its holder or to somebody who is not there, and any change that is
/// asked for by anybody but the lobby's master.
pub proof fn law_settings_are_the_masters(a: LoopView, op: OpView, now: Moment)
    requires
        match op {
            OpView::SetCapacity { initiator, capacity } => capacity < 1 || capacity > 16
                || !a.has_player(initiator) || !a.has_lobby(a.player(initiator).lid) || a.lobby(
                a.player(initiator).lid,
            ).master != initiator,
            OpView::SetListed { initiator, .. } => !a.has_player(initiator) || !a.has_lobby(
                a.player(initiator).lid,
            ) || a.lobby(a.player(initiator).lid).master != initiator,
            OpView::SetLobbyMeta { initiator, .. } => !a.has_player(initiator) || !a.has_lobby(
                a.player(initiator).lid,
            ) || a.lobby(a.player(initiator).lid).master != initiator,
            OpView::EraseLobbyMeta { initiator, .. } => !a.has_player(initiator) || !a.has_lobby(
                a.player(initiator).lid,
            ) || a.lobby(a.player(initiator).lid).master != initiator,
            OpView::SetMaster { initiator, new_master } => initiator == new_master
                || !a.has_player(new_master) || !a.has_lobby(a.player(new_master).lid) || a.lobby(
                a.player(new_master).lid,
            ).master != initiator,
            _ => false,
        },
    ensures
        a.step(op, now, 0, 0) == a,
{
}

/// A player who has room for a field and can afford its bytes sets it: it has the value that was
/// given, all their other fields are as before, everybody in the lobby is told the name and the
/// value, and nothing else changes but what is left of their budget.
pub proof fn law_player_sets_a_field(
    a: LoopView,
    pid: BasicId,
    key: Seq<char>,
    value: Seq<char>,
    now: Moment,
)
    requires
        a.named(),
        a.has_player(pid),
        assoc::has(a.player(pid).metadata, key) || a.player(pid).metadata.len() < 16,
        text::byte_len(key) + text::byte_len(value) <= usize::MAX,
        a.player(pid).metadata_budget.affords(text::byte_len(key) + text::byte_len(value), now),
    ensures
        ({
            let p = a.player(pid);
            let b = a.step(OpView::SetPlayerMeta { pid, key, value }, now, 0, 0);
            let msg = ServerMessageView::SetPlayerMeta { pid, key, value };
            &&& b.has_player(pid)
            &&& aux::field_set(p.metadata, b.player(pid).metadata, key, value)
            &&& b.player(pid).metadata.len() == p.metadata.len() + if assoc::has(p.metadata, key) {
                0int
            } else {
                1
            }
            &&& b.player(pid).outbox == p.outbox.push(msg)
            &&& b.player(pid).lid == p.lid
            &&& b.player(pid).birth == p.birth
            &&& b.player(pid).metadata_budget == p.metadata_budget.asked(
                text::byte_len(key) + text::byte_len(value),
                now,
            )
            &&& news_to_others(a.players, b.players, p.lid, msg, pid)
            &&& b.lobbies == a.lobbies
            &&& surroundings_kept(a, b)
        }),
{
    let p = a.player(pid);
    let price = text::byte_len(key) + text::byte_len(value);
    let set = PlayerView {
        metadata: assoc::put(p.metadata, key, value),
        metadata_budget: p.metadata_budget.asked(price, now),
        ..p
    };
    lemma_player_changed(a, pid, set, ServerMessageView::SetPlayerMeta { pid, key, value });
    assert(assoc::keyed(a.players[assoc::place(a.players, pid)].1.metadata));
    assoc::lemma_put_value(p.metadata, key, value);
}

/// One player changes, but not where they are, and everybody in their lobby is told something.
proof fn lemma_player_changed(a: LoopView, pid: BasicId, set: PlayerView, msg: ServerMessageView)
    requires
        a.named(),
        a.has_player(pid),
        set.lid == a.player(pid).lid,
    ensures
        ({
            let b = a.with_player(pid, set).telling(set.lid, msg);
            &&& b.has_player(pid)
            &&& b.player(pid) == (PlayerView { outbox: set.outbox.push(msg), ..set })
            &&& news_to_others(a.players, b.players, set.lid, msg, pid)
        }),
{
    let c = a.with_player(pid, set);
    let b = c.telling(set.lid, msg);
    let at = assoc::place(a.players, pid);
    assert(a.players[at].0 == pid);
    assoc::lemma_put_value(a.players, pid, set);
    assoc::lemma_same_keys(c.players, b.players);
    assoc::lemma_place(c.players, at);
    assert(c.players[at] == (pid, set));
    assert(b.players[at].0 == pid);
    assoc::lemma_place(b.players, at);
    lemma_news(c.players, set.lid, msg);
    assert forall|i: int| 0 <= i < a.players.len() implies (#[trigger] b.players[i]).0
        == a.players[i].0 && (a.players[i].0 == pid || if a.players[i].1.lid == set.lid {
        got(a.players[i].1, b.players[i].1, msg)
    } else {
        b.players[i].1 == a.players[i].1
    }) by {
        if i != at {
            assert(c.players[i] == a.players[i]);
        }
    }
}

/// A player who has as many fields as there may be, or cannot afford the bytes of a new one, keeps
/// the fields that they have, nobody is told anything, and nothing changes but that their budget
/// was asked if there was room.
pub proof fn law_fields_are_limited(
    a: LoopView,
    pid: BasicId,
    key: Seq<char>,
    value: Seq<char>,
    now: Moment,
)
    requires
        a.named(),
        a.has_player(pid),
        text::byte_len(key) + text::byte_len(value) <= usize::MAX,
        (!assoc::has(a.player(pid).metadata, key) && a.player(pid).metadata.len() >= 16)
            || !a.player(pid).metadata_budget.affords(
            text::byte_len(key) + text::byte_len(value),
            now,
        ),
    ensures
        ({
            let p = a.player(pid);
            let b = a.step(OpView::SetPlayerMeta { pid, key, value }, now, 0, 0);
            &&& b.has_player(pid)
            &&& b.player(pid) == if !assoc::has(p.metadata, key) && p.metadata.len() >= 16 {
                p
            } else {
                PlayerView {
                    metadata_budget: p.metadata_budget.asked(
                        text::byte_len(key) + text::byte_len(value),
                        now,
                    ),
                    ..p
                }
            }
            &&& other_players_kept(a.players, b.players, pid)
            &&& b.lobbies == a.lobbies
            &&& surroundings_kept(a, b)
        }),
{
    let p = a.player(pid);
    let price = text::byte_len(key) + text::byte_len(value);
    let asked = PlayerView { metadata_budget: p.metadata_budget.asked(price, now), ..p };
    assoc::lemma_put_value(a.players, pid, asked);
    let at = assoc::place(a.players, pid);
    assert(a.players[at].0 == pid);
}

/// A player erases one of their fields: it is gone, all their other fields are as before, everybody
/// in the lobby is told, and nothing else changes. Erasing a field that is not there changes
/// nothing.
pub proof fn law_player_erases_a_field(a: LoopView, pid: BasicId, key: Seq<char>, now: Moment)
    requires
        a.named(),
    ensures
        ({
            let p = a.player(pid);
            let b = a.step(OpView::ErasePlayerMeta { pid, key }, now, 0, 0);
            let msg = ServerMessageView::ErasePlayerMeta { pid, key };
            if a.has_player(pid) && assoc::has(p.metadata, key) {
                &&& b.has_player(pid)
                &&& aux::field_erased(p.metadata, b.player(pid).metadata, key)
                &&& b.player(pid).metadata.len() == p.metadata.len() - 1
                &&& b.player(pid) == (PlayerView {
                    metadata: b.player(pid).metadata,
                    outbox: p.outbox.push(msg),
                    ..p
                })
                &&& news_to_others(a.players, b.players, p.lid, msg, pid)
                &&& b.lobbies == a.lobbies
                &&& surroundings_kept(a, b)
            } else {
                b == a
            }
        }),
{
    let p = a.player(pid);
    if a.has_player(pid) && assoc::has(p.metadata, key) {
        let erased = PlayerView { metadata: assoc::without(p.metadata, key), ..p };
        lemma_player_changed(a, pid, erased, ServerMessageView::ErasePlayerMeta { pid, key });
        assert(assoc::keyed(a.players[assoc::place(a.players, pid)].1.metadata));
        assoc::lemma_without_value(p.metadata, key);
    }
}

/// The master of a lobby that has room for a field and can afford its bytes sets it: it has the
/// value that was given, all its other fields are as before, everybody in the lobby is told the
/// name and the value, and nothing else changes but what is left of the lobby's budget.
pub proof fn law_master_sets_a_field(
    a: LoopView,
    pid: BasicId,
    key: Seq<char>,
    value: Seq<char>,
    now: Moment,
)
    requires
        a.named(),
        a.has_player(pid),
        a.has_lobby(a.player(pid).lid),
        a.lobby(a.player(pid).lid).master == pid,
        assoc::has(a.lobby(a.player(pid).lid).metadata, key) || a.lobby(
            a.player(pid).lid,
        ).metadata.len() < 16,
        text::byte_len(key) + text::byte_len(value) <= usize::MAX,
        a.lobby(a.player(pid).lid).metadata_budget.affords(
            text::byte_len(key) + text::byte_len(value),
            now,
        ),
    ensures
        ({
            let lid = a.player(pid).lid;
            let l = a.lobby(lid);
            let b = a.step(OpView::SetLobbyMeta { initiator: pid, key, value }, now, 0, 0);
            &&& b.has_lobby(lid)
            &&& aux::field_set(l.metadata, b.lobby(lid).metadata, key, value)
            &&& b.lobby(lid).metadata.len() == l.metadata.len() + if assoc::has(l.metadata, key) {
                0int
            } else {
                1
            }
            &&& b.lobby(lid) == (LobbyView {
                metadata: b.lobby(lid).metadata,
                metadata_budget: l.metadata_budget.asked(
                    text::byte_len(key) + text::byte_len(value),
                    now,
                ),
                ..l
            })
            &&& other_lobbies_kept(a.lobbies, b.lobbies, lid)
            &&& news(a.players, b.players, lid, ServerMessageView::SetLobbyMeta { key, value })
            &&& surroundings_kept(a, b)
        }),
{
    let lid = a.player(pid).lid;
    let l = a.lobby(lid);
    let price = text::byte_len(key) + text::byte_len(value);
    let set = LobbyView {
        metadata: assoc::put(l.metadata, key, value),
        metadata_budget: l.metadata_budget.asked(price, now),
        ..l
    };
    lemma_lobby_put(a.lobbies, lid, set);
    lemma_news(a.players, lid, ServerMessageView::SetLobbyMeta { key, value });
    assert(assoc::keyed(a.lobbies[assoc::place(a.lobbies, lid)].1.metadata));
    assoc::lemma_put_value(l.metadata, key, value);
}

/// A lobby that has as many fields as there may be, or cannot afford the bytes of a new one, keeps
/// the fields that it has, nobody is told anything, and nothing changes but that its budget was
/// asked if there was room.
pub proof fn law_fields_of_lobbies_are_limited(
    a: LoopView,
    pid: BasicId,
    key: Seq<char>,
    value: Seq<char>,
    now: Moment,
)
    requires
        a.named(),
        a.has_player(pid),
        a.has_lobby(a.player(pid).lid),
        a.lobby(a.player(pid).lid).master == pid,
        text::byte_len(key) + text::byte_len(value) <= usize::MAX,
        (!assoc::has(a.lobby(a.player(pid).lid).metadata, key) && a.lobby(
            a.player(pid).lid,
        ).metadata.len() >= 16) || !a.lobby(a.player(pid).lid).metadata_budget.affords(
            text::byte_len(key) + text::byte_len(value),
            now,
        ),
    ensures
        ({
            let lid = a.player(pid).lid;
            let l = a.lobby(lid);
            let b = a.step(OpView::SetLobbyMeta { initiator: pid, key, value }, now, 0, 0);
            &&& b.has_lobby(lid)
            &&& b.lobby(lid) == if !assoc::has(l.metadata, key) && l.metadata.len() >= 16 {
                l
            } else {
                LobbyView {
                    metadata_budget: l.metadata_budget.asked(
                        text::byte_len(key) + text::byte_len(value),
                        now,
                    ),
                    ..l
                }
            }
            &&& other_lobbies_kept(a.lobbies, b.lobbies, lid)
            &&& b.players == a.players
            &&& surroundings_kept(a, b)
        }),
{
    let lid = a.player(pid).lid;
    let l = a.lobby(lid);
    let price = text::byte_len(key) + text::byte_len(value);
    lemma_lobby_put(
        a.lobbies,
        lid,
        LobbyView { metadata_budget: l.metadata_budget.asked(price, now), ..l },
    );
}

/// The master of a lobby erases one of its fields: it is gone, all its other fields are as before,
/// everybody in the lobby is told, and nothing else changes. Erasing a field that is not there
/// changes nothing.
pub proof fn law_master_erases_a_field(a: LoopView, pid: BasicId, key: Seq<char>, now: Moment)
    requires
        a.named(),
        a.has_player(pid),
        a.has_lobby(a.player(pid).lid),
        a.lobby(a.player(pid).lid).master == pid,
    ensures
        ({
            let lid = a.player(pid).lid;
            let l = a.lobby(lid);
            let b = a.step(OpView::EraseLobbyMeta { initiator: pid, key }, now, 0, 0);
            if assoc::has(l.metadata, key) {
                &&& b.has_lobby(lid)
                &&& aux::field_erased(l.metadata, b.lobby(lid).metadata, key)
                &&& b.lobby(lid).metadata.len() == l.metadata.len() - 1
                &&& b.lobby(lid) == (LobbyView { metadata: b.lobby(lid).metadata, ..l })
                &&& other_lobbies_kept(a.lobbies, b.lobbies, lid)
                &&& news(a.players, b.players, lid, ServerMessageView::EraseLobbyMeta { key })
                &&& surroundings_kept(a, b)
            } else {
                b == a
            }
        }),
{
    let lid = a.player(pid).lid;
    let l = a.lobby(lid);
    if assoc::has(l.metadata, key) {
        lemma_lobby_put(
            a.lobbies,
            lid,
            LobbyView { metadata: assoc::without(l.metadata, key), ..l },
        );
        lemma_news(a.players, lid, ServerMessageView::EraseLobbyMeta { key });
        assert(assoc::keyed(a.lobbies[assoc::place(a.lobbies, lid)].1.metadata));
        assoc::lemma_without_value(l.metadata, key);
    }
}

/// What a message to one player comes to.
proof fn lemma_sent(a: LoopView, pid: BasicId, msg: ServerMessageView)
    requires
        a.named(),
        a.has_player(pid),
    ensures
        ({
            let b = a.sending(pid, msg);
            &&& b.has_player(pid)
            &&& got(a.player(pid), b.player(pid), msg)
            &&& other_players_kept(a.players, b.players, pid)
        }),
{
    let p = a.player(pid);
    assoc::lemma_put_value(a.players, pid, p.posted(msg));
    let at = assoc::place(a.players, pid);
    assert(a.players[at].0 == pid);
    assert(p.outbox.push(msg).drop_last() =~= p.outbox);
}

/// The master of a lobby shows a player of the same lobby the door: that player is told that they
/// were kicked, and nothing else changes. Nobody else can be shown the door, and by nobody else.
pub proof fn law_kicking(a: LoopView, kicker: BasicId, kickee: BasicId, now: Moment)
    requires
        a.named(),
    ensures
        ({
            let b = a.step(OpView::KickPlayer { kicker, kickee }, now, 0, 0);
            if a.has_player(kicker) && a.has_player(kickee) && a.player(kickee).lid == a.player(
                kicker,
            ).lid && a.has_lobby(a.player(kicker).lid) && a.lobby(a.player(kicker).lid).master
                == kicker {
                &&& b.has_player(kickee)
                &&& got(
                    a.player(kickee),
                    b.player(kickee),
                    ServerMessageView::Disconnected {
                        reason: KickView::Natural {
                            code: "kick"@,
                            msg: "Kicked by lobby's master"@,
                        },
                    },
                )
                &&& other_players_kept(a.players, b.players, kickee)
                &&& b.lobbies == a.lobbies
                &&& surroundings_kept(a, b)
            } else {
                b == a
            }
        }),
{
    if a.has_player(kickee) {
        lemma_sent(
            a,
            kickee,
            ServerMessageView::Disconnected {
                reason: KickView::Natural { code: "kick"@, msg: "Kicked by lobby's master"@ },
            },
        );
    }
}

/// A message that one player passes on to another one in the same lobby reaches that one as it is,
/// and nothing else changes. To nobody else can anything be passed on.
pub proof fn law_relaying(
    a: LoopView,
    from: BasicId,
    to: BasicId,
    msg: ServerMessageView,
    now: Moment,
)
    requires
        a.named(),
    ensures
        ({
            let b = a.step(OpView::Relay { from, to, msg }, now, 0, 0);
            if a.has_player(from) && a.has_player(to) && a.player(from).lid == a.player(to).lid {
                &&& b.has_player(to)
                &&& got(a.player(to), b.player(to), msg)
                &&& other_players_kept(a.players, b.players, to)
                &&& b.lobbies == a.lobbies
                &&& surroundings_kept(a, b)
            } else {
                b == a
            }
        }),
{
    if a.has_player(to) {
        lemma_sent(a, to, msg);
    }
}

} // verus!
