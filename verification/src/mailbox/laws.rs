//! What can be relied on when dealing with the mailbox server.

use crate::assoc;
use crate::clock::Moment;
use crate::id::{BasicId, LobbyKey};
use crate::mailbox::blaster::CHUD_LOBBY_TIMEOUT;
use crate::mailbox::model;
use crate::mailbox::model::{BlasterView, LobbyView, OpView, PlayerView, Players, ReplyView};
use crate::protocol::aux::MetadataView;
use crate::protocol::payloads;
use crate::protocol::payloads::{KickView, ServerMessageView};
use vstd::prelude::*;

verus! {

/// What is said in a lobby reaches everybody in it once, and nobody else.
pub proof fn law_told_reaches_the_lobby(
    players: Players,
    lid: LobbyKey,
    msg: ServerMessageView,
    pid: BasicId,
)
    requires
        assoc::keyed(players),
        assoc::has(players, pid),
    ensures
        assoc::has(model::told(players, lid, msg), pid),
        assoc::value(model::told(players, lid, msg), pid) == if assoc::value(players, pid).lid
            == lid {
            assoc::value(players, pid).posted(msg)
        } else {
            assoc::value(players, pid)
        },
{
    let told = model::told(players, lid, msg);
    assoc::lemma_same_keys(players, told);
    let i = assoc::place(players, pid);
    assert(told[i].0 == players[i].0);
}

/// A message that is sent to a player waits for that player, behind what waited before, and for
/// nobody else.
pub proof fn law_sent_reaches_the_player(
    a: BlasterView,
    to: BasicId,
    msg: ServerMessageView,
    pid: BasicId,
    now: Moment,
)
    requires
        a.wf(),
        a.has_player(pid),
    ensures
        ({
            let after = a.step(OpView::SendTo { pid: to, msg }, now);
            &&& after.has_player(pid)
            &&& after.player(pid) == if pid == to {
                a.player(pid).posted(msg)
            } else {
                a.player(pid)
            }
        }),
{
    if a.has_player(to) {
        assoc::lemma_put_value(a.players, to, a.player(to).posted(msg));
    }
}

/// Fetching a player's messages hands over all that waited, in order; fetched again at once, there
/// is nothing.
pub proof fn law_messages_are_fetched_once(a: BlasterView, pid: BasicId, t1: Moment, t2: Moment)
    requires
        a.wf(),
        a.has_player(pid),
    ensures
        a.reply(OpView::FlushPlayerQueue { pid }, t1) == ReplyView::Queue(a.player(pid).queue),
        a.step(OpView::FlushPlayerQueue { pid }, t1).reply(OpView::FlushPlayerQueue { pid }, t2)
            == ReplyView::Queue(seq![]),
        forall|q: BasicId|
            q != pid && a.has_player(q) ==> #[trigger] a.step(
                OpView::FlushPlayerQueue { pid },
                t1,
            ).player(q) == a.player(q),
{
    assoc::lemma_put_value(a.players, pid, PlayerView { queue: seq![], ..a.player(pid) });
}

/// A message that is sent to a player is fetched with the next messages, behind those that waited.
pub proof fn law_sent_is_fetched(
    a: BlasterView,
    pid: BasicId,
    msg: ServerMessageView,
    t1: Moment,
    t2: Moment,
)
    requires
        a.wf(),
        a.has_player(pid),
    ensures
        a.step(OpView::SendTo { pid, msg }, t1).reply(OpView::FlushPlayerQueue { pid }, t2)
            == ReplyView::Queue(a.player(pid).queue.push(msg)),
{
    law_sent_reaches_the_player(a, pid, msg, pid, t1);
}

/// The master whom the server names is there, and is named again when asked again.
pub proof fn law_master_is_there(a: BlasterView, lid: LobbyKey)
    requires
        a.wf(),
    ensures
        a.master_of(lid) matches Some(pid) ==> a.has_player(pid),
        a.mastered(lid).master_of(lid) == a.master_of(lid),
        a.mastered(lid).players == a.players,
{
    if let Some(master) = a.master_of(lid) {
        if !a.has_player(a.lobby(lid).master) {
            let found = a.players.filter(model::in_lobby(lid));
            a.players.lemma_filter_contains_rev(model::in_lobby(lid), found[0]);
            let i = choose|i: int| 0 <= i < a.players.len() && a.players[i] == found[0];
            assert(a.players[i].0 == master);
        }
        assoc::lemma_put_value(a.lobbies, lid, LobbyView { master, ..a.lobby(lid) });
    }
}

/// Whoever is named master in the place of one who is gone is in the lobby.
pub proof fn law_heir_is_in_the_lobby(a: BlasterView, lid: LobbyKey)
    requires
        a.wf(),
        a.has_lobby(lid),
        !a.has_player(a.lobby(lid).master),
    ensures
        a.master_of(lid) matches Some(pid) ==> a.has_player(pid) && a.player(pid).lid == lid,
        a.master_of(lid) is None <==> model::players_in(a.players, lid) == 0,
{
    let found = a.players.filter(model::in_lobby(lid));
    if found.len() > 0 {
        a.players.lemma_filter_pred(model::in_lobby(lid), 0);
        a.players.lemma_filter_contains_rev(model::in_lobby(lid), found[0]);
        let i = choose|i: int| 0 <= i < a.players.len() && a.players[i] == found[0];
        assoc::lemma_place(a.players, i);
    }
}

/// After a cleanup exactly those lobbies are left that somebody is in, as they were, and a second
/// cleanup finds nothing to do.
pub proof fn law_cleanup_keeps_inhabited_lobbies(a: BlasterView, lid: LobbyKey)
    requires
        a.wf(),
    ensures
        a.cleanup_lobbies().has_lobby(lid) <==> a.has_lobby(lid) && model::players_in(
            a.players,
            lid,
        ) > 0,
        a.cleanup_lobbies().has_lobby(lid) ==> a.cleanup_lobbies().lobby(lid) == a.lobby(lid),
        a.cleanup_lobbies().players == a.players,
        a.cleanup_lobbies().cleanup_lobbies() == a.cleanup_lobbies(),
{
    let p = |e: (LobbyKey, LobbyView)| model::players_in(a.players, e.0) > 0;
    assert(a.cleanup_lobbies().lobbies == a.lobbies.filter(p));
    assoc::lemma_filter_value(a.lobbies, p);
    let b = a.cleanup_lobbies();
    lemma_filter_again(a.lobbies, p);
    assert(b.cleanup_lobbies().lobbies == b.lobbies.filter(p));
}

/// What has been picked is picked again.
proof fn lemma_filter_again<A>(s: Seq<A>, p: spec_fn(A) -> bool)
    ensures
        s.filter(p).filter(p) == s.filter(p),
    decreases s.len(),
{
    reveal(Seq::filter);
    if s.len() > 0 {
        lemma_filter_again(s.drop_last(), p);
        let u = s.drop_last().filter(p);
        if p(s.last()) {
            assert(u.push(s.last()).drop_last() =~= u);
        }
    }
}

/// Nobody is shown the same lobby twice.
pub proof fn law_no_lobby_is_shown_twice(
    a: BlasterView,
    gid: Seq<char>,
    limit: usize,
    i: int,
    j: int,
)
    requires
        a.wf(),
        0 <= i < j < a.list_lobbies(gid, limit).len(),
    ensures
        a.list_lobbies(gid, limit)[i].lid != a.list_lobbies(gid, limit)[j].lid,
{
    let found = a.lobbies.filter(a.shown(gid));
    assoc::lemma_filter_value(a.lobbies, a.shown(gid));
    assert(found[i].0 != found[j].0);
    a.lobbies.lemma_filter_pred(a.shown(gid), i);
    a.lobbies.lemma_filter_pred(a.shown(gid), j);
}

/// Somebody who is alone in a lobby from one look at its timer to another, ten minutes or more
/// later, is shown the door at the second look, and not before.
pub proof fn law_loners_time_out(a: BlasterView, lid: LobbyKey, t1: Moment, t2: Moment)
    requires
        a.wf(),
        a.has_lobby(lid),
        a.chud(lid),
        a.lobby(lid).death_timer is None,
        t1 <= t2,
    ensures
        a.reply(OpView::AdvanceLobbyTimer { lid }, t1) == ReplyView::Timer(None),
        a.step(OpView::AdvanceLobbyTimer { lid }, t1).reply(OpView::AdvanceLobbyTimer { lid }, t2)
            == ReplyView::Timer(
            if t2 - t1 >= CHUD_LOBBY_TIMEOUT {
                Some(payloads::natural("inactive_lobby"@, "Inactive lobby"@))
            } else {
                None
            },
        ),
{
    assoc::lemma_put_value(
        a.lobbies,
        lid,
        LobbyView { death_timer: Some(t1), ..a.lobby(lid) },
    );
}

/// Company stops a lobby's timer.
pub proof fn law_company_stops_the_timer(a: BlasterView, lid: LobbyKey, now: Moment)
    requires
        a.wf(),
        a.has_lobby(lid),
        !a.chud(lid),
    ensures
        a.reply(OpView::AdvanceLobbyTimer { lid }, now) == ReplyView::Timer(None),
        a.step(OpView::AdvanceLobbyTimer { lid }, now).lobby(lid).death_timer is None,
{
    assoc::lemma_put_value(a.lobbies, lid, LobbyView { death_timer: None, ..a.lobby(lid) });
}

/// A newcomer is greeted, everybody else in the lobby is told of the newcomer, and nobody else is
/// told anything.
pub proof fn law_newcomer_is_announced(
    a: BlasterView,
    pid: BasicId,
    lid: LobbyKey,
    meta: MetadataView,
    other: BasicId,
)
    requires
        a.wf(),
        a.has_lobby(lid),
        a.has_player(other),
        other != pid,
    ensures
        ({
            let arrived = a.with_player(pid, PlayerView { lid, meta, queue: seq![] });
            let after = a.introduce_player(pid, lid, meta);
            &&& after.has_player(pid)
            &&& after.player(pid) == (PlayerView {
                lid,
                meta,
                queue: BlasterView::greeting(
                    a.lobby(lid),
                    BlasterView::others(arrived.players, lid, pid),
                    arrived.master_of(lid),
                    a.ice_servers,
                ),
            })
            &&& after.has_player(other)
            &&& after.player(other) == if a.player(other).lid == lid {
                a.player(other).posted(ServerMessageView::Joined { pid, meta })
            } else {
                a.player(other)
            }
        }),
{
    let player = PlayerView { lid, meta, queue: seq![] };
    let arrived = a.with_player(pid, player);
    let after = a.introduce_player(pid, lid, meta);
    assoc::lemma_put_value(a.players, pid, player);
    assert(arrived.mastered(lid).players == arrived.players);
    assert forall|i: int| 0 <= i < arrived.players.len() implies (#[trigger] arrived.players[i]).0
        == after.players[i].0 by {}
    assoc::lemma_same_keys(arrived.players, after.players);
    assert(assoc::has(arrived.players, pid) && assoc::has(arrived.players, other));
    assert(assoc::has(after.players, pid) && assoc::has(after.players, other));
    let i = assoc::place(arrived.players, pid);
    let j = assoc::place(arrived.players, other);
    assert(arrived.players[i].0 == pid && arrived.players[j].0 == other);
}

/// Letting a player go and telling the lobby so leaves names that occur once.
proof fn lemma_remove_wf(a: BlasterView, lid: LobbyKey, pid: BasicId, reason: Option<KickView>)
    requires
        a.wf(),
    ensures
        (BlasterView { players: assoc::without(a.players, pid), ..a }).telling(
            lid,
            ServerMessageView::Left { pid, reason },
        ).wf(),
{
    let gone = BlasterView { players: assoc::without(a.players, pid), ..a };
    let told = gone.telling(lid, ServerMessageView::Left { pid, reason });
    assoc::lemma_without_value(a.players, pid);
    assoc::lemma_same_keys(gone.players, told.players);
    assert forall|i: int| 0 <= i < gone.players.len() implies assoc::keyed(
        (#[trigger] gone.players[i]).1.meta,
    ) by {
        let at = assoc::place(a.players, pid);
        if a.has_player(pid) {
            assert(gone.players[i] == a.players[if i < at {
                i
            } else {
                i + 1
            }]);
        }
    }
    assert forall|i: int| 0 <= i < told.players.len() implies assoc::keyed(
        (#[trigger] told.players[i]).1.meta,
    ) by {
        assert(gone.players[i].1.meta == told.players[i].1.meta);
    }
}

/// When a player goes, everybody in the lobby is told so, and then who the master is, and nobody
/// else is told anything.
pub proof fn law_departure_is_announced(
    a: BlasterView,
    lid: LobbyKey,
    pid: BasicId,
    reason: Option<KickView>,
    other: BasicId,
)
    requires
        a.wf(),
        a.has_lobby(lid),
        a.has_player(other),
        other != pid,
    ensures
        ({
            let after = a.remove_player(lid, pid, reason);
            let left = ServerMessageView::Left { pid, reason };
            &&& !after.has_player(pid)
            &&& after.has_player(other)
            &&& a.player(other).lid != lid ==> after.player(other) == a.player(other)
            &&& a.player(other).lid == lid ==> after.master_of(lid) is Some && after.player(other)
                == a.player(other).posted(left).posted(
                ServerMessageView::SetMaster { pid: after.master_of(lid)->0 },
            )
        }),
{
    let after = a.remove_player(lid, pid, reason);
    let left = ServerMessageView::Left { pid, reason };
    let gone = BlasterView { players: assoc::without(a.players, pid), ..a };
    assoc::lemma_without_value(a.players, pid);
    let told = gone.telling(lid, left);
    assoc::lemma_same_keys(gone.players, told.players);
    assert(assoc::has(gone.players, other));
    law_told_reaches_the_lobby(gone.players, lid, left, other);
    assert(assoc::has(told.players, pid) <==> assoc::has(gone.players, pid));
    lemma_remove_wf(a, lid, pid, reason);
    if told.player(other).lid == lid {
        let at = assoc::place(told.players, other);
        told.players.lemma_filter_contains(model::in_lobby(lid), at);
        assert(model::players_in(told.players, lid) > 0);
        assert(told.master_of(lid) is Some);
    }
    law_master_is_there(told, lid);
    if let Some(master) = told.master_of(lid) {
        let news = ServerMessageView::SetMaster { pid: master };
        law_told_reaches_the_lobby(told.players, lid, news, other);
        assoc::lemma_same_keys(told.players, after.players);
        assert(assoc::has(after.players, pid) <==> assoc::has(told.players, pid));
        assert(assoc::has(after.players, master) <==> assoc::has(told.players, master));
        assoc::lemma_put_value(a.lobbies, lid, LobbyView { master, ..a.lobby(lid) });
    }
}

/// Each player's lobby is there.
pub open spec fn housed(a: BlasterView) -> bool {
    forall|pid: BasicId| #[trigger] a.has_player(pid) ==> a.has_lobby(a.player(pid).lid)
}

/// Lobbies that are put in place leave those that were there in place.
proof fn lemma_housed_with_lobby(a: BlasterView, lid: LobbyKey, lobby: LobbyView)
    requires
        a.wf(),
        housed(a),
    ensures
        housed(a.with_lobby(lid, lobby)),
        a.with_lobby(lid, lobby).has_lobby(lid),
        assoc::keyed(a.with_lobby(lid, lobby).lobbies),
        a.with_lobby(lid, lobby).players == a.players,
{
    let b = a.with_lobby(lid, lobby);
    assoc::lemma_put_value(a.lobbies, lid, lobby);
    assert forall|pid: BasicId| #[trigger] b.has_player(pid) implies b.has_lobby(
        b.player(pid).lid,
    ) by {
        assert(a.has_player(pid));
        let home = a.player(pid).lid;
        assert(assoc::has(b.lobbies, home) || home == lid);
    }
}

/// Players who stay in their lobbies stay housed.
proof fn lemma_housed_same_lids(a: BlasterView, b: BlasterView)
    requires
        assoc::keyed(a.players),
        housed(a),
        b.lobbies == a.lobbies,
        b.players.len() == a.players.len(),
        forall|i: int|
            0 <= i < a.players.len() ==> (#[trigger] a.players[i]).0 == b.players[i].0
                && a.players[i].1.lid == b.players[i].1.lid,
    ensures
        housed(b),
{
    assoc::lemma_same_keys(a.players, b.players);
    assert forall|pid: BasicId| #[trigger] b.has_player(pid) implies b.has_lobby(
        b.player(pid).lid,
    ) by {
        assert(a.has_player(pid));
        let i = assoc::place(a.players, pid);
        assert(a.players[i].0 == b.players[i].0);
        assert(a.has_lobby(a.player(pid).lid));
    }
}

/// A master who is found changes nobody's lobby.
proof fn lemma_housed_mastered(a: BlasterView, lid: LobbyKey)
    requires
        a.wf(),
        housed(a),
    ensures
        housed(a.mastered(lid)),
        assoc::keyed(a.mastered(lid).lobbies),
        a.mastered(lid).players == a.players,
{
    if let Some(master) = a.master_of(lid) {
        lemma_housed_with_lobby(a, lid, LobbyView { master, ..a.lobby(lid) });
    }
}

/// A player changes, but not in the lobby that they are in.
proof fn lemma_housed_with_player(a: BlasterView, pid: BasicId, player: PlayerView)
    requires
        a.wf(),
        housed(a),
        a.has_player(pid),
        player.lid == a.player(pid).lid,
    ensures
        housed(a.with_player(pid, player)),
        assoc::keyed(a.with_player(pid, player).players),
{
    let b = a.with_player(pid, player);
    assert(a.players[assoc::place(a.players, pid)].0 == pid);
    assoc::lemma_put_value(a.players, pid, player);
    lemma_housed_same_lids(a, b);
}

/// Whatever the server is asked to do, each player's lobby is there afterwards.
pub proof fn law_players_stay_housed(a: BlasterView, op: OpView, now: Moment)
    requires
        a.wf(),
        housed(a),
        op.wf(),
    ensures
        housed(a.step(op, now)),
{
    match op {
        OpView::CleanupLobbies => {
            let b = a.cleanup_lobbies();
            assert forall|pid: BasicId| #[trigger] b.has_player(pid) implies b.has_lobby(
                b.player(pid).lid,
            ) by {
                assert(a.has_player(pid));
                let lid = a.player(pid).lid;
                law_cleanup_keeps_inhabited_lobbies(a, lid);
                let i = assoc::place(a.players, pid);
                a.players.lemma_filter_contains(model::in_lobby(lid), i);
                assert(model::players_in(a.players, lid) > 0);
            }
        },
        OpView::SetLobbyCapacity { lid, capacity } => {
            if a.has_lobby(lid) {
                let set = LobbyView { capacity, ..a.lobby(lid) };
                lemma_housed_with_lobby(a, lid, set);
                lemma_housed_same_lids(a.with_lobby(lid, set), a.step(op, now));
            }
        },
        OpView::SetLobbyListed { lid, listed } => {
            if a.has_lobby(lid) {
                let set = LobbyView { listed, ..a.lobby(lid) };
                lemma_housed_with_lobby(a, lid, set);
                lemma_housed_same_lids(a.with_lobby(lid, set), a.step(op, now));
            }
        },
        OpView::SetPlayerMeta { pid, key, value } => {
            if a.has_player(pid) {
                let p = a.player(pid);
                let set = PlayerView { meta: assoc::put(p.meta, key, value), ..p };
                lemma_housed_with_player(a, pid, set);
                if a.step(op, now) != a {
                    lemma_housed_same_lids(a.with_player(pid, set), a.step(op, now));
                }
            }
        },
        OpView::ErasePlayerMeta { pid, key } => {
            if a.has_player(pid) {
                let p = a.player(pid);
                let erased = PlayerView { meta: assoc::without(p.meta, key), ..p };
                lemma_housed_with_player(a, pid, erased);
                if a.step(op, now) != a {
                    lemma_housed_same_lids(a.with_player(pid, erased), a.step(op, now));
                }
            }
        },
        OpView::SetLobbyMeta { lid, key, value } => {
            let l = a.lobby(lid);
            let set = LobbyView { meta: assoc::put(l.meta, key, value), ..l };
            lemma_housed_with_lobby(a, lid, set);
            if a.step(op, now) != a {
                lemma_housed_same_lids(a.with_lobby(lid, set), a.step(op, now));
            }
        },
        OpView::EraseLobbyMeta { lid, key } => {
            let l = a.lobby(lid);
            let erased = LobbyView { meta: assoc::without(l.meta, key), ..l };
            lemma_housed_with_lobby(a, lid, erased);
            if a.step(op, now) != a {
                lemma_housed_same_lids(a.with_lobby(lid, erased), a.step(op, now));
            }
        },
        OpView::MasterOf { lid } => {
            lemma_housed_mastered(a, lid);
        },
        OpView::IntroducePlayer { pid, lid, player_meta } => {
            if a.has_lobby(lid) {
                let player = PlayerView { lid, meta: player_meta, queue: seq![] };
                let arrived = a.with_player(pid, player);
                assoc::lemma_put_value(a.players, pid, player);
                assert(housed(arrived)) by {
                    assert forall|q: BasicId| #[trigger] arrived.has_player(
                        q,
                    ) implies arrived.has_lobby(arrived.player(q).lid) by {
                        if q != pid {
                            assert(a.has_player(q));
                        }
                    }
                }
                assert(arrived.wf());
                lemma_housed_mastered(arrived, lid);
                lemma_housed_same_lids(arrived.mastered(lid), a.step(op, now));
            }
        },
        OpView::SendTo { pid, msg } => {
            if a.has_player(pid) {
                lemma_housed_with_player(a, pid, a.player(pid).posted(msg));
            }
        },
        OpView::SetLobbyMaster { initiator_pid, new_master_pid } => {
            if a.has_player(new_master_pid) {
                let lid = a.player(new_master_pid).lid;
                let asked = a.mastered(lid);
                lemma_housed_mastered(a, lid);
                assert(asked.wf()) by {
                    if let Some(master) = a.master_of(lid) {
                        let i = assoc::place(a.lobbies, lid);
                        assert(a.lobbies[i].0 == lid);
                    }
                }
                let set = LobbyView { master: new_master_pid, ..asked.lobby(lid) };
                lemma_housed_with_lobby(asked, lid, set);
                if a.step(op, now) != asked {
                    lemma_housed_same_lids(asked.with_lobby(lid, set), a.step(op, now));
                }
            }
        },
        OpView::InsertLobby { lid, lobby } => {
            lemma_housed_with_lobby(a, lid, lobby);
        },
        OpView::KickPlayer { lid, pid } => {
            if a.has_player(pid) {
                let bye = ServerMessageView::Disconnected {
                    reason: payloads::natural("kick"@, "Kicked by lobby's master"@),
                };
                lemma_housed_with_player(a, pid, a.player(pid).posted(bye));
            }
        },
        OpView::RemovePlayer { lid, pid, reason } => {
            let gone = BlasterView { players: assoc::without(a.players, pid), ..a };
            assoc::lemma_without_value(a.players, pid);
            assert(housed(gone)) by {
                assert forall|q: BasicId| #[trigger] gone.has_player(q) implies gone.has_lobby(
                    gone.player(q).lid,
                ) by {
                    assert(q != pid);
                    assert(a.has_player(q));
                }
            }
            let told = gone.telling(lid, ServerMessageView::Left { pid, reason });
            lemma_housed_same_lids(gone, told);
            assoc::lemma_same_keys(gone.players, told.players);
            lemma_remove_wf(a, lid, pid, reason);
            lemma_housed_mastered(told, lid);
            if told.master_of(lid) is Some {
                lemma_housed_same_lids(told.mastered(lid), a.step(op, now));
            }
        },
        OpView::AdvanceLobbyTimer { lid } => {
            if a.has_lobby(lid) {
                let l = a.lobby(lid);
                let death_timer = if !a.chud(lid) {
                    None
                } else if l.death_timer is Some {
                    l.death_timer
                } else {
                    Some(now)
                };
                lemma_housed_with_lobby(a, lid, LobbyView { death_timer, ..l });
            }
        },
        OpView::FlushPlayerQueue { pid } => {
            if a.has_player(pid) {
                lemma_housed_with_player(a, pid, PlayerView { queue: seq![], ..a.player(pid) });
            }
        },
        _ => {},
    }
}

} // verus!
