//! What those who look for a lobby of the mailbox server are shown.

use crate::assoc;
use crate::clock::Moment;
use crate::id::{BasicId, LobbyKey};
use crate::mailbox::effects;
use crate::mailbox::model::{BlasterView, LobbyView, OpView, ReplyView};
use crate::picking;
use crate::protocol::payloads::LobbyListingView;
use vstd::prelude::*;

verus! {

/// `list` is what comes back to somebody who looks for lobbies of the game.
pub open spec fn shown_to(
    a: BlasterView,
    gid: Seq<char>,
    limit: usize,
    now: Moment,
    list: Seq<LobbyListingView>,
) -> bool {
    a.reply(OpView::ListLobbies { gid, limit }, now) == ReplyView::Listing(list)
}

/// Whether a lobby is open to those who look for one of the game: it is one of that game, is listed,
/// is no swarm, and has room.
pub open spec fn open_to(a: BlasterView, gid: Seq<char>, e: (LobbyKey, LobbyView)) -> bool {
    e.0.gid == gid && e.1.listed && !e.1.swarm && effects::headcount(a.players, e.0) < e.1.capacity
}

/// Which lobbies the server shows.
proof fn lemma_shown(a: BlasterView, gid: Seq<char>, i: int)
    requires
        a.wf(),
        0 <= i < a.lobbies.len(),
    ensures
        a.shown(gid)(a.lobbies[i]) <==> open_to(a, gid, a.lobbies[i]),
{
    assoc::lemma_place(a.lobbies, i);
    effects::lemma_headcount(a.players, a.lobbies[i].0);
}

/// Whoever looks for lobbies is shown a list, and nothing changes.
pub proof fn law_looking_for_lobbies(a: BlasterView, gid: Seq<char>, limit: usize, now: Moment)
    ensures
        a.reply(OpView::ListLobbies { gid, limit }, now) is Listing,
        a.step(OpView::ListLobbies { gid, limit }, now) == a,
{
}

/// Each lobby that is shown is open to those who look for one of the game, and is shown with the
/// number of players that are in it, the number that it holds, and its fields.
pub proof fn law_listings_tell_the_truth(
    a: BlasterView,
    gid: Seq<char>,
    limit: usize,
    now: Moment,
    list: Seq<LobbyListingView>,
    i: int,
)
    requires
        a.wf(),
        shown_to(a, gid, limit, now, list),
        0 <= i < list.len(),
    ensures
        ({
            let key = LobbyKey { lid: list[i].lid, gid };
            &&& a.has_lobby(key)
            &&& open_to(a, gid, (key, a.lobby(key)))
            &&& list[i].players == effects::headcount(a.players, key)
            &&& list[i].max == a.lobby(key).capacity
            &&& list[i].meta == a.lobby(key).meta
        }),
{
    let found = a.lobbies.filter(a.shown(gid));
    a.lobbies.lemma_filter_pred(a.shown(gid), i);
    a.lobbies.lemma_filter_contains_rev(a.shown(gid), found[i]);
    let k = choose|k: int| 0 <= k < a.lobbies.len() && a.lobbies[k] == found[i];
    assoc::lemma_place(a.lobbies, k);
    lemma_shown(a, gid, k);
    effects::lemma_headcount(a.players, found[i].0);
    assert(list[i] == a.listing(found[i]));
    assert(found[i].0 == (LobbyKey { lid: list[i].lid, gid }));
}

/// No more lobbies are shown than were asked for, or one if none was asked for, and never more than
/// a hundred.
pub proof fn law_listings_are_short(
    a: BlasterView,
    gid: Seq<char>,
    limit: usize,
    now: Moment,
    list: Seq<LobbyListingView>,
)
    requires
        shown_to(a, gid, limit, now, list),
    ensures
        list.len() <= 100,
        limit >= 1 ==> list.len() <= limit,
        limit == 0 ==> list.len() <= 1,
{
}

/// Each lobby that is open to those who look for one of the game is shown, unless as many others are
/// shown as were asked for, or one if none was asked for, or a hundred.
pub proof fn law_listings_leave_nothing_out(
    a: BlasterView,
    gid: Seq<char>,
    limit: usize,
    now: Moment,
    list: Seq<LobbyListingView>,
    lid: BasicId,
) -> (i: int)
    requires
        a.wf(),
        shown_to(a, gid, limit, now, list),
        a.has_lobby(LobbyKey { lid, gid }),
        open_to(a, gid, (LobbyKey { lid, gid }, a.lobby(LobbyKey { lid, gid }))),
        list.len() < 100,
        list.len() < limit || list.len() < 1,
    ensures
        0 <= i < list.len(),
        list[i].lid == lid,
{
    let key = LobbyKey { lid, gid };
    let p = a.shown(gid);
    let found = a.lobbies.filter(p);
    let k = assoc::place(a.lobbies, key);
    assert(a.lobbies[k] == (key, a.lobby(key)));
    lemma_shown(a, gid, k);
    a.lobbies.lemma_filter_contains(p, k);
    let j = choose|j: int| 0 <= j < found.len() && found[j] == a.lobbies[k];
    assert(list[j] == a.listing(found[j]));
    j
}

/// Lobbies are shown in the order in which they were opened.
pub proof fn law_older_lobbies_are_shown_first(
    a: BlasterView,
    gid: Seq<char>,
    limit: usize,
    now: Moment,
    list: Seq<LobbyListingView>,
    i: int,
    j: int,
) -> (at: (int, int))
    requires
        a.wf(),
        shown_to(a, gid, limit, now, list),
        0 <= i < j < list.len(),
    ensures
        0 <= at.0 < at.1 < a.lobbies.len(),
        a.lobbies[at.0].0 == (LobbyKey { lid: list[i].lid, gid }),
        a.lobbies[at.1].0 == (LobbyKey { lid: list[j].lid, gid }),
{
    let found = a.lobbies.filter(a.shown(gid));
    a.lobbies.lemma_filter_pred(a.shown(gid), i);
    a.lobbies.lemma_filter_pred(a.shown(gid), j);
    assert(list[i] == a.listing(found[i]) && list[j] == a.listing(found[j]));
    picking::lemma_filter_order(a.lobbies, a.shown(gid), i, j)
}

/// A lobby that could be shown is not passed over for one that was opened later.
pub proof fn law_no_lobby_is_passed_over(
    a: BlasterView,
    gid: Seq<char>,
    limit: usize,
    now: Moment,
    list: Seq<LobbyListingView>,
    x: int,
    y: int,
    j: int,
) -> (i: int)
    requires
        a.wf(),
        shown_to(a, gid, limit, now, list),
        0 <= x < y < a.lobbies.len(),
        open_to(a, gid, a.lobbies[x]),
        0 <= j < list.len(),
        a.lobbies[y].0 == (LobbyKey { lid: list[j].lid, gid }),
    ensures
        0 <= i < j,
        list[i].lid == a.lobbies[x].0.lid,
{
    let p = a.shown(gid);
    let found = a.lobbies.filter(p);
    lemma_shown(a, gid, x);
    assert(a.lobbies.no_duplicates()) by {
        assert forall|m: int, n: int|
            0 <= m < a.lobbies.len() && 0 <= n < a.lobbies.len() && m != n implies a.lobbies[m]
            != a.lobbies[n] by {
            if m < n {
                assert(a.lobbies[m].0 != a.lobbies[n].0);
            } else {
                assert(a.lobbies[n].0 != a.lobbies[m].0);
            }
        }
    }
    assert(list[j] == a.listing(found[j]));
    a.lobbies.lemma_filter_pred(p, j);
    a.lobbies.lemma_filter_contains_rev(p, found[j]);
    let k = choose|k: int| 0 <= k < a.lobbies.len() && a.lobbies[k] == found[j];
    assoc::lemma_place(a.lobbies, k);
    assoc::lemma_place(a.lobbies, y);
    assert(k == y);
    let i = picking::lemma_filter_before(a.lobbies, p, x, y, j);
    assert(list[i] == a.listing(found[i]));
    i
}

} // verus!
