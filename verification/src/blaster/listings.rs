//! What those who look for a lobby are shown.

use crate::assoc;
use crate::blaster::consistency;
use crate::blaster::model::{LoopView, OpView, PeerView, Peers, ReplyView};
use crate::blaster::payloads::LobbyListingView;
use crate::clock::Moment;
use crate::id::{BasicId, IpAddr, LobbyKey};
use crate::picking;
use crate::protocol::payloads::KickView;
use vstd::prelude::*;

verus! {

/// `list` is what comes back to somebody at the address who looks for lobbies of the game.
pub open spec fn shown_to(
    a: LoopView,
    ip: IpAddr,
    gid: Seq<char>,
    limit: usize,
    now: Moment,
    list: Seq<LobbyListingView>,
) -> bool {
    a.reply(OpView::ListLobbies { ip, gid, limit }, now, 0) == ReplyView::Listing(Ok(list))
}

/// The addresses are the same, and all but `but` are as before.
pub open spec fn other_peers_kept(before: Peers, after: Peers, but: IpAddr) -> bool {
    &&& after.len() == before.len()
    &&& forall|i: int|
        0 <= i < before.len() ==> (#[trigger] after[i]).0 == before[i].0 && (before[i].0 == but
            || after[i].1 == before[i].1)
}

/// Each lobby that is shown is a lobby of the game that is listed and has room, and is shown with
/// the number of players that are in it, the number that it holds, and its fields.
pub proof fn law_listings_tell_the_truth(
    a: LoopView,
    ip: IpAddr,
    gid: Seq<char>,
    limit: usize,
    now: Moment,
    list: Seq<LobbyListingView>,
    i: int,
)
    requires
        shown_to(a, ip, gid, limit, now, list),
        0 <= i < list.len(),
    ensures
        ({
            let key = LobbyKey { lid: list[i].lid, gid };
            &&& assoc::has(a.gid_lobbies, gid)
            &&& assoc::value(a.gid_lobbies, gid).contains(list[i].lid)
            &&& a.has_lobby(key)
            &&& a.lobby(key).listed
            &&& a.lobby(key).players.len() < a.lobby(key).capacity
            &&& list[i].players == a.lobby(key).players.len()
            &&& list[i].max == a.lobby(key).capacity
            &&& list[i].metadata == a.lobby(key).metadata
        }),
{
    let ids = a.lobbies_of(gid);
    let found = ids.filter(a.shown(gid));
    ids.lemma_filter_pred(a.shown(gid), i);
    ids.lemma_filter_contains_rev(a.shown(gid), found[i]);
    assert(list[i].lid == found[i]);
}

/// No more lobbies are shown than were asked for, or one if none was asked for, and never more than
/// 32.
pub proof fn law_listings_are_short(
    a: LoopView,
    ip: IpAddr,
    gid: Seq<char>,
    limit: usize,
    now: Moment,
    list: Seq<LobbyListingView>,
)
    requires
        shown_to(a, ip, gid, limit, now, list),
    ensures
        list.len() <= 32,
        limit >= 1 ==> list.len() <= limit,
        limit == 0 ==> list.len() <= 1,
{
}

/// Each lobby of the game that is listed and has room is shown, unless as many others are shown as
/// were asked for, or one if none was asked for, or 32.
pub proof fn law_listings_leave_nothing_out(
    a: LoopView,
    ip: IpAddr,
    gid: Seq<char>,
    limit: usize,
    now: Moment,
    list: Seq<LobbyListingView>,
    lid: BasicId,
) -> (i: int)
    requires
        a.consistent(),
        shown_to(a, ip, gid, limit, now, list),
        a.has_lobby(LobbyKey { lid, gid }),
        a.lobby(LobbyKey { lid, gid }).listed,
        a.lobby(LobbyKey { lid, gid }).players.len() < a.lobby(LobbyKey { lid, gid }).capacity,
        list.len() < 32,
        list.len() < limit || list.len() < 1,
    ensures
        0 <= i < list.len(),
        list[i].lid == lid,
{
    let key = LobbyKey { lid, gid };
    let ids = a.lobbies_of(gid);
    let p = a.shown(gid);
    let found = ids.filter(p);
    assert(consistency::in_index(a.gid_lobbies, key));
    assert(ids.contains(lid));
    let k = choose|k: int| 0 <= k < ids.len() && ids[k] == lid;
    ids.lemma_filter_contains(p, k);
    let j = choose|j: int| 0 <= j < found.len() && found[j] == lid;
    assert(list[j].lid == lid);
    j
}

/// Lobbies are shown in the order in which the game's lobbies were opened.
pub proof fn law_older_lobbies_are_shown_first(
    a: LoopView,
    ip: IpAddr,
    gid: Seq<char>,
    limit: usize,
    now: Moment,
    list: Seq<LobbyListingView>,
    i: int,
    j: int,
) -> (at: (int, int))
    requires
        shown_to(a, ip, gid, limit, now, list),
        0 <= i < j < list.len(),
    ensures
        0 <= at.0 < at.1 < assoc::value(a.gid_lobbies, gid).len(),
        assoc::value(a.gid_lobbies, gid)[at.0] == list[i].lid,
        assoc::value(a.gid_lobbies, gid)[at.1] == list[j].lid,
{
    let ids = a.lobbies_of(gid);
    let found = ids.filter(a.shown(gid));
    assert(list[i].lid == found[i] && list[j].lid == found[j]);
    picking::lemma_filter_order(ids, a.shown(gid), i, j)
}

/// A lobby that could be shown is not passed over for one that was opened later.
pub proof fn law_no_lobby_is_passed_over(
    a: LoopView,
    ip: IpAddr,
    gid: Seq<char>,
    limit: usize,
    now: Moment,
    list: Seq<LobbyListingView>,
    x: int,
    y: int,
    j: int,
) -> (i: int)
    requires
        a.named(),
        shown_to(a, ip, gid, limit, now, list),
        assoc::has(a.gid_lobbies, gid),
        0 <= x < y < assoc::value(a.gid_lobbies, gid).len(),
        ({
            let key = LobbyKey { lid: assoc::value(a.gid_lobbies, gid)[x], gid };
            a.has_lobby(key) && a.lobby(key).listed && a.lobby(key).players.len() < a.lobby(
                key,
            ).capacity
        }),
        0 <= j < list.len(),
        list[j].lid == assoc::value(a.gid_lobbies, gid)[y],
    ensures
        0 <= i < j,
        list[i].lid == assoc::value(a.gid_lobbies, gid)[x],
{
    let ids = a.lobbies_of(gid);
    let found = ids.filter(a.shown(gid));
    assert(list[j].lid == found[j]);
    let i = picking::lemma_filter_before(ids, a.shown(gid), x, y, j);
    assert(list[i].lid == found[i]);
    i
}

/// Whoever looks for lobbies is shown them if a session has come from their address and the address
/// has not been served too often of late; else they are told so. Either way nothing changes but
/// that the address's budget was asked for one service.
pub proof fn law_looking_for_lobbies(
    a: LoopView,
    ip: IpAddr,
    gid: Seq<char>,
    limit: usize,
    now: Moment,
)
    requires
        a.named(),
    ensures
        ({
            let op = OpView::ListLobbies { ip, gid, limit };
            let b = a.step(op, now, 0, 0);
            &&& match a.reply(op, now, 0) {
                ReplyView::Listing(Ok(_)) => a.has_peer(ip) && a.peer(ip).sessions_budget.affords(
                    1,
                    now,
                ),
                ReplyView::Listing(Err(kick)) => kick == (KickView::Violation {
                    code: "rate_limited"@,
                    msg: "Sessions per IP cap"@,
                }) && !(a.has_peer(ip) && a.peer(ip).sessions_budget.affords(1, now)),
                _ => false,
            }
            &&& b.lobbies == a.lobbies
            &&& b.players == a.players
            &&& b.gid_lobbies == a.gid_lobbies
            &&& b.ice_servers == a.ice_servers
            &&& other_peers_kept(a.peers, b.peers, ip)
            &&& a.has_peer(ip) ==> b.has_peer(ip) && b.peer(ip) == (PeerView {
                sessions_budget: a.peer(ip).sessions_budget.asked(1, now),
                ..a.peer(ip)
            })
        }),
{
    lemma_served(a, ip, now);
}

/// What becomes of the addresses when one of them asks to be served.
pub proof fn lemma_served(a: LoopView, ip: IpAddr, now: Moment)
    requires
        a.named(),
    ensures
        other_peers_kept(a.peers, a.cap_ip(ip, now).peers, ip),
        a.has_peer(ip) ==> a.cap_ip(ip, now).has_peer(ip) && a.cap_ip(ip, now).peer(ip) == (
        PeerView {
            sessions_budget: a.peer(ip).sessions_budget.asked(1, now),
            ..a.peer(ip)
        }),
{
    if a.has_peer(ip) {
        assoc::lemma_put_value(a.peers, ip, a.peer(ip).asked(now));
        assert(a.peers[assoc::place(a.peers, ip)].0 == ip);
    }
}

} // verus!
