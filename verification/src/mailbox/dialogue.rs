//! What becomes of a client's wishes when the mailbox server answers a connection's questions.

use crate::assoc;
use crate::clock::Moment;
use crate::frame;
use crate::id;
use crate::id::{BasicId, GameId, LobbyId};
use crate::mailbox::connection;
use crate::mailbox::connection::{
    ConnectionView, HostRequest, JoinRequest, Pending, StepView, SwarmRequest,
};
use crate::mailbox::model::{BlasterView, LobbyView, OpView, PlayerView, ReplyView};
use crate::protocol::aux;
use crate::protocol::aux::Metadata;
use crate::protocol::payloads;
use crate::protocol::payloads::{ClientMessage, KickView, ServerMessageView};
use crate::MAX_PLAYERS;
use vstd::prelude::*;

verus! {

/// What it comes to when the server answers the question, and the questions that follow from the
/// answer, up to `questions` of them, with nothing else going on at the server.
pub open spec fn conclusion(
    c: ConnectionView,
    server: BlasterView,
    said: Result<StepView, KickView>,
    questions: nat,
    now: Moment,
) -> Result<StepView, KickView>
    decreases questions,
{
    match said {
        Ok(StepView::Ask(op, pending)) => if questions == 0 {
            said
        } else {
            let reply = server.reply(op, now);
            conclusion(
                c.resumed(pending, reply),
                server.step(op, now),
                c.resumption(pending, reply),
                (questions - 1) as nat,
                now,
            )
        },
        _ => said,
    }
}

/// Why somebody may not join a lobby, if they may not.
pub open spec fn join_refusal(server: BlasterView, req: JoinRequest) -> Option<KickView> {
    if server.has_player(req.pid) || !id::valid_gid(req.lid@.gid) || !aux::meta_ok(
        req.player_meta@,
    ) {
        Some(frame::bad_payload())
    } else if !server.has_lobby(req.lid@) || server.lobby(req.lid@).swarm {
        Some(payloads::violation("lobby_not_found"@, "Lobby not found"@))
    } else if server.lobby_full(req.lid@) {
        Some(payloads::violation("lobby_full"@, "Lobby is full"@))
    } else {
        None
    }
}

/// Somebody who wants to join a lobby gets into it if it is there, is no swarm and has room, and is
/// told what stands in the way if not.
pub proof fn law_joining(c: ConnectionView, server: BlasterView, req: JoinRequest, now: Moment)
    requires
        c.idle(),
    ensures
        conclusion(
            c,
            server,
            c.answer_to(
                ClientMessage::Join { pid: req.pid, lid: req.lid, player_meta: req.player_meta },
            ),
            4,
            now,
        ) == match join_refusal(server, req) {
            Some(kick) => Err::<StepView, KickView>(kick),
            None => Ok(
                StepView::Execute(
                    OpView::IntroducePlayer {
                        pid: req.pid,
                        lid: req.lid@,
                        player_meta: req.player_meta@,
                    },
                ),
            ),
        },
{
    reveal_with_fuel(conclusion, 5);
}

/// Why somebody may not open a lobby, if they may not.
pub open spec fn host_refusal(server: BlasterView, req: HostRequest) -> Option<KickView> {
    if !(1 <= req.capacity <= MAX_PLAYERS) || server.has_player(req.pid) || !id::valid_gid(
        req.lid@.gid,
    ) || !aux::meta_ok(req.player_meta@) || !aux::meta_ok(req.lobby_meta@) {
        Some(frame::bad_payload())
    } else if server.has_lobby(req.lid@) {
        Some(payloads::violation("lobby_exists"@, "Lobby already exists"@))
    } else {
        None
    }
}

/// The lobby that a host opens.
pub open spec fn hosted(req: HostRequest) -> LobbyView {
    LobbyView {
        master: req.pid,
        meta: req.lobby_meta@,
        capacity: req.capacity,
        listed: req.listed,
        swarm: false,
        death_timer: None,
    }
}

/// Somebody who wants to open a lobby gets one, with themselves in it, unless its name is taken,
/// and is told what stands in the way if not.
pub proof fn law_hosting(c: ConnectionView, server: BlasterView, req: HostRequest, now: Moment)
    requires
        c.idle(),
    ensures
        conclusion(
            c,
            server,
            c.answer_to(
                ClientMessage::Host {
                    pid: req.pid,
                    lid: req.lid,
                    capacity: req.capacity,
                    listed: req.listed,
                    player_meta: req.player_meta,
                    lobby_meta: req.lobby_meta,
                },
            ),
            2,
            now,
        ) == match host_refusal(server, req) {
            Some(kick) => Err::<StepView, KickView>(kick),
            None => Ok(
                StepView::ExecuteBoth(
                    OpView::InsertLobby { lid: req.lid@, lobby: hosted(req) },
                    OpView::IntroducePlayer {
                        pid: req.pid,
                        lid: req.lid@,
                        player_meta: req.player_meta@,
                    },
                ),
            ),
        },
{
    reveal_with_fuel(conclusion, 3);
}

/// The swarm of a game that comes so many numbers after `first`.
pub open spec fn swarm_after(first: LobbyId, n: nat) -> LobbyId {
    LobbyId { lid: (first.lid + n) as u64, gid: first.gid }
}

/// What it comes to when the swarm is tried that comes `n` numbers before one with room.
proof fn lemma_swarm_search(
    c: ConnectionView,
    server: BlasterView,
    req: SwarmRequest,
    n: nat,
    now: Moment,
)
    requires
        req.lid.lid + n <= u64::MAX,
        forall|i: nat| i < n ==> server.lobby_full(#[trigger] swarm_after(req.lid, i)@),
        !server.lobby_full(swarm_after(req.lid, n)@),
    ensures
        conclusion(
            c,
            server,
            Ok(StepView::Ask(OpView::LobbyFull { lid: req.lid@ }, Pending::SwarmFull(req))),
            n + 2,
            now,
        ) == Ok::<StepView, KickView>(
            entry(server, SwarmRequest { lid: swarm_after(req.lid, n), ..req }),
        ),
    decreases n,
{
    reveal_with_fuel(conclusion, 3);
    assert(swarm_after(req.lid, 0) == req.lid);
    let reply = server.reply(OpView::LobbyFull { lid: req.lid@ }, now);
    if n > 0 {
        assert(server.lobby_full(swarm_after(req.lid, 0)@));
        let next = SwarmRequest { lid: swarm_after(req.lid, 1), ..req };
        let fewer = (n - 1) as nat;
        assert forall|i: nat| i < fewer implies server.lobby_full(
            #[trigger] swarm_after(next.lid, i)@,
        ) by {
            assert(swarm_after(next.lid, i) == swarm_after(req.lid, i + 1));
        }
        assert(swarm_after(next.lid, fewer) == swarm_after(req.lid, n));
        lemma_swarm_search(c, server, next, fewer, now);
        assert(c.resumption(Pending::SwarmFull(req), reply) == Ok::<StepView, KickView>(
            StepView::Ask(OpView::LobbyFull { lid: next.lid@ }, Pending::SwarmFull(next)),
        ));
        assert(SwarmRequest { lid: swarm_after(next.lid, fewer), ..next } == SwarmRequest {
            lid: swarm_after(req.lid, n),
            ..req
        });
    } else {
        assert(SwarmRequest { lid: swarm_after(req.lid, 0), ..req } == req);
    }
}

/// How somebody gets into a swarm: it is opened first if it is not there.
pub open spec fn entry(server: BlasterView, req: SwarmRequest) -> StepView {
    let enter = OpView::IntroducePlayer {
        pid: req.pid,
        lid: req.lid@,
        player_meta: req.player_meta@,
    };
    if server.has_lobby(req.lid@) {
        StepView::Execute(enter)
    } else {
        StepView::ExecuteBoth(
            OpView::InsertLobby {
                lid: req.lid@,
                lobby: LobbyView {
                    master: req.pid,
                    meta: req.lobby_meta@,
                    capacity: MAX_PLAYERS,
                    listed: false,
                    swarm: true,
                    death_timer: None,
                },
            },
            enter,
        )
    }
}

/// Somebody who wants to be put into a swarm gets into the first one of the game that has room.
pub proof fn law_swarming(
    c: ConnectionView,
    server: BlasterView,
    pid: BasicId,
    gid: GameId,
    player_meta: Metadata,
    lobby_meta: Metadata,
    n: nat,
    now: Moment,
)
    requires
        c.idle(),
        connection::swarm_number(gid@) + n <= u64::MAX,
        ({
            let first = LobbyId { lid: connection::swarm_number(gid@), gid };
            &&& forall|i: nat| i < n ==> server.lobby_full(#[trigger] swarm_after(first, i)@)
            &&& !server.lobby_full(swarm_after(first, n)@)
        }),
    ensures
        ({
            let first = LobbyId { lid: connection::swarm_number(gid@), gid };
            conclusion(
                c,
                server,
                c.answer_to(ClientMessage::Swarm { pid, gid, player_meta, lobby_meta }),
                n + 3,
                now,
            ) == if server.has_player(pid) || !id::valid_gid(gid@) || !aux::meta_ok(player_meta@)
                || !aux::meta_ok(lobby_meta@) {
                Err::<StepView, KickView>(frame::bad_payload())
            } else {
                Ok(
                    entry(
                        server,
                        SwarmRequest { pid, lid: swarm_after(first, n), player_meta, lobby_meta },
                    ),
                )
            }
        }),
{
    let first = LobbyId { lid: connection::swarm_number(gid@), gid };
    let req = SwarmRequest { pid, lid: first, player_meta, lobby_meta };
    let reply = server.reply(OpView::HasPlayer { pid }, now);
    reveal_with_fuel(conclusion, 2);
    lemma_swarm_search(c.resumed(Pending::SwarmPlayer(req), reply), server, req, n, now);
}

/// What a player wants done to the lobby is done exactly if the server names that player as its
/// master.
pub proof fn law_only_masters_command(
    c: ConnectionView,
    server: BlasterView,
    msg: ClientMessage,
    pid: BasicId,
    lid: LobbyId,
    now: Moment,
)
    requires
        c.pid == Some(pid),
        c.lid == Some(lid),
        match msg {
            ClientMessage::SetListed { .. } => true,
            ClientMessage::SetCapacity { .. } => true,
            ClientMessage::SetLobbyMeta { key, value } => aux::valid_field_name(key.0@)
                && aux::valid_field_value(value.0@),
            ClientMessage::EraseLobbyMeta { key } => aux::valid_field_name(key.0@),
            _ => false,
        },
    ensures
        conclusion(c, server, c.answer_to(msg), 1, now) == Ok::<StepView, KickView>(
            if server.master_of(lid@) != Some(pid) {
                StepView::Continue
            } else {
                StepView::Execute(
                    match msg {
                        ClientMessage::SetListed { listed } => OpView::SetLobbyListed {
                            lid: lid@,
                            listed,
                        },
                        ClientMessage::SetCapacity { capacity } => OpView::SetLobbyCapacity {
                            lid: lid@,
                            capacity,
                        },
                        ClientMessage::SetLobbyMeta { key, value } => OpView::SetLobbyMeta {
                            lid: lid@,
                            key: key.0@,
                            value: value.0@,
                        },
                        ClientMessage::EraseLobbyMeta { key } => OpView::EraseLobbyMeta {
                            lid: lid@,
                            key: key.0@,
                        },
                        _ => OpView::CleanupLobbies,
                    },
                )
            },
        ),
{
    reveal_with_fuel(conclusion, 2);
}

/// A player can have another one shown the door exactly if the server names that player as the
/// master of their lobby; where it names none, it is the asking player who is shown the door.
pub proof fn law_only_masters_kick(
    c: ConnectionView,
    server: BlasterView,
    pid: BasicId,
    lid: LobbyId,
    kickee: BasicId,
    now: Moment,
)
    requires
        c.pid == Some(pid),
        c.lid == Some(lid),
    ensures
        conclusion(c, server, c.answer_to(ClientMessage::Kick { pid: kickee }), 1, now)
            == match server.master_of(lid@) {
            None => Err::<StepView, KickView>(frame::bad_payload()),
            Some(master) => Ok(
                if master == pid && kickee != pid {
                    StepView::Execute(OpView::KickPlayer { lid: lid@, pid: kickee })
                } else {
                    StepView::Continue
                },
            ),
        },
{
    reveal_with_fuel(conclusion, 2);
}

/// A client can play one player in one lobby: whoever plays a player already, or is in a lobby, is
/// shown the door for wanting to be another.
pub proof fn law_one_player_per_connection(c: ConnectionView, msg: ClientMessage)
    requires
        !c.idle(),
        msg is Host || msg is Join || msg is Swarm,
    ensures
        c.answer_to(msg) == Err::<StepView, KickView>(frame::bad_payload()),
{
}

/// Somebody who gets a lobby opened and is let into it is in it, is its master, and has been
/// greeted.
pub proof fn law_host_gets_in(server: BlasterView, req: HostRequest, t1: Moment, t2: Moment)
    requires
        server.wf(),
        host_refusal(server, req) is None,
    ensures
        ({
            let open = server.step(
                OpView::InsertLobby { lid: req.lid@, lobby: hosted(req) },
                t1,
            );
            let after = open.step(
                OpView::IntroducePlayer {
                    pid: req.pid,
                    lid: req.lid@,
                    player_meta: req.player_meta@,
                },
                t2,
            );
            &&& after.has_lobby(req.lid@)
            &&& after.lobby(req.lid@) == hosted(req)
            &&& after.has_player(req.pid)
            &&& after.player(req.pid).lid == req.lid@
            &&& after.master_of(req.lid@) == Some(req.pid)
            &&& after.player(req.pid).queue.len() > 0
            &&& after.player(req.pid).queue.last() == (ServerMessageView::Connected {
                ice_servers: server.ice_servers,
            })
        }),
{
    let lid = req.lid@;
    let open = server.with_lobby(lid, hosted(req));
    let player = PlayerView { lid, meta: req.player_meta@, queue: seq![] };
    let arrived = open.with_player(req.pid, player);
    let after = open.introduce_player(req.pid, lid, req.player_meta@);
    assoc::lemma_put_value(server.lobbies, lid, hosted(req));
    assoc::lemma_put_value(open.players, req.pid, player);
    assert(arrived.has_player(req.pid));
    assert(arrived.master_of(lid) == Some(req.pid));
    assoc::lemma_put_value(open.lobbies, lid, hosted(req));
    assert forall|i: int| 0 <= i < arrived.players.len() implies (#[trigger] arrived.players[i]).0
        == after.players[i].0 by {}
    assoc::lemma_same_keys(arrived.players, after.players);
    assert(assoc::has(after.players, req.pid) <==> assoc::has(arrived.players, req.pid));
    let i = assoc::place(arrived.players, req.pid);
    assert(arrived.players[i].0 == req.pid);
}

/// Whoever is in a lobby plays a player.
pub open spec fn sound(c: ConnectionView) -> bool {
    c.lid is Some ==> c.pid is Some
}

/// What the connection has noted is what it goes on with.
pub open spec fn fits(c: ConnectionView, pending: Pending) -> bool {
    match pending {
        Pending::Listing => true,
        Pending::HostPlayer(_) => c.idle(),
        Pending::JoinPlayer(_) => c.idle(),
        Pending::SwarmPlayer(_) => c.idle(),
        Pending::HostLobby(req) => c.pid == Some(req.pid) && c.lid == Some(req.lid),
        Pending::JoinLobby(req) => c.pid == Some(req.pid) && c.lid == Some(req.lid),
        Pending::JoinSwarm(req) => c.pid == Some(req.pid) && c.lid == Some(req.lid),
        Pending::JoinFull(req) => c.pid == Some(req.pid) && c.lid == Some(req.lid),
        Pending::SwarmFull(req) => c.pid == Some(req.pid) && c.lid is None,
        Pending::SwarmLobby(req) => c.pid == Some(req.pid) && c.lid == Some(req.lid),
        Pending::SetListed { lid, .. } => c.lid == Some(lid),
        Pending::SetCapacity { lid, .. } => c.lid == Some(lid),
        Pending::SetLobbyMeta { lid, .. } => c.lid == Some(lid),
        Pending::EraseLobbyMeta { lid, .. } => c.lid == Some(lid),
        Pending::Kick { lid, .. } => c.lid == Some(lid),
    }
}

/// Whoever has been let into a lobby under the operation is noted as being there.
pub open spec fn noted(c: ConnectionView, op: OpView) -> bool {
    op matches OpView::IntroducePlayer { pid, lid, .. } ==> c.pid == Some(pid) && c.lid is Some
        && c.lid->0@ == lid
}

/// What a connection begins fits what it has noted.
pub proof fn law_connections_begin_soundly(c: ConnectionView, event: connection::Event)
    requires
        sound(c),
    ensures
        sound(c.responded(event)),
        c.response(event) matches Ok(StepView::Ask(_, pending)) ==> fits(
            c.responded(event),
            pending,
        ),
        c.response(event) matches Ok(StepView::Execute(op)) ==> op !is IntroducePlayer,
        c.response(event) !is Ok || !(c.response(event)->Ok_0 is ExecuteBoth),
{
}

/// Whatever the server answers, a connection has noted whom it has let into which lobby, so that
/// they leave it when the connection ends.
pub proof fn law_connections_note_who_is_let_in(
    c: ConnectionView,
    pending: Pending,
    reply: ReplyView,
)
    requires
        sound(c),
        fits(c, pending),
    ensures
        sound(c.resumed(pending, reply)),
        match c.resumption(pending, reply) {
            Ok(StepView::Ask(_, next)) => fits(c.resumed(pending, reply), next),
            Ok(StepView::Execute(op)) => noted(c.resumed(pending, reply), op),
            Ok(StepView::ExecuteBoth(op, then)) => noted(c.resumed(pending, reply), op) && noted(
                c.resumed(pending, reply),
                then,
            ),
            _ => true,
        },
{
}

} // verus!
