//! What comes of each thing that a client of the mailbox server sends, or that happens to their
//! connection.

use crate::assoc;
use crate::clock::Moment;
use crate::frame::Frame;
use crate::id;
use crate::id::{BasicId, GameId, LobbyId};
use crate::mailbox::connection;
use crate::mailbox::connection::{
    ConnectionView, Event, HostRequest, JoinRequest, Pending, StepView,
};
use crate::mailbox::dialogue;
use crate::mailbox::effects;
use crate::mailbox::model::{BlasterView, LobbyView, OpView, ReplyView};
use crate::mailbox::seats;
use crate::protocol::aux;
use crate::protocol::aux::{Metadata, MetadataView};
use crate::protocol::payloads::{ClientMessage, KickView, ServerMessageView};
use crate::text;
use vstd::prelude::*;

verus! {

/// The reason for which a client is let go who sends a payload that makes no sense.
pub open spec fn invalid_payload() -> KickView {
    KickView::Violation { code: "bad_payload"@, msg: "Invalid payload"@ }
}

/// What is done about a payload of a client who has not sent too many.
pub open spec fn served(c: ConnectionView, msg: ClientMessage) -> Result<StepView, KickView> {
    c.response(Event::Incoming(Frame::Payload(msg)))
}

/// One more payload is not one too many.
pub open spec fn within_load(c: ConnectionView) -> bool {
    c.load + 1_000_000_000 < 30 * 1_000_000_000
}

/// A name that a field can have.
pub open spec fn good_name(key: Seq<char>) -> bool {
    1 <= key.len() && text::byte_len(key) <= 255
}

/// A value that a field can have.
pub open spec fn good_value(value: Seq<char>) -> bool {
    text::byte_len(value) <= 8191
}

/// Metadata that a player or a lobby can start out with: fewer than 16 fields, each with a name and
/// a value that it can have.
pub open spec fn good_metadata(meta: MetadataView) -> bool {
    meta.len() < 16 && forall|i: int|
        0 <= i < meta.len() ==> good_name((#[trigger] meta[i]).0) && good_value(meta[i].1)
}

/// There are as many players in the lobby as it holds.
pub open spec fn full(server: BlasterView, lid: id::LobbyKey) -> bool {
    server.has_lobby(lid) && effects::headcount(server.players, lid) >= server.lobby(lid).capacity
}

/// Whatever happens to a connection, but for nothing, counts as one payload; a client who has sent
/// 30 that time has not made up for is let go. When nothing happens, nothing is done.
pub proof fn law_payloads_are_counted(c: ConnectionView, event: Event)
    requires
        c.load <= u64::MAX,
    ensures
        event is Tick ==> c.responded(event) == c && c.response(event) == Ok::<StepView, KickView>(
            StepView::Continue,
        ),
        event !is Tick ==> c.responded(event) == (ConnectionView {
            load: c.responded(event).load,
            ..c
        }),
        event !is Tick ==> c.responded(event).load == if c.load + 1_000_000_000 <= u64::MAX {
            (c.load + 1_000_000_000) as nat
        } else {
            u64::MAX as nat
        },
        event !is Tick && !within_load(c) ==> c.response(event) == Err::<StepView, KickView>(
            KickView::Violation { code: "rate_limited"@, msg: "Too many payloads"@ },
        ),
        event is Broken && within_load(c) ==> c.response(event) == Ok::<StepView, KickView>(
            StepView::Stop,
        ),
{
}

/// Time makes up for 30 payloads a second, as far as there are any; time that goes back makes up for
/// none.
pub proof fn law_time_makes_up_for_payloads(c: ConnectionView, start: Moment, now: Moment)
    ensures
        ({
            let d = c.reimbursed(start, now);
            &&& d == (ConnectionView { load: d.load, ..c })
            &&& start <= now ==> d.load == if c.load <= 30 * (now - start) {
                0
            } else {
                c.load - 30 * (now - start)
            }
            &&& start > now ==> d.load == c.load
        }),
{
}

/// The client of a new connection plays no player, is in no lobby, has not been let go, and has sent
/// nothing. A connection to which nothing happens is looked after every 16 milliseconds.
pub proof fn law_new_connections()
    ensures
        ({
            let c = ConnectionView::fresh();
            &&& c.pid is None
            &&& c.lid is None
            &&& c.bye_reason is None
            &&& c.load == 0
        }),
        connection::TICK_DELAY == 16 * 1_000_000,
{
}

/// What the server is asked is answered with yes, with a master or with a list, or else with none of
/// these; and whatever else comes back, or nothing, is as good as no, as no master, and as an empty
/// list.
pub proof fn law_no_answer_is_no(c: ConnectionView, pending: Pending, reply: ReplyView)
    requires
        reply != ReplyView::Answer(true),
        reply !is Master,
        reply !is Listing,
    ensures
        ({
            let no = match pending {
                Pending::Listing => ReplyView::Listing(seq![]),
                Pending::SetListed { .. } => ReplyView::Master(None),
                Pending::SetCapacity { .. } => ReplyView::Master(None),
                Pending::SetLobbyMeta { .. } => ReplyView::Master(None),
                Pending::EraseLobbyMeta { .. } => ReplyView::Master(None),
                Pending::Kick { .. } => ReplyView::Master(None),
                _ => ReplyView::Answer(false),
            };
            &&& c.resumption(pending, reply) == c.resumption(pending, no)
            &&& c.resumed(pending, reply) == c.resumed(pending, no)
        }),
{
}

/// A text that is no payload, and something that is no text, is what a client is let go for; closing
/// the connection ends it; and of anything else nothing comes.
pub proof fn law_other_frames(c: ConnectionView, frame: Frame<ClientMessage>)
    requires
        within_load(c),
    ensures
        match frame {
            Frame::Payload(_) => true,
            Frame::Garbled => c.response(Event::Incoming(frame)) == Err::<StepView, KickView>(
                KickView::Violation { code: "bad_json"@, msg: "JSON parse error"@ },
            ),
            Frame::Binary => c.response(Event::Incoming(frame)) == Err::<StepView, KickView>(
                KickView::Violation {
                    code: "binary_unsupported"@,
                    msg: "Binary messages not supported"@,
                },
            ),
            Frame::Close => c.response(Event::Incoming(frame)) == Ok::<StepView, KickView>(
                StepView::Stop,
            ),
            Frame::Other => c.response(Event::Incoming(frame)) == Ok::<StepView, KickView>(
                StepView::Continue,
            ),
        },
{
}

/// A player who pings is answered, and of anybody else's ping nothing comes. Whoever looks for
/// lobbies of a game has the server asked for those, as many as they want.
pub proof fn law_anybodys_payloads(c: ConnectionView, gid: GameId, limit: usize)
    requires
        within_load(c),
    ensures
        served(c, ClientMessage::Ping) == Ok::<StepView, KickView>(
            match c.pid {
                Some(pid) => StepView::Execute(
                    OpView::SendTo { pid, msg: ServerMessageView::Pong },
                ),
                None => StepView::Continue,
            },
        ),
        served(c, ClientMessage::List { gid, limit }) == Ok::<StepView, KickView>(
            StepView::Ask(OpView::ListLobbies { gid: gid@, limit }, Pending::Listing),
        ),
{
}

/// Whoever looks for lobbies is shown those that the server lists, and the connection ends.
pub proof fn law_lobbies_are_shown(
    c: ConnectionView,
    server: BlasterView,
    gid: GameId,
    limit: usize,
    now: Moment,
)
    requires
        within_load(c),
    ensures
        dialogue::conclusion(c, server, served(c, ClientMessage::List { gid, limit }), 1, now)
            == Ok::<StepView, KickView>(
            StepView::Show(
                ServerMessageView::List {
                    list: server.reply(
                        OpView::ListLobbies { gid: gid@, limit },
                        now,
                    )->Listing_0,
                },
            ),
        ),
{
    reveal_with_fuel(dialogue::conclusion, 2);
}

/// What a player passes on goes to whom they said, says what they said, and says whom it is from.
/// Whoever plays no player is let go for it.
pub proof fn law_players_words_are_passed_on(c: ConnectionView, msg: ClientMessage)
    requires
        within_load(c),
        msg is PassCandidate || msg is PassOffer || msg is PassAnswer,
    ensures
        c.pid is None ==> served(c, msg) == Err::<StepView, KickView>(invalid_payload()),
        c.pid is Some ==> match (msg, served(c, msg)) {
            (
                ClientMessage::PassCandidate { to: whom, candidate: words, mid: which },
                Ok(
                    StepView::Execute(
                        OpView::SendTo {
                            pid: to,
                            msg: ServerMessageView::Candidate { from, candidate, mid },
                        },
                    ),
                ),
            ) => to == whom && Some(from) == c.pid && candidate == words.0@ && mid == which.0@,
            (
                ClientMessage::PassOffer { to: whom, sdp: words },
                Ok(
                    StepView::Execute(
                        OpView::SendTo { pid: to, msg: ServerMessageView::Offer { from, sdp } },
                    ),
                ),
            ) => to == whom && Some(from) == c.pid && sdp == words.0@,
            (
                ClientMessage::PassAnswer { to: whom, sdp: words },
                Ok(
                    StepView::Execute(
                        OpView::SendTo { pid: to, msg: ServerMessageView::Answer { from, sdp } },
                    ),
                ),
            ) => to == whom && Some(from) == c.pid && sdp == words.0@,
            _ => false,
        },
{
}

/// What a player in a lobby says of themselves is handed to the server in that player's name, as
/// they put it, if the names and values are ones that a field can have; and so is their wish that
/// somebody else be master. Anybody else is let go for it.
pub proof fn law_players_wishes_are_handed_on(c: ConnectionView, msg: ClientMessage)
    requires
        within_load(c),
        msg is SetPlayerMeta || msg is ErasePlayerMeta || msg is SetMaster,
    ensures
        match msg {
            ClientMessage::SetPlayerMeta { key: name, value: content } => if c.pid is Some
                && c.lid is Some && good_name(name.0@) && good_value(content.0@) {
                served(c, msg) == Ok::<StepView, KickView>(
                    StepView::Execute(
                        OpView::SetPlayerMeta {
                            pid: c.pid->0,
                            key: name.0@,
                            value: content.0@,
                        },
                    ),
                )
            } else {
                served(c, msg) == Err::<StepView, KickView>(invalid_payload())
            },
            ClientMessage::ErasePlayerMeta { key: name } => if c.pid is Some && c.lid is Some
                && good_name(name.0@) {
                served(c, msg) == Ok::<StepView, KickView>(
                    StepView::Execute(OpView::ErasePlayerMeta { pid: c.pid->0, key: name.0@ }),
                )
            } else {
                served(c, msg) == Err::<StepView, KickView>(invalid_payload())
            },
            ClientMessage::SetMaster { pid: wish } => if c.pid is Some && c.lid is Some {
                served(c, msg) == Ok::<StepView, KickView>(
                    StepView::Execute(
                        OpView::SetLobbyMaster { initiator_pid: c.pid->0, new_master_pid: wish },
                    ),
                )
            } else {
                served(c, msg) == Err::<StepView, KickView>(invalid_payload())
            },
            _ => false,
        },
{
}

/// What a player wants done to their lobby is done, as they put it, if the server names that player
/// as its master, and is not done if not.
pub proof fn law_masters_wishes_are_carried_out(
    c: ConnectionView,
    server: BlasterView,
    msg: ClientMessage,
    pid: BasicId,
    lid: LobbyId,
    now: Moment,
)
    requires
        within_load(c),
        c.pid == Some(pid),
        c.lid == Some(lid),
        match msg {
            ClientMessage::SetListed { .. } => true,
            ClientMessage::SetCapacity { .. } => true,
            ClientMessage::SetLobbyMeta { key, value } => good_name(key.0@) && good_value(value.0@),
            ClientMessage::EraseLobbyMeta { key } => good_name(key.0@),
            _ => false,
        },
    ensures
        ({
            let said = dialogue::conclusion(c, server, served(c, msg), 1, now);
            if server.reply(OpView::MasterOf { lid: lid@ }, now) != ReplyView::Master(Some(pid)) {
                said == Ok::<StepView, KickView>(StepView::Continue)
            } else {
                match (msg, said) {
                    (
                        ClientMessage::SetListed { listed: wish },
                        Ok(StepView::Execute(OpView::SetLobbyListed { lid: which, listed })),
                    ) => which == lid@ && listed == wish,
                    (
                        ClientMessage::SetCapacity { capacity: wish },
                        Ok(StepView::Execute(OpView::SetLobbyCapacity { lid: which, capacity })),
                    ) => which == lid@ && capacity == wish,
                    (
                        ClientMessage::SetLobbyMeta { key: name, value: content },
                        Ok(StepView::Execute(OpView::SetLobbyMeta { lid: which, key, value })),
                    ) => which == lid@ && key == name.0@ && value == content.0@,
                    (
                        ClientMessage::EraseLobbyMeta { key: name },
                        Ok(StepView::Execute(OpView::EraseLobbyMeta { lid: which, key })),
                    ) => which == lid@ && key == name.0@,
                    _ => false,
                }
            }
        }),
{
    reveal_with_fuel(dialogue::conclusion, 2);
}

/// A player whom the server names as master of their lobby has anybody else kicked from it whom they
/// want kicked; nobody else has anybody kicked; and where the server names no master, the player is
/// let go.
pub proof fn law_masters_have_others_kicked(
    c: ConnectionView,
    server: BlasterView,
    pid: BasicId,
    lid: LobbyId,
    kickee: BasicId,
    now: Moment,
)
    requires
        within_load(c),
        c.pid == Some(pid),
        c.lid == Some(lid),
    ensures
        ({
            let said = dialogue::conclusion(
                c,
                server,
                served(c, ClientMessage::Kick { pid: kickee }),
                1,
                now,
            );
            match server.reply(OpView::MasterOf { lid: lid@ }, now) {
                ReplyView::Master(Some(master)) => if master == pid && kickee != pid {
                    said == Ok::<StepView, KickView>(
                        StepView::Execute(OpView::KickPlayer { lid: lid@, pid: kickee }),
                    )
                } else {
                    said == Ok::<StepView, KickView>(StepView::Continue)
                },
                _ => said == Err::<StepView, KickView>(invalid_payload()),
            }
        }),
{
    reveal_with_fuel(dialogue::conclusion, 2);
}

/// Whoever is in no lobby, or wants a field that no field can be, is let go for wanting a lobby
/// changed; and so is whoever plays no player, but for its fields.
pub proof fn law_strangers_wishes_are_refused(c: ConnectionView, msg: ClientMessage)
    requires
        within_load(c),
        match msg {
            ClientMessage::SetListed { .. } => c.pid is None || c.lid is None,
            ClientMessage::SetCapacity { .. } => c.pid is None || c.lid is None,
            ClientMessage::Kick { .. } => c.pid is None || c.lid is None,
            ClientMessage::SetLobbyMeta { key, value } => c.lid is None || !good_name(key.0@)
                || !good_value(value.0@),
            ClientMessage::EraseLobbyMeta { key } => c.lid is None || !good_name(key.0@),
            _ => false,
        },
    ensures
        served(c, msg) == Err::<StepView, KickView>(invalid_payload()),
{
}

/// Whoever plays a player or is in a lobby is let go for wanting to open, join or be put into one.
pub proof fn law_one_lobby_at_a_time(c: ConnectionView, msg: ClientMessage)
    requires
        within_load(c),
        c.pid is Some || c.lid is Some,
        msg is Host || msg is Join || msg is Swarm,
    ensures
        served(c, msg) == Err::<StepView, KickView>(invalid_payload()),
{
}

/// Whoever joins a lobby is let into just that lobby, under the number and with the fields that they
/// gave, unless the number is taken or what they gave makes no sense, there is no such lobby or it
/// is a swarm, or it is full; and then they are told which.
pub proof fn law_joining(
    c: ConnectionView,
    server: BlasterView,
    pid: BasicId,
    lid: LobbyId,
    player_meta: Metadata,
    now: Moment,
)
    requires
        within_load(c),
        c.pid is None,
        c.lid is None,
    ensures
        dialogue::conclusion(
            c,
            server,
            served(c, ClientMessage::Join { pid, lid, player_meta }),
            4,
            now,
        ) == if server.has_player(pid) || !id::valid_gid(lid.gid@) || !good_metadata(player_meta@) {
            Err::<StepView, KickView>(invalid_payload())
        } else if !server.has_lobby(lid@) || server.lobby(lid@).swarm {
            Err(KickView::Violation { code: "lobby_not_found"@, msg: "Lobby not found"@ })
        } else if full(server, lid@) {
            Err(KickView::Violation { code: "lobby_full"@, msg: "Lobby is full"@ })
        } else {
            Ok(
                StepView::Execute(
                    OpView::IntroducePlayer { pid, lid: lid@, player_meta: player_meta@ },
                ),
            )
        },
{
    dialogue::law_joining(c, server, JoinRequest { pid, lid, player_meta }, now);
    effects::lemma_headcount(server.players, lid@);
    lemma_good_metadata(player_meta@);
}

/// Metadata is acceptable as the connection sees it.
proof fn lemma_good_metadata(meta: MetadataView)
    ensures
        aux::meta_ok(meta) == good_metadata(meta),
{
    assert forall|i: int| 0 <= i < meta.len() implies (good_name((#[trigger] meta[i]).0)
        && good_value(meta[i].1) <==> aux::valid_field_name(meta[i].0)
        && aux::valid_field_value(meta[i].1)) by {}
}

/// Whoever opens a lobby of 1 to 16 players has just that lobby opened, with what they said of it,
/// themselves as its master, and no timer running, and is let into it, with what they said of
/// themselves; unless the number is taken or what they gave makes no sense, or there is such a lobby
/// already; and then they are told which.
pub proof fn law_hosting(
    c: ConnectionView,
    server: BlasterView,
    pid: BasicId,
    lid: LobbyId,
    capacity: usize,
    listed: bool,
    player_meta: Metadata,
    lobby_meta: Metadata,
    now: Moment,
)
    requires
        within_load(c),
        c.pid is None,
        c.lid is None,
    ensures
        dialogue::conclusion(
            c,
            server,
            served(
                c,
                ClientMessage::Host { pid, lid, capacity, listed, player_meta, lobby_meta },
            ),
            2,
            now,
        ) == if capacity < 1 || capacity > 16 || server.has_player(pid) || !id::valid_gid(
            lid.gid@,
        ) || !good_metadata(player_meta@) || !good_metadata(lobby_meta@) {
            Err::<StepView, KickView>(invalid_payload())
        } else if server.has_lobby(lid@) {
            Err(KickView::Violation { code: "lobby_exists"@, msg: "Lobby already exists"@ })
        } else {
            Ok(
                StepView::ExecuteBoth(
                    OpView::InsertLobby {
                        lid: lid@,
                        lobby: LobbyView {
                            master: pid,
                            meta: lobby_meta@,
                            capacity,
                            listed,
                            swarm: false,
                            death_timer: None,
                        },
                    },
                    OpView::IntroducePlayer { pid, lid: lid@, player_meta: player_meta@ },
                ),
            )
        },
{
    dialogue::law_hosting(
        c,
        server,
        HostRequest { pid, lid, capacity, listed, player_meta, lobby_meta },
        now,
    );
    lemma_good_metadata(player_meta@);
    lemma_good_metadata(lobby_meta@);
}

/// The swarm of the game that comes so many numbers after its first one, whose number is the FNV-1a
/// hash of the game's name.
pub open spec fn swarm(gid: GameId, n: nat) -> id::LobbyKey {
    id::LobbyKey {
        lid: (connection::fnv1a(vstd::utf8::encode_utf8(gid@)) + n) as u64,
        gid: gid@,
    }
}

/// Whoever wants to be put into a swarm of a game is let into the first one that is not full, under
/// the number and with the fields that they gave. If it is not there, it is opened first, with what
/// they said of it, themselves as its master, 16 places, and not listed. If their number is taken,
/// or what they gave makes no sense, they are told so.
pub proof fn law_swarming(
    c: ConnectionView,
    server: BlasterView,
    pid: BasicId,
    gid: GameId,
    player_meta: Metadata,
    lobby_meta: Metadata,
    n: nat,
    now: Moment,
)
    requires
        within_load(c),
        c.pid is None,
        c.lid is None,
        connection::fnv1a(vstd::utf8::encode_utf8(gid@)) + n <= u64::MAX,
        forall|i: nat| i < n ==> full(server, #[trigger] swarm(gid, i)),
        !full(server, swarm(gid, n)),
    ensures
        dialogue::conclusion(
            c,
            server,
            served(c, ClientMessage::Swarm { pid, gid, player_meta, lobby_meta }),
            n + 3,
            now,
        ) == if server.has_player(pid) || !id::valid_gid(gid@) || !good_metadata(player_meta@)
            || !good_metadata(lobby_meta@) {
            Err::<StepView, KickView>(invalid_payload())
        } else if server.has_lobby(swarm(gid, n)) {
            Ok(
                StepView::Execute(
                    OpView::IntroducePlayer {
                        pid,
                        lid: swarm(gid, n),
                        player_meta: player_meta@,
                    },
                ),
            )
        } else {
            Ok(
                StepView::ExecuteBoth(
                    OpView::InsertLobby {
                        lid: swarm(gid, n),
                        lobby: LobbyView {
                            master: pid,
                            meta: lobby_meta@,
                            capacity: 16,
                            listed: false,
                            swarm: true,
                            death_timer: None,
                        },
                    },
                    OpView::IntroducePlayer {
                        pid,
                        lid: swarm(gid, n),
                        player_meta: player_meta@,
                    },
                ),
            )
        },
{
    let first = LobbyId { lid: connection::swarm_number(gid@), gid };
    assert forall|i: nat| i < n implies server.lobby_full(
        #[trigger] dialogue::swarm_after(first, i)@,
    ) by {
        assert(full(server, swarm(gid, i)));
        effects::lemma_headcount(server.players, swarm(gid, i));
    }
    assert(dialogue::swarm_after(first, n)@ == swarm(gid, n));
    effects::lemma_headcount(server.players, swarm(gid, n));
    lemma_good_metadata(player_meta@);
    lemma_good_metadata(lobby_meta@);
    dialogue::law_swarming(c, server, pid, gid, player_meta, lobby_meta, n, now);
}

/// A connection notes the player and the lobby as whom and into which its client wants to get once
/// their number is free and what they gave makes sense, and nothing else; the lobby of whoever is
/// put into a swarm, once one is found.
pub proof fn law_noting_who_is_let_in(c: ConnectionView, pending: Pending, reply: ReplyView)
    ensures
        ({
            let d = c.resumed(pending, reply);
            let free = reply != ReplyView::Answer(true);
            &&& d == (ConnectionView { pid: d.pid, lid: d.lid, ..c })
            &&& match pending {
                Pending::HostPlayer(req) => if free && id::valid_gid(req.lid.gid@)
                    && good_metadata(req.player_meta@) && good_metadata(req.lobby_meta@) {
                    d.pid == Some(req.pid) && d.lid == Some(req.lid)
                } else {
                    d.pid == c.pid && d.lid == c.lid
                },
                Pending::JoinPlayer(req) => if free && id::valid_gid(req.lid.gid@)
                    && good_metadata(req.player_meta@) {
                    d.pid == Some(req.pid) && d.lid == Some(req.lid)
                } else {
                    d.pid == c.pid && d.lid == c.lid
                },
                Pending::SwarmPlayer(req) => d.lid == c.lid && d.pid == if free && id::valid_gid(
                    req.lid.gid@,
                ) && good_metadata(req.player_meta@) && good_metadata(req.lobby_meta@) {
                    Some(req.pid)
                } else {
                    c.pid
                },
                Pending::SwarmFull(req) => d.pid == c.pid && d.lid == if free {
                    Some(req.lid)
                } else {
                    c.lid
                },
                _ => d.pid == c.pid && d.lid == c.lid,
            }
        }),
{
    match pending {
        Pending::HostPlayer(req) => {
            lemma_good_metadata(req.player_meta@);
            lemma_good_metadata(req.lobby_meta@);
        },
        Pending::JoinPlayer(req) => {
            lemma_good_metadata(req.player_meta@);
        },
        Pending::SwarmPlayer(req) => {
            lemma_good_metadata(req.player_meta@);
            lemma_good_metadata(req.lobby_meta@);
        },
        _ => {},
    }
}

/// Of the messages that waited, all are sent up to the first one that shows the client the door, and
/// that one.
pub proof fn law_nothing_follows_a_farewell(queue: Seq<ServerMessageView>)
    ensures
        ({
            let sent = connection::up_to_bye(queue);
            &&& sent.len() <= queue.len()
            &&& sent == queue.take(sent.len() as int)
            &&& forall|i: int| 0 <= i < sent.len() - 1 ==> !((#[trigger] queue[i]) is Disconnected)
            &&& sent.len() < queue.len() ==> sent.len() > 0 && sent.last() is Disconnected
        }),
    decreases queue.len(),
{
    let sent = connection::up_to_bye(queue);
    if queue.len() > 0 {
        let shorter = queue.drop_last();
        law_nothing_follows_a_farewell(shorter);
        let earlier = connection::up_to_bye(shorter);
        if connection::ends_in_bye(earlier) {
            assert(shorter.take(earlier.len() as int) =~= queue.take(earlier.len() as int));
            assert forall|i: int| 0 <= i < sent.len() - 1 implies !((
            #[trigger] queue[i]) is Disconnected) by {
                assert(shorter[i] == queue[i]);
            }
        } else {
            assert(earlier.len() == shorter.len());
            assert(queue.take(queue.len() as int) =~= queue);
            assert forall|i: int| 0 <= i < sent.len() - 1 implies !((
            #[trigger] queue[i]) is Disconnected) by {
                assert(shorter[i] == queue[i]);
                assert(earlier =~= shorter);
            }
        }
    } else {
        assert(queue.take(0) =~= queue);
    }
}

/// A connection notes the reason of the last message that shows its client the door, and nothing
/// else of what it sends.
pub proof fn law_noting_the_farewell(c: ConnectionView, msgs: Seq<ServerMessageView>)
    ensures
        ({
            let d = c.sending_all(msgs);
            &&& d == (ConnectionView { bye_reason: d.bye_reason, ..c })
            &&& msgs.len() > 0 ==> match msgs.last() {
                ServerMessageView::Disconnected { reason } => d.bye_reason == Some(reason),
                _ => d.bye_reason == c.sending_all(msgs.drop_last()).bye_reason,
            }
            &&& msgs.len() == 0 ==> d.bye_reason == c.bye_reason
        }),
    decreases msgs.len(),
{
    if msgs.len() > 0 {
        law_noting_the_farewell(c, msgs.drop_last());
    }
}

/// When the connection of a player in a lobby is over, the player leaves that lobby, for the reason
/// for which the client was let go if they were; and the server does not know them any more. Of the
/// end of any other connection nothing of the kind comes.
pub proof fn law_players_leave_in_the_end(c: ConnectionView, a: BlasterView, now: Moment)
    requires
        a.wf(),
    ensures
        match (c.pid, c.lid, c.parting()) {
            (Some(pid), Some(lid), Some(op)) => {
                &&& !a.step(op, now).has_player(pid)
                &&& op matches OpView::RemovePlayer { lid: left, pid: leaver, reason } && left == lid@
                    && leaver == pid && reason == c.bye_reason
            },
            (Some(_), Some(_), None) => false,
            (_, _, Some(_)) => false,
            _ => true,
        },
{
    if c.pid is Some && c.lid is Some {
        let pid = c.pid->0;
        let lid = c.lid->0@;
        let left = assoc::without(a.players, pid);
        if a.has_player(pid) {
            let at = assoc::place(a.players, pid);
            assert(a.players[at].0 == pid && left == a.players.remove(at));
        }
        assert(seats::stay(a.players, pid, left));
        if a.has_lobby(lid) {
            seats::law_leaving(a, lid, pid, c.bye_reason, now, left);
        } else {
            seats::law_leaving_no_lobby(a, lid, pid, c.bye_reason, now, left);
            assoc::lemma_without_value(a.players, pid);
            let b = a.step(OpView::RemovePlayer { lid, pid, reason: c.bye_reason }, now);
            assoc::lemma_same_keys(left, b.players);
            assert(assoc::has(b.players, pid) <==> assoc::has(left, pid));
        }
    }
}

} // verus!
