//! What comes of each thing that a client of the event-loop server sends, or that happens to their
//! session.

use crate::blaster::laws;
use crate::blaster::model::{LoopView, OpView};
use crate::blaster::payloads::{
    ClientMessage, LobbyListingView, ServerMessage, ServerMessageView,
};
use crate::clock::Moment;
use crate::frame::Frame;
use crate::id::{BasicId, GameId, IpAddr, LobbyId};
use crate::protocol::aux::Metadata;
use crate::protocol::payloads::KickView;
use crate::session::{ActionView, Event, SessionView, IDLE_TIMEOUT, QUEUE_CAP};
use crate::tokens::BucketView;
use vstd::prelude::*;

verus! {

/// The client may send a frame of so many bytes now.
pub open spec fn within_budget(s: SessionView, len: usize, now: Moment) -> bool {
    s.payloads_budget.affords(1, now) && s.bandwidth_budget.affords(len as nat, now)
}

/// The session has been charged for a frame of so many bytes, and is otherwise as before.
pub open spec fn charged(s: SessionView, t: SessionView, len: usize, now: Moment) -> bool {
    &&& t.payloads_budget == s.payloads_budget.asked(1, now)
    &&& t.bandwidth_budget == s.bandwidth_budget.asked(len as nat, now)
    &&& t.relays_budget == s.relays_budget
    &&& t.stop == s.stop
    &&& t.real_ip == s.real_ip
    &&& t.pid == s.pid
    &&& t.bye_reason == s.bye_reason
}

/// The client was told why they are let go, and the session is over for that reason.
pub open spec fn let_go(s: SessionView, t: SessionView, action: ActionView, why: KickView) -> bool {
    &&& action == ActionView::Transmit(ServerMessageView::Disconnected { reason: why })
    &&& t.stop
    &&& t.bye_reason == Some(why)
    &&& t.real_ip == s.real_ip
    &&& t.pid == s.pid
}

/// The reason for which a client is let go who sends a payload that makes no sense.
pub open spec fn invalid_payload() -> KickView {
    KickView::Violation { code: "bad_payload"@, msg: "Invalid payload"@ }
}

/// A payload of so many bytes comes in.
pub open spec fn sends(len: usize, msg: ClientMessage) -> Event {
    Event::Incoming { len, frame: Frame::Payload(msg) }
}

/// A guest who opens a lobby of 1 to 16 players has the server asked for just that: each thing that
/// they said of the lobby and of themselves, in its own place, from their address. A lobby of any
/// other size is no payload.
pub proof fn law_guest_hosts(
    s: SessionView,
    len: usize,
    gid: GameId,
    capacity: usize,
    listed: bool,
    player_meta: Metadata,
    lobby_meta: Metadata,
    now: Moment,
)
    requires
        s.pid is None,
        within_budget(s, len, now),
    ensures
        ({
            let event = sends(
                len,
                ClientMessage::Host { gid, capacity, listed, player_meta, lobby_meta },
            );
            if 1 <= capacity <= 16 {
                &&& charged(s, s.after(event, now), len, now)
                &&& match s.action(event, now) {
                    ActionView::AskSeat(
                        OpView::HostLobby {
                            initiator: from,
                            gid: game,
                            lobby_meta: of_lobby,
                            capacity: holds,
                            listed: shown,
                            player_metadata: of_player,
                        },
                    ) => {
                        &&& from == s.real_ip
                        &&& game == gid@
                        &&& of_lobby == lobby_meta@
                        &&& holds == capacity
                        &&& shown == listed
                        &&& of_player == player_meta@
                    },
                    _ => false,
                }
            } else {
                let_go(s, s.after(event, now), s.action(event, now), invalid_payload())
            }
        }),
{
}

/// A guest who joins a lobby has the server asked for just that lobby, with what they said of
/// themselves, from their address.
pub proof fn law_guest_joins(
    s: SessionView,
    len: usize,
    lid: LobbyId,
    player_meta: Metadata,
    now: Moment,
)
    requires
        s.pid is None,
        within_budget(s, len, now),
    ensures
        ({
            let event = sends(len, ClientMessage::Join { lid, player_meta });
            &&& charged(s, s.after(event, now), len, now)
            &&& match s.action(event, now) {
                ActionView::AskSeat(
                    OpView::JoinLobby { ip, lid: wanted, player_metadata },
                ) => {
                    &&& ip == s.real_ip
                    &&& wanted.lid == lid.lid
                    &&& wanted.gid == lid.gid@
                    &&& player_metadata == player_meta@
                },
                _ => false,
            }
        }),
{
}

/// A guest who looks for lobbies of a game has the server asked for those, as many as they want,
/// from their address.
pub proof fn law_guest_looks_for_lobbies(
    s: SessionView,
    len: usize,
    gid: GameId,
    limit: usize,
    now: Moment,
)
    requires
        s.pid is None,
        within_budget(s, len, now),
    ensures
        ({
            let event = sends(len, ClientMessage::List { gid, limit });
            &&& charged(s, s.after(event, now), len, now)
            &&& match s.action(event, now) {
                ActionView::AskListing(OpView::ListLobbies { ip, gid: game, limit: many }) => {
                    &&& ip == s.real_ip
                    &&& game == gid@
                    &&& many == limit
                },
                _ => false,
            }
        }),
{
}

/// A guest can do nothing but open a lobby, join one, look for some, and ping, of which nothing
/// comes. Whoever sends anything else is let go.
pub proof fn law_guests_do_nothing_else(
    s: SessionView,
    len: usize,
    msg: ClientMessage,
    now: Moment,
)
    requires
        s.pid is None,
        within_budget(s, len, now),
        msg !is Host,
        msg !is Join,
        msg !is List,
    ensures
        msg is Ping ==> s.action(sends(len, msg), now) == ActionView::Rest && charged(
            s,
            s.after(sends(len, msg), now),
            len,
            now,
        ),
        msg !is Ping ==> let_go(
            s,
            s.after(sends(len, msg), now),
            s.action(sends(len, msg), now),
            invalid_payload(),
        ),
{
}

/// A player's wish about their lobby, or about themselves, is handed to the server in that player's
/// name, as they put it.
pub proof fn law_players_wishes_are_handed_on(
    s: SessionView,
    len: usize,
    pid: BasicId,
    msg: ClientMessage,
    now: Moment,
)
    requires
        s.pid == Some(pid),
        within_budget(s, len, now),
        match msg {
            ClientMessage::SetListed { .. } => true,
            ClientMessage::SetCapacity { capacity } => 1 <= capacity <= 16,
            ClientMessage::SetPlayerMeta { .. } => true,
            ClientMessage::ErasePlayerMeta { .. } => true,
            ClientMessage::SetLobbyMeta { .. } => true,
            ClientMessage::EraseLobbyMeta { .. } => true,
            ClientMessage::Kick { .. } => true,
            ClientMessage::SetMaster { .. } => true,
            _ => false,
        },
    ensures
        charged(s, s.after(sends(len, msg), now), len, now),
        match (msg, s.action(sends(len, msg), now)) {
            (
                ClientMessage::SetListed { listed: wish },
                ActionView::Execute(OpView::SetListed { initiator, listed }),
            ) => initiator == pid && listed == wish,
            (
                ClientMessage::SetCapacity { capacity: wish },
                ActionView::Execute(OpView::SetCapacity { initiator, capacity }),
            ) => initiator == pid && capacity == wish,
            (
                ClientMessage::SetPlayerMeta { key: name, value: content },
                ActionView::Execute(OpView::SetPlayerMeta { pid: of, key, value }),
            ) => of == pid && key == name.0@ && value == content.0@,
            (
                ClientMessage::ErasePlayerMeta { key: name },
                ActionView::Execute(OpView::ErasePlayerMeta { pid: of, key }),
            ) => of == pid && key == name.0@,
            (
                ClientMessage::SetLobbyMeta { key: name, value: content },
                ActionView::Execute(OpView::SetLobbyMeta { initiator, key, value }),
            ) => initiator == pid && key == name.0@ && value == content.0@,
            (
                ClientMessage::EraseLobbyMeta { key: name },
                ActionView::Execute(OpView::EraseLobbyMeta { initiator, key }),
            ) => initiator == pid && key == name.0@,
            (
                ClientMessage::Kick { pid: wish },
                ActionView::Execute(OpView::KickPlayer { kicker, kickee }),
            ) => kicker == pid && kickee == wish,
            (
                ClientMessage::SetMaster { pid: wish },
                ActionView::Execute(OpView::SetMaster { initiator, new_master }),
            ) => initiator == pid && new_master == wish,
            _ => false,
        },
{
}

/// What a player passes on goes to whom they said, says what they said, and says whom it is from.
pub proof fn law_players_words_are_passed_on(
    s: SessionView,
    len: usize,
    pid: BasicId,
    msg: ClientMessage,
    now: Moment,
)
    requires
        s.pid == Some(pid),
        within_budget(s, len, now),
        msg is PassCandidate || msg is PassOffer || msg is PassAnswer,
        s.relays_budget.affords(1, now),
    ensures
        match (msg, s.action(sends(len, msg), now)) {
            (
                ClientMessage::PassCandidate { to: whom, candidate: words, mid: which },
                ActionView::Execute(
                    OpView::Relay {
                        from,
                        to,
                        msg: ServerMessageView::Candidate { from: named, candidate, mid },
                    },
                ),
            ) => from == pid && to == whom && named == pid && candidate == words.0@ && mid
                == which.0@,
            (
                ClientMessage::PassOffer { to: whom, sdp: words },
                ActionView::Execute(
                    OpView::Relay { from, to, msg: ServerMessageView::Offer { from: named, sdp } },
                ),
            ) => from == pid && to == whom && named == pid && sdp == words.0@,
            (
                ClientMessage::PassAnswer { to: whom, sdp: words },
                ActionView::Execute(
                    OpView::Relay { from, to, msg: ServerMessageView::Answer { from: named, sdp } },
                ),
            ) => from == pid && to == whom && named == pid && sdp == words.0@,
            _ => false,
        },
        ({
            let t = s.after(sends(len, msg), now);
            &&& t.relays_budget == s.relays_budget.asked(1, now)
            &&& charged(s, SessionView { relays_budget: s.relays_budget, ..t }, len, now)
        }),
{
}

/// A player who passes on too much is taken out of the lobby for it, and the session goes on.
pub proof fn law_players_pass_on_at_a_pace(
    s: SessionView,
    len: usize,
    pid: BasicId,
    msg: ClientMessage,
    now: Moment,
)
    requires
        s.pid == Some(pid),
        within_budget(s, len, now),
        msg is PassCandidate || msg is PassOffer || msg is PassAnswer,
        !s.relays_budget.affords(1, now),
    ensures
        s.action(sends(len, msg), now) == ActionView::Execute(
            OpView::RemovePlayer {
                pid,
                reason: Some(
                    KickView::Violation {
                        code: "rate_limited"@,
                        msg: "Bandwidth patrol! ("@ + s.relays_budget.identifier + ")"@,
                    },
                ),
            },
        ),
        ({
            let t = s.after(sends(len, msg), now);
            &&& t.relays_budget == s.relays_budget.asked(1, now)
            &&& charged(s, SessionView { relays_budget: s.relays_budget, ..t }, len, now)
        }),
{
}

/// A player who pings is answered. One who asks for a lobby of no player or of more than 16, or who
/// opens, joins or looks for a lobby, is let go.
pub proof fn law_players_other_payloads(
    s: SessionView,
    len: usize,
    pid: BasicId,
    msg: ClientMessage,
    now: Moment,
)
    requires
        s.pid == Some(pid),
        within_budget(s, len, now),
    ensures
        msg is Ping ==> s.action(sends(len, msg), now) == ActionView::Transmit(
            ServerMessageView::Pong,
        ) && charged(s, s.after(sends(len, msg), now), len, now),
        (msg is Host || msg is Join || msg is List || (msg matches ClientMessage::SetCapacity {
            capacity,
        } && (capacity < 1 || capacity > 16))) ==> let_go(
            s,
            s.after(sends(len, msg), now),
            s.action(sends(len, msg), now),
            invalid_payload(),
        ),
{
}

/// A text that is no payload, and something that is no text, is what a client is let go for; closing
/// the connection ends the session; and of anything else nothing comes.
pub proof fn law_other_frames(
    s: SessionView,
    len: usize,
    frame: Frame<ClientMessage>,
    now: Moment,
)
    requires
        within_budget(s, len, now),
    ensures
        ({
            let event = Event::Incoming { len, frame };
            let t = s.after(event, now);
            match frame {
                Frame::Payload(_) => true,
                Frame::Garbled => let_go(
                    s,
                    t,
                    s.action(event, now),
                    KickView::Violation { code: "bad_json"@, msg: "JSON parse error"@ },
                ),
                Frame::Binary => let_go(
                    s,
                    t,
                    s.action(event, now),
                    KickView::Violation {
                        code: "binary_unsupported"@,
                        msg: "Binary messages not supported"@,
                    },
                ),
                Frame::Close => s.action(event, now) == ActionView::Rest && t.stop && charged(
                    s,
                    SessionView { stop: s.stop, ..t },
                    len,
                    now,
                ),
                Frame::Other => s.action(event, now) == ActionView::Rest && charged(s, t, len, now),
            }
        }),
{
}

/// A client who sends too many payloads, or too many bytes, is let go for the budget that they
/// overdrew, the one for payloads first.
pub proof fn law_overdrawn_budgets(
    s: SessionView,
    len: usize,
    frame: Frame<ClientMessage>,
    now: Moment,
)
    requires
        !within_budget(s, len, now),
    ensures
        let_go(
            s,
            s.after(Event::Incoming { len, frame }, now),
            s.action(Event::Incoming { len, frame }, now),
            KickView::Violation {
                code: "rate_limited"@,
                msg: "Bandwidth patrol! ("@ + (if !s.payloads_budget.affords(1, now) {
                    s.payloads_budget.identifier
                } else {
                    s.bandwidth_budget.identifier
                }) + ")"@,
            },
        ),
{
}

/// When nothing happens for long, the session of a guest ends and that of a player goes on; when the
/// connection breaks, either ends. Nothing is done about it, and nothing else changes.
pub proof fn law_silence(s: SessionView, now: Moment)
    ensures
        s.action(Event::Idle, now) == ActionView::Rest,
        s.after(Event::Idle, now) == (SessionView { stop: s.pid is None, ..s }),
        s.action(Event::Broken, now) == ActionView::Rest,
        s.after(Event::Broken, now) == (SessionView { stop: true, ..s }),
{
}

/// A message that the server has for a player is sent as it is. One that shows the player the door
/// ends the session for the reason that it gives; no other changes anything.
pub proof fn law_messages_are_sent_as_they_are(s: SessionView, msg: ServerMessage, now: Moment)
    ensures
        s.action(Event::Outgoing(msg), now) == ActionView::Transmit(msg@),
        s.after(Event::Outgoing(msg), now) == match msg {
            ServerMessage::Disconnected { reason } => SessionView {
                stop: true,
                bye_reason: Some(reason@),
                ..s
            },
            _ => s,
        },
{
}

/// A session in which nothing happens is looked at every five seconds, and 120 messages may wait for
/// it.
pub proof fn law_how_long_and_how_many()
    ensures
        IDLE_TIMEOUT == 5 * 1_000_000_000,
        QUEUE_CAP == 120,
{
}

/// A new session is a guest's. The client may send 60 payloads and 12288 bytes and have 40 messages
/// passed on at once, and, up to what comes in in a second, 30, 4096 and 5 a second after that.
pub proof fn law_new_sessions(real_ip: IpAddr, now: Moment)
    ensures
        ({
            let s = SessionView::fresh(real_ip, now);
            &&& !s.stop
            &&& s.real_ip == real_ip
            &&& s.pid is None
            &&& s.bye_reason is None
            &&& s.payloads_budget == (BucketView {
                identifier: "payloads"@,
                tokens: 60 * 1_000_000_000,
                last_refill: now,
                rate: 30,
                max: 30,
            })
            &&& s.relays_budget == (BucketView {
                identifier: "relays"@,
                tokens: 40 * 1_000_000_000,
                last_refill: now,
                rate: 5,
                max: 5,
            })
            &&& s.bandwidth_budget == (BucketView {
                identifier: "bandwidth"@,
                tokens: 12288 * 1_000_000_000,
                last_refill: now,
                rate: 4096,
                max: 4096,
            })
        }),
{
}

/// Whoever has been shown lobbies has what they came for: they are sent the list as it came back,
/// and the session ends. It ends without a word if nothing came back, and whoever is refused is told
/// why and let go.
pub proof fn law_lobbies_are_shown(
    s: SessionView,
    answer: Option<Result<Seq<LobbyListingView>, KickView>>,
)
    ensures
        s.shown(answer).0.stop,
        s.shown(answer).0.pid == s.pid,
        match answer {
            None => s.shown(answer).1 == ActionView::Rest && s.shown(answer).0.bye_reason
                == s.bye_reason,
            Some(Ok(list)) => s.shown(answer).1 == ActionView::Transmit(
                ServerMessageView::List { list },
            ) && s.shown(answer).0.bye_reason == s.bye_reason,
            Some(Err(why)) => let_go(s, s.shown(answer).0, s.shown(answer).1, why),
        },
{
}

/// Whoever is let into a lobby plays the player under whose number they were let in, and nothing
/// else of the session changes. Whoever is refused is told why and let go.
pub proof fn law_guests_become_players(s: SessionView, answer: Option<Result<BasicId, KickView>>)
    ensures
        match answer {
            None => s.let_in(answer).1 == ActionView::Rest && s.let_in(answer).0 == s,
            Some(Ok(pid)) => {
                let t = s.let_in(answer).0;
                &&& s.let_in(answer).1 == ActionView::Rest
                &&& t.pid == Some(pid)
                &&& t == (SessionView { pid: t.pid, ..s })
            },
            Some(Err(why)) => let_go(s, s.let_in(answer).0, s.let_in(answer).1, why),
        },
{
}

/// When the session of a player is over, the player leaves their lobby, for the reason for which
/// the client was let go if they were; and the server does not know them any more. Of the end of a
/// guest's session nothing comes.
pub proof fn law_players_leave_in_the_end(s: SessionView, a: LoopView, now: Moment)
    requires
        a.consistent(),
    ensures
        match (s.pid, s.parting()) {
            (Some(pid), Some(op)) => {
                &&& !a.step(op, now, 0, 0).has_player(pid)
                &&& op matches OpView::RemovePlayer { pid: leaver, reason } && leaver == pid
                    && reason == s.bye_reason
            },
            (None, None) => true,
            _ => false,
        },
{
    if let Some(pid) = s.pid {
        if a.has_player(pid) {
            laws::law_leaver_is_gone(a, pid, s.bye_reason, now);
        }
    }
}

} // verus!
