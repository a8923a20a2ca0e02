//! A client's connection to the mailbox server: what the connection does about each thing that
//! happens to it.

use crate::clock;
use crate::clock::{Moment, MILLISECOND, SECOND};
use crate::copy;
use crate::frame;
use crate::frame::Frame;
use crate::id;
use crate::id::{BasicId, GameId, LobbyId};
use crate::mailbox::blaster::{BlasterOperation, Lobby, Reply};
use crate::mailbox::model::{LobbyView, OpView, ReplyView};
use crate::protocol::aux;
use crate::protocol::aux::Metadata;
use crate::protocol::payloads;
use crate::protocol::payloads::{
    ClientMessage, Kick, KickView, LobbyListing, LobbyListingView, ServerMessage, ServerMessageView,
};
use crate::text;
use crate::MAX_PLAYERS;
use fnv::FnvHasher;
use std::hash::Hasher;
use vstd::prelude::*;

verus! {

/// How many payloads a client may send per second.
pub const PAYLOADS_PER_SEC: u64 = 30;

/// How long a connection waits for something to come in before it looks after its player.
pub const TICK_DELAY: u64 = 16 * MILLISECOND;

/// The load at which a client has sent too many payloads.
pub const LOAD_LIMIT: u64 = PAYLOADS_PER_SEC * SECOND;

/// The 64-bit FNV-1a hash.
pub open spec fn fnv1a(bytes: Seq<u8>) -> u64
    decreases bytes.len(),
{
    if bytes.len() == 0 {
        0xcbf29ce484222325
    } else {
        (fnv1a(bytes.drop_last()) ^ (bytes.last() as u64)).wrapping_mul(0x100000001b3)
    }
}

/// The hash of nothing is the offset basis, and each byte is mixed in by an exclusive or and a
/// product with the prime.
pub proof fn law_hash_goes_byte_by_byte(bytes: Seq<u8>, byte: u8)
    ensures
        fnv1a(seq![]) == 14695981039346656037,
        fnv1a(bytes.push(byte)) == (fnv1a(bytes) ^ (byte as u64)).wrapping_mul(1099511628211),
{
    assert(bytes.push(byte).drop_last() =~= bytes);
}

/// `FnvHasher`: the hash of `bytes`, written in one go to a hasher in its default state, is their
/// 64-bit FNV-1a hash.
#[verifier::external_body]
fn fnv_hash(bytes: &[u8]) -> (h: u64)
    ensures
        h == fnv1a(bytes@),
{
    let mut hasher = FnvHasher::default();
    hasher.write(bytes);
    hasher.finish()
}

/// The number of the first swarm of a game.
pub open spec fn swarm_number(gid: Seq<char>) -> BasicId {
    fnv1a(vstd::utf8::encode_utf8(gid))
}

/// The first swarm of a game.
pub fn first_swarm(gid: GameId) -> (lid: LobbyId)
    ensures
        lid == (LobbyId { lid: swarm_number(gid@), gid }),
{
    let lid: BasicId = fnv_hash(gid.as_str().as_bytes());
    LobbyId { lid, gid }
}

/// A client's wish to open a lobby.
pub struct HostRequest {
    pub pid: BasicId,
    pub lid: LobbyId,
    pub capacity: usize,
    pub listed: bool,
    pub player_meta: Metadata,
    pub lobby_meta: Metadata,
}

/// A client's wish to join a lobby.
pub struct JoinRequest {
    pub pid: BasicId,
    pub lid: LobbyId,
    pub player_meta: Metadata,
}

/// A client's wish to be put into a swarm.
pub struct SwarmRequest {
    pub pid: BasicId,
    /// The swarm that is tried.
    pub lid: LobbyId,
    pub player_meta: Metadata,
    pub lobby_meta: Metadata,
}

/// What a connection goes on with once the server has answered its question.
pub enum Pending {
    /// Which lobbies are there?
    Listing,
    /// Is the number of the player who wants to open a lobby taken?
    HostPlayer(HostRequest),
    /// Is the name of the lobby that is to be opened taken?
    HostLobby(HostRequest),
    /// Is the number of the player who wants to join a lobby taken?
    JoinPlayer(JoinRequest),
    /// Is the lobby there?
    JoinLobby(JoinRequest),
    /// Is the lobby a swarm?
    JoinSwarm(JoinRequest),
    /// Is the lobby full?
    JoinFull(JoinRequest),
    /// Is the number of the player who wants to be put into a swarm taken?
    SwarmPlayer(SwarmRequest),
    /// Is the swarm full?
    SwarmFull(SwarmRequest),
    /// Is the swarm there?
    SwarmLobby(SwarmRequest),
    /// Who is the master of the lobby that is to be listed, or not listed any more?
    SetListed { lid: LobbyId, listed: bool },
    /// Who is the master of the lobby whose capacity is to change?
    SetCapacity { lid: LobbyId, capacity: usize },
    /// Who is the master of the lobby whose field is to be set?
    SetLobbyMeta { lid: LobbyId, key: String, value: String },
    /// Who is the master of the lobby whose field is to be erased?
    EraseLobbyMeta { lid: LobbyId, key: String },
    /// Who is the master of the lobby that somebody is to leave?
    Kick { lid: LobbyId, pid: BasicId },
}

impl Pending {
    /// The metadata that comes with the request names each field once.
    pub open spec fn wf(&self) -> bool {
        match *self {
            Pending::HostPlayer(req) => req.player_meta.wf() && req.lobby_meta.wf(),
            Pending::HostLobby(req) => req.player_meta.wf() && req.lobby_meta.wf(),
            Pending::JoinPlayer(req) => req.player_meta.wf(),
            Pending::JoinLobby(req) => req.player_meta.wf(),
            Pending::JoinSwarm(req) => req.player_meta.wf(),
            Pending::JoinFull(req) => req.player_meta.wf(),
            Pending::SwarmPlayer(req) => req.player_meta.wf() && req.lobby_meta.wf(),
            Pending::SwarmFull(req) => req.player_meta.wf() && req.lobby_meta.wf(),
            Pending::SwarmLobby(req) => req.player_meta.wf() && req.lobby_meta.wf(),
            _ => true,
        }
    }
}

/// The metadata that comes with the payload names each field once.
pub open spec fn frame_wf(frame: Frame<ClientMessage>) -> bool {
    match frame {
        Frame::Payload(ClientMessage::Host { player_meta, lobby_meta, .. }) => player_meta.wf()
            && lobby_meta.wf(),
        Frame::Payload(ClientMessage::Join { player_meta, .. }) => player_meta.wf(),
        Frame::Payload(ClientMessage::Swarm { player_meta, lobby_meta, .. }) => player_meta.wf()
            && lobby_meta.wf(),
        _ => true,
    }
}

/// What happens to a connection.
pub enum Event {
    /// Something came in.
    Incoming(Frame<ClientMessage>),
    /// The connection is gone.
    Broken,
    /// Nothing, for as long as [`TICK_DELAY`].
    Tick,
}

/// What is to be done for a connection.
pub enum Step {
    /// Nothing; the connection goes on.
    Continue,
    /// Nothing; the connection ends.
    Stop,
    /// Have the server carry out an operation; the connection goes on.
    Execute(BlasterOperation),
    /// Have the server carry out two operations, one after the other; the connection goes on.
    ExecuteBoth(BlasterOperation, BlasterOperation),
    /// Send the message over the wire; the connection ends.
    Show(ServerMessage),
    /// Have the server answer, and go on with [`Connection::resume`].
    Ask(BlasterOperation, Pending),
}

pub enum StepView {
    Continue,
    Stop,
    Execute(OpView),
    ExecuteBoth(OpView, OpView),
    Show(ServerMessageView),
    Ask(OpView, Pending),
}

impl View for Step {
    type V = StepView;

    open spec fn view(&self) -> StepView {
        match *self {
            Step::Continue => StepView::Continue,
            Step::Stop => StepView::Stop,
            Step::Execute(op) => StepView::Execute(op@),
            Step::ExecuteBoth(op, then) => StepView::ExecuteBoth(op@, then@),
            Step::Show(msg) => StepView::Show(msg@),
            Step::Ask(op, pending) => StepView::Ask(op@, pending),
        }
    }
}

impl StepView {
    /// The operations are ones that the server takes.
    pub open spec fn wf(self) -> bool {
        match self {
            StepView::Execute(op) => op.wf(),
            StepView::ExecuteBoth(op, then) => op.wf() && then.wf(),
            StepView::Ask(op, pending) => op.wf() && pending.wf(),
            _ => true,
        }
    }
}

/// `r` is what `said` says.
pub open spec fn agrees(r: Result<Step, Kick>, said: Result<StepView, KickView>) -> bool {
    match said {
        Ok(step) => r is Ok && r->Ok_0@ == step,
        Err(kick) => r is Err && r->Err_0@ == kick,
    }
}

/// The server's answer to a question that can be answered with yes. No answer is no yes.
pub open spec fn said_yes(reply: ReplyView) -> bool {
    reply == ReplyView::Answer(true)
}

/// The master whom the server named, if it named one.
pub open spec fn said_master(reply: ReplyView) -> Option<BasicId> {
    match reply {
        ReplyView::Master(master) => master,
        _ => None,
    }
}

/// The lobbies that the server listed, if it listed any.
pub open spec fn said_list(reply: ReplyView) -> Seq<LobbyListingView> {
    match reply {
        ReplyView::Listing(list) => list,
        _ => seq![],
    }
}

fn is_yes(reply: &Reply) -> (r: bool)
    ensures
        r == said_yes(reply@),
{
    match reply {
        Reply::Answer(b) => *b,
        _ => false,
    }
}

fn master_in(reply: &Reply) -> (r: Option<BasicId>)
    ensures
        r == said_master(reply@),
{
    match reply {
        Reply::Master(master) => *master,
        _ => None,
    }
}

fn list_in(reply: Reply) -> (r: Vec<LobbyListing>)
    ensures
        copy::views(r@) == said_list(reply@),
{
    match reply {
        Reply::Listing(list) => list,
        _ => {
            let list: Vec<LobbyListing> = Vec::new();
            assert(copy::views(list@) =~= seq![]);
            list
        },
    }
}

/// Whether a field's name is of an acceptable size.
fn name_fits(key: &str) -> (r: bool)
    ensures
        r == aux::valid_field_name(key@),
{
    !key.is_empty() && text::bytes_in(key) <= aux::FIELD_NAME_MAX
}

/// Whether a field's value is of an acceptable size.
fn value_fits(value: &str) -> (r: bool)
    ensures
        r == aux::valid_field_value(value@),
{
    text::bytes_in(value) <= aux::FIELD_VALUE_MAX
}

/// Whether the last of the messages shows the client the door.
pub open spec fn ends_in_bye(queue: Seq<ServerMessageView>) -> bool {
    queue.len() > 0 && queue.last() is Disconnected
}

/// The messages up to the first one that shows the client the door, and that one.
pub open spec fn up_to_bye(queue: Seq<ServerMessageView>) -> Seq<ServerMessageView>
    decreases queue.len(),
{
    if queue.len() > 0 && ends_in_bye(up_to_bye(queue.drop_last())) {
        up_to_bye(queue.drop_last())
    } else {
        queue
    }
}

/// Nothing that comes after a message that shows the client the door matters.
proof fn lemma_bye_stays(queue: Seq<ServerMessageView>, n: int)
    requires
        0 <= n <= queue.len(),
    ensures
        ends_in_bye(up_to_bye(queue.take(n))) ==> up_to_bye(queue) == up_to_bye(queue.take(n)),
    decreases queue.len(),
{
    if n == queue.len() {
        assert(queue.take(n) =~= queue);
    } else {
        lemma_bye_stays(queue.drop_last(), n);
        assert(queue.drop_last().take(n) =~= queue.take(n));
    }
}

/// A client's connection.
pub struct Connection {
    pid: Option<BasicId>,
    lid: Option<LobbyId>,
    bye_reason: Option<Kick>,
    load: u64,
}

/// What a [`Connection`] holds.
pub struct ConnectionView {
    /// The player that the client plays.
    pub pid: Option<BasicId>,
    /// The lobby that the player is in.
    pub lid: Option<LobbyId>,
    /// Why the client was let go, if they were.
    pub bye_reason: Option<KickView>,
    /// The payloads that the client has sent, less those that time has made up for, in billionths
    /// of a payload.
    pub load: nat,
}

impl View for Connection {
    type V = ConnectionView;

    closed spec fn view(&self) -> ConnectionView {
        ConnectionView {
            pid: self.pid,
            lid: self.lid,
            bye_reason: payloads::kick_said(self.bye_reason),
            load: self.load as nat,
        }
    }
}

impl ConnectionView {
    pub open spec fn fresh() -> ConnectionView {
        ConnectionView { pid: None, lid: None, bye_reason: None, load: 0 }
    }

    /// Whether the client plays no player and is in no lobby.
    pub open spec fn idle(self) -> bool {
        self.pid is None && self.lid is None
    }

    /// The connection after one more payload.
    pub open spec fn charged(self) -> ConnectionView {
        ConnectionView {
            load: if self.load + SECOND > u64::MAX {
                u64::MAX as nat
            } else {
                self.load + SECOND as nat
            },
            ..self
        }
    }

    /// The connection after so many more payloads, with no time in between.
    pub open spec fn charged_times(self, n: nat) -> ConnectionView
        decreases n,
    {
        if n == 0 {
            self
        } else {
            self.charged_times((n - 1) as nat).charged()
        }
    }

    /// Whether the client has sent too many payloads.
    pub open spec fn overloaded(self) -> bool {
        self.load >= LOAD_LIMIT
    }

    /// The kick for sending too many payloads.
    pub open spec fn overload() -> KickView {
        payloads::violation("rate_limited"@, "Too many payloads"@)
    }

    /// The connection once the time from `start` to `now` has been made up for.
    pub open spec fn reimbursed(self, start: Moment, now: Moment) -> ConnectionView {
        let credit = clock::elapsed(start, now) * PAYLOADS_PER_SEC as nat;
        ConnectionView {
            load: if credit >= self.load {
                0
            } else {
                (self.load - credit) as nat
            },
            ..self
        }
    }

    /// The connection once it has been told to send the message.
    pub open spec fn sending(self, msg: ServerMessageView) -> ConnectionView {
        match msg {
            ServerMessageView::Disconnected { reason } => ConnectionView {
                bye_reason: Some(reason),
                ..self
            },
            _ => self,
        }
    }

    /// The connection once it has been told to send the messages.
    pub open spec fn sending_all(self, msgs: Seq<ServerMessageView>) -> ConnectionView
        decreases msgs.len(),
    {
        if msgs.len() == 0 {
            self
        } else {
            self.sending_all(msgs.drop_last()).sending(msgs.last())
        }
    }

    /// What is done about a payload at first, or why the client is shown the door for it.
    pub open spec fn answer_to(self, msg: ClientMessage) -> Result<StepView, KickView> {
        match msg {
            ClientMessage::Ping => match self.pid {
                Some(pid) => Ok(
                    StepView::Execute(OpView::SendTo { pid, msg: ServerMessageView::Pong }),
                ),
                None => Ok(StepView::Continue),
            },
            ClientMessage::List { gid, limit } => Ok(
                StepView::Ask(OpView::ListLobbies { gid: gid@, limit }, Pending::Listing),
            ),
            ClientMessage::Host { pid, lid, capacity, listed, player_meta, lobby_meta } => if 1
                <= capacity <= MAX_PLAYERS && self.idle() {
                Ok(
                    StepView::Ask(
                        OpView::HasPlayer { pid },
                        Pending::HostPlayer(
                            HostRequest { pid, lid, capacity, listed, player_meta, lobby_meta },
                        ),
                    ),
                )
            } else {
                Err(frame::bad_payload())
            },
            ClientMessage::Join { pid, lid, player_meta } => if self.idle() {
                Ok(
                    StepView::Ask(
                        OpView::HasPlayer { pid },
                        Pending::JoinPlayer(JoinRequest { pid, lid, player_meta }),
                    ),
                )
            } else {
                Err(frame::bad_payload())
            },
            ClientMessage::Swarm { pid, gid, player_meta, lobby_meta } => if self.idle() {
                Ok(
                    StepView::Ask(
                        OpView::HasPlayer { pid },
                        Pending::SwarmPlayer(
                            SwarmRequest {
                                pid,
                                lid: LobbyId { lid: swarm_number(gid@), gid },
                                player_meta,
                                lobby_meta,
                            },
                        ),
                    ),
                )
            } else {
                Err(frame::bad_payload())
            },
            ClientMessage::PassCandidate { to, candidate, mid } => match self.pid {
                Some(from) => Ok(
                    StepView::Execute(
                        OpView::SendTo {
                            pid: to,
                            msg: ServerMessageView::Candidate {
                                from,
                                candidate: candidate.0@,
                                mid: mid.0@,
                            },
                        },
                    ),
                ),
                None => Err(frame::bad_payload()),
            },
            ClientMessage::PassOffer { to, sdp } => match self.pid {
                Some(from) => Ok(
                    StepView::Execute(
                        OpView::SendTo {
                            pid: to,
                            msg: ServerMessageView::Offer { from, sdp: sdp.0@ },
                        },
                    ),
                ),
                None => Err(frame::bad_payload()),
            },
            ClientMessage::PassAnswer { to, sdp } => match self.pid {
                Some(from) => Ok(
                    StepView::Execute(
                        OpView::SendTo {
                            pid: to,
                            msg: ServerMessageView::Answer { from, sdp: sdp.0@ },
                        },
                    ),
                ),
                None => Err(frame::bad_payload()),
            },
            ClientMessage::SetListed { listed } => match (self.pid, self.lid) {
                (Some(_), Some(lid)) => Ok(
                    StepView::Ask(
                        OpView::MasterOf { lid: lid@ },
                        Pending::SetListed { lid, listed },
                    ),
                ),
                _ => Err(frame::bad_payload()),
            },
            ClientMessage::SetCapacity { capacity } => match (self.pid, self.lid) {
                (Some(_), Some(lid)) => Ok(
                    StepView::Ask(
                        OpView::MasterOf { lid: lid@ },
                        Pending::SetCapacity { lid, capacity },
                    ),
                ),
                _ => Err(frame::bad_payload()),
            },
            ClientMessage::SetPlayerMeta { key, value } => match (self.pid, self.lid) {
                (Some(pid), Some(_)) => if aux::valid_field_name(key.0@) && aux::valid_field_value(
                    value.0@,
                ) {
                    Ok(
                        StepView::Execute(
                            OpView::SetPlayerMeta { pid, key: key.0@, value: value.0@ },
                        ),
                    )
                } else {
                    Err(frame::bad_payload())
                },
                _ => Err(frame::bad_payload()),
            },
            ClientMessage::ErasePlayerMeta { key } => match (self.pid, self.lid) {
                (Some(pid), Some(_)) => if aux::valid_field_name(key.0@) {
                    Ok(StepView::Execute(OpView::ErasePlayerMeta { pid, key: key.0@ }))
                } else {
                    Err(frame::bad_payload())
                },
                _ => Err(frame::bad_payload()),
            },
            ClientMessage::SetLobbyMeta { key, value } => match self.lid {
                Some(lid) => if aux::valid_field_name(key.0@) && aux::valid_field_value(value.0@) {
                    Ok(
                        StepView::Ask(
                            OpView::MasterOf { lid: lid@ },
                            Pending::SetLobbyMeta { lid, key: key.0, value: value.0 },
                        ),
                    )
                } else {
                    Err(frame::bad_payload())
                },
                None => Err(frame::bad_payload()),
            },
            ClientMessage::EraseLobbyMeta { key } => match self.lid {
                Some(lid) => if aux::valid_field_name(key.0@) {
                    Ok(
                        StepView::Ask(
                            OpView::MasterOf { lid: lid@ },
                            Pending::EraseLobbyMeta { lid, key: key.0 },
                        ),
                    )
                } else {
                    Err(frame::bad_payload())
                },
                None => Err(frame::bad_payload()),
            },
            ClientMessage::Kick { pid } => match (self.pid, self.lid) {
                (Some(_), Some(lid)) => Ok(
                    StepView::Ask(OpView::MasterOf { lid: lid@ }, Pending::Kick { lid, pid }),
                ),
                _ => Err(frame::bad_payload()),
            },
            ClientMessage::SetMaster { pid: new_master_pid } => match (self.pid, self.lid) {
                (Some(initiator_pid), Some(_)) => Ok(
                    StepView::Execute(OpView::SetLobbyMaster { initiator_pid, new_master_pid }),
                ),
                _ => Err(frame::bad_payload()),
            },
        }
    }

    /// What is done about a frame at first, or why the client is shown the door for it.
    pub open spec fn answer(self, frame: Frame<ClientMessage>) -> Result<StepView, KickView> {
        match frame {
            Frame::Payload(msg) => self.answer_to(msg),
            Frame::Garbled => Err(frame::bad_json()),
            Frame::Binary => Err(frame::binary_unsupported()),
            Frame::Close => Ok(StepView::Stop),
            Frame::Other => Ok(StepView::Continue),
        }
    }

    /// What is done about an event at first, or why the client is shown the door for it.
    pub open spec fn response(self, event: Event) -> Result<StepView, KickView> {
        match event {
            Event::Tick => Ok(StepView::Continue),
            Event::Broken => if self.charged().overloaded() {
                Err(ConnectionView::overload())
            } else {
                Ok(StepView::Stop)
            },
            Event::Incoming(frame) => if self.charged().overloaded() {
                Err(ConnectionView::overload())
            } else {
                self.answer(frame)
            },
        }
    }

    /// The connection after an event.
    pub open spec fn responded(self, event: Event) -> ConnectionView {
        match event {
            Event::Tick => self,
            _ => self.charged(),
        }
    }

    /// What is done once the server has answered, or why the client is shown the door.
    pub open spec fn resumption(self, pending: Pending, reply: ReplyView) -> Result<
        StepView,
        KickView,
    > {
        let master = said_master(reply);
        match pending {
            Pending::Listing => Ok(
                StepView::Show(ServerMessageView::List { list: said_list(reply) }),
            ),
            Pending::HostPlayer(req) => if hosts(req, reply) {
                Ok(StepView::Ask(OpView::HasLobby { lid: req.lid@ }, Pending::HostLobby(req)))
            } else {
                Err(frame::bad_payload())
            },
            Pending::HostLobby(req) => if said_yes(reply) {
                Err(payloads::violation("lobby_exists"@, "Lobby already exists"@))
            } else {
                Ok(
                    StepView::ExecuteBoth(
                        OpView::InsertLobby {
                            lid: req.lid@,
                            lobby: LobbyView {
                                master: req.pid,
                                meta: req.lobby_meta@,
                                capacity: req.capacity,
                                listed: req.listed,
                                swarm: false,
                                death_timer: None,
                            },
                        },
                        OpView::IntroducePlayer {
                            pid: req.pid,
                            lid: req.lid@,
                            player_meta: req.player_meta@,
                        },
                    ),
                )
            },
            Pending::JoinPlayer(req) => if joins(req, reply) {
                Ok(StepView::Ask(OpView::HasLobby { lid: req.lid@ }, Pending::JoinLobby(req)))
            } else {
                Err(frame::bad_payload())
            },
            Pending::JoinLobby(req) => if said_yes(reply) {
                Ok(StepView::Ask(OpView::LobbyIsSwarm { lid: req.lid@ }, Pending::JoinSwarm(req)))
            } else {
                Err(payloads::violation("lobby_not_found"@, "Lobby not found"@))
            },
            Pending::JoinSwarm(req) => if said_yes(reply) {
                Err(payloads::violation("lobby_not_found"@, "Lobby not found"@))
            } else {
                Ok(StepView::Ask(OpView::LobbyFull { lid: req.lid@ }, Pending::JoinFull(req)))
            },
            Pending::JoinFull(req) => if said_yes(reply) {
                Err(payloads::violation("lobby_full"@, "Lobby is full"@))
            } else {
                Ok(
                    StepView::Execute(
                        OpView::IntroducePlayer {
                            pid: req.pid,
                            lid: req.lid@,
                            player_meta: req.player_meta@,
                        },
                    ),
                )
            },
            Pending::SwarmPlayer(req) => if swarms(req, reply) {
                Ok(StepView::Ask(OpView::LobbyFull { lid: req.lid@ }, Pending::SwarmFull(req)))
            } else {
                Err(frame::bad_payload())
            },
            Pending::SwarmFull(req) => if said_yes(reply) {
                let next = LobbyId { lid: (req.lid.lid + 1) as u64, ..req.lid };
                Ok(
                    StepView::Ask(
                        OpView::LobbyFull { lid: next@ },
                        Pending::SwarmFull(SwarmRequest { lid: next, ..req }),
                    ),
                )
            } else {
                Ok(StepView::Ask(OpView::HasLobby { lid: req.lid@ }, Pending::SwarmLobby(req)))
            },
            Pending::SwarmLobby(req) => {
                let enter = OpView::IntroducePlayer {
                    pid: req.pid,
                    lid: req.lid@,
                    player_meta: req.player_meta@,
                };
                if said_yes(reply) {
                    Ok(StepView::Execute(enter))
                } else {
                    Ok(
                        StepView::ExecuteBoth(
                            OpView::InsertLobby {
                                lid: req.lid@,
                                lobby: LobbyView {
                                    master: req.pid,
                                    meta: req.lobby_meta@,
                                    capacity: MAX_PLAYERS,
                                    listed: false,
                                    swarm: true,
                                    death_timer: None,
                                },
                            },
                            enter,
                        ),
                    )
                }
            },
            Pending::SetListed { lid, listed } => if master is Some && master == self.pid {
                Ok(StepView::Execute(OpView::SetLobbyListed { lid: lid@, listed }))
            } else {
                Ok(StepView::Continue)
            },
            Pending::SetCapacity { lid, capacity } => if master is Some && master == self.pid {
                Ok(StepView::Execute(OpView::SetLobbyCapacity { lid: lid@, capacity }))
            } else {
                Ok(StepView::Continue)
            },
            Pending::SetLobbyMeta { lid, key, value } => if master == self.pid {
                Ok(
                    StepView::Execute(
                        OpView::SetLobbyMeta { lid: lid@, key: key@, value: value@ },
                    ),
                )
            } else {
                Ok(StepView::Continue)
            },
            Pending::EraseLobbyMeta { lid, key } => if master == self.pid {
                Ok(StepView::Execute(OpView::EraseLobbyMeta { lid: lid@, key: key@ }))
            } else {
                Ok(StepView::Continue)
            },
            Pending::Kick { lid, pid } => match master {
                None => Err(frame::bad_payload()),
                Some(mastah) => if self.pid == Some(mastah) && pid != mastah {
                    Ok(StepView::Execute(OpView::KickPlayer { lid: lid@, pid }))
                } else {
                    Ok(StepView::Continue)
                },
            },
        }
    }

    /// The connection once the server has answered.
    pub open spec fn resumed(self, pending: Pending, reply: ReplyView) -> ConnectionView {
        match pending {
            Pending::HostPlayer(req) => if hosts(req, reply) {
                ConnectionView { pid: Some(req.pid), lid: Some(req.lid), ..self }
            } else {
                self
            },
            Pending::JoinPlayer(req) => if joins(req, reply) {
                ConnectionView { pid: Some(req.pid), lid: Some(req.lid), ..self }
            } else {
                self
            },
            Pending::SwarmPlayer(req) => if swarms(req, reply) {
                ConnectionView { pid: Some(req.pid), ..self }
            } else {
                self
            },
            Pending::SwarmFull(req) => if said_yes(reply) {
                self
            } else {
                ConnectionView { lid: Some(req.lid), ..self }
            },
            _ => self,
        }
    }

    /// What the server is to do about the player when the connection is over.
    pub open spec fn parting(self) -> Option<OpView> {
        match (self.pid, self.lid) {
            (Some(pid), Some(lid)) => Some(
                OpView::RemovePlayer { lid: lid@, pid, reason: self.bye_reason },
            ),
            _ => None,
        }
    }
}

/// A client can send fewer payloads at once than it may send in a second, and not one more.
pub proof fn law_bursts_are_bounded(n: nat)
    ensures
        ConnectionView::fresh().charged_times(n).overloaded() <==> n >= PAYLOADS_PER_SEC,
        ConnectionView::fresh().charged_times(n).load == if n * SECOND > u64::MAX {
            u64::MAX as int
        } else {
            n * SECOND
        },
    decreases n,
{
    if n > 0 {
        law_bursts_are_bounded((n - 1) as nat);
    }
}

/// Who waits a second has a clean slate, unless they have sent too many payloads.
pub proof fn law_a_second_makes_up_for_all(c: ConnectionView, start: Moment, now: Moment)
    requires
        !c.overloaded(),
        start + SECOND <= now,
    ensures
        c.reimbursed(start, now).load == 0,
{
}

/// Whether the player may open a lobby: their number is not taken, and what they sent is valid.
pub open spec fn hosts(req: HostRequest, taken: ReplyView) -> bool {
    !said_yes(taken) && id::valid_gid(req.lid@.gid) && aux::meta_ok(req.player_meta@)
        && aux::meta_ok(req.lobby_meta@)
}

/// Whether the player may join a lobby: their number is not taken, and what they sent is valid.
pub open spec fn joins(req: JoinRequest, taken: ReplyView) -> bool {
    !said_yes(taken) && id::valid_gid(req.lid@.gid) && aux::meta_ok(req.player_meta@)
}

/// Whether the player may be put into a swarm: their number is not taken, and what they sent is
/// valid.
pub open spec fn swarms(req: SwarmRequest, taken: ReplyView) -> bool {
    !said_yes(taken) && id::valid_gid(req.lid@.gid) && aux::meta_ok(req.player_meta@)
        && aux::meta_ok(req.lobby_meta@)
}

impl Connection {
    pub fn new() -> (c: Self)
        ensures
            c@ == ConnectionView::fresh(),
    {
        Connection { pid: None, lid: None, bye_reason: None, load: 0 }
    }

    /// Begins to deal with a payload.
    fn serve(&self, msg: ClientMessage) -> (r: Result<Step, Kick>)
        ensures
            agrees(r, self@.answer_to(msg)),
    {
        match msg {
            ClientMessage::Ping => match self.pid {
                Some(pid) => Ok(
                    Step::Execute(BlasterOperation::SendTo { pid, msg: ServerMessage::Pong }),
                ),
                None => Ok(Step::Continue),
            },
            ClientMessage::List { gid, limit } => Ok(
                Step::Ask(BlasterOperation::ListLobbies { gid, limit }, Pending::Listing),
            ),
            ClientMessage::Host { pid, lid, capacity, listed, player_meta, lobby_meta } => {
                if capacity < 1 || capacity > MAX_PLAYERS || self.pid.is_some()
                    || self.lid.is_some() {
                    return Err(frame::kick_for_payload());
                }
                let req = HostRequest { pid, lid, capacity, listed, player_meta, lobby_meta };
                Ok(Step::Ask(BlasterOperation::HasPlayer { pid }, Pending::HostPlayer(req)))
            },
            ClientMessage::Join { pid, lid, player_meta } => {
                if self.pid.is_some() || self.lid.is_some() {
                    return Err(frame::kick_for_payload());
                }
                let req = JoinRequest { pid, lid, player_meta };
                Ok(Step::Ask(BlasterOperation::HasPlayer { pid }, Pending::JoinPlayer(req)))
            },
            ClientMessage::Swarm { pid, gid, player_meta, lobby_meta } => {
                if self.pid.is_some() || self.lid.is_some() {
                    return Err(frame::kick_for_payload());
                }
                let req = SwarmRequest { pid, lid: first_swarm(gid), player_meta, lobby_meta };
                Ok(Step::Ask(BlasterOperation::HasPlayer { pid }, Pending::SwarmPlayer(req)))
            },
            ClientMessage::PassCandidate { to, candidate, mid } => match self.pid {
                Some(from) => {
                    let msg = ServerMessage::Candidate { from, candidate: candidate.0, mid: mid.0 };
                    Ok(Step::Execute(BlasterOperation::SendTo { pid: to, msg }))
                },
                None => Err(frame::kick_for_payload()),
            },
            ClientMessage::PassOffer { to, sdp } => match self.pid {
                Some(from) => {
                    let msg = ServerMessage::Offer { from, sdp: sdp.0 };
                    Ok(Step::Execute(BlasterOperation::SendTo { pid: to, msg }))
                },
                None => Err(frame::kick_for_payload()),
            },
            ClientMessage::PassAnswer { to, sdp } => match self.pid {
                Some(from) => {
                    let msg = ServerMessage::Answer { from, sdp: sdp.0 };
                    Ok(Step::Execute(BlasterOperation::SendTo { pid: to, msg }))
                },
                None => Err(frame::kick_for_payload()),
            },
            ClientMessage::SetListed { listed } => match (self.pid, &self.lid) {
                (Some(_), Some(lid)) => {
                    let op = BlasterOperation::MasterOf { lid: lid.clone() };
                    Ok(Step::Ask(op, Pending::SetListed { lid: lid.clone(), listed }))
                },
                _ => Err(frame::kick_for_payload()),
            },
            ClientMessage::SetCapacity { capacity } => match (self.pid, &self.lid) {
                (Some(_), Some(lid)) => {
                    let op = BlasterOperation::MasterOf { lid: lid.clone() };
                    Ok(Step::Ask(op, Pending::SetCapacity { lid: lid.clone(), capacity }))
                },
                _ => Err(frame::kick_for_payload()),
            },
            ClientMessage::SetPlayerMeta { key, value } => match (self.pid, &self.lid) {
                (Some(pid), Some(_)) => {
                    if !name_fits(key.0.as_str()) || !value_fits(value.0.as_str()) {
                        return Err(frame::kick_for_payload());
                    }
                    Ok(
                        Step::Execute(
                            BlasterOperation::SetPlayerMeta { pid, key: key.0, value: value.0 },
                        ),
                    )
                },
                _ => Err(frame::kick_for_payload()),
            },
            ClientMessage::ErasePlayerMeta { key } => match (self.pid, &self.lid) {
                (Some(pid), Some(_)) => {
                    if !name_fits(key.0.as_str()) {
                        return Err(frame::kick_for_payload());
                    }
                    Ok(Step::Execute(BlasterOperation::ErasePlayerMeta { pid, key: key.0 }))
                },
                _ => Err(frame::kick_for_payload()),
            },
            ClientMessage::SetLobbyMeta { key, value } => match &self.lid {
                Some(lid) => {
                    if !name_fits(key.0.as_str()) || !value_fits(value.0.as_str()) {
                        return Err(frame::kick_for_payload());
                    }
                    let op = BlasterOperation::MasterOf { lid: lid.clone() };
                    Ok(
                        Step::Ask(
                            op,
                            Pending::SetLobbyMeta { lid: lid.clone(), key: key.0, value: value.0 },
                        ),
                    )
                },
                None => Err(frame::kick_for_payload()),
            },
            ClientMessage::EraseLobbyMeta { key } => match &self.lid {
                Some(lid) => {
                    if !name_fits(key.0.as_str()) {
                        return Err(frame::kick_for_payload());
                    }
                    let op = BlasterOperation::MasterOf { lid: lid.clone() };
                    Ok(Step::Ask(op, Pending::EraseLobbyMeta { lid: lid.clone(), key: key.0 }))
                },
                None => Err(frame::kick_for_payload()),
            },
            ClientMessage::Kick { pid } => match (self.pid, &self.lid) {
                (Some(_), Some(lid)) => {
                    let op = BlasterOperation::MasterOf { lid: lid.clone() };
                    Ok(Step::Ask(op, Pending::Kick { lid: lid.clone(), pid }))
                },
                _ => Err(frame::kick_for_payload()),
            },
            ClientMessage::SetMaster { pid: new_master_pid } => match (self.pid, &self.lid) {
                (Some(initiator_pid), Some(_)) => Ok(
                    Step::Execute(
                        BlasterOperation::SetLobbyMaster { initiator_pid, new_master_pid },
                    ),
                ),
                _ => Err(frame::kick_for_payload()),
            },
        }
    }

    /// Begins to deal with a frame.
    fn handle_client_msg(&self, frame: Frame<ClientMessage>) -> (r: Result<Step, Kick>)
        ensures
            agrees(r, self@.answer(frame)),
    {
        match frame {
            Frame::Payload(msg) => self.serve(msg),
            Frame::Close => Ok(Step::Stop),
            Frame::Garbled => Err(frame::kick_for_json()),
            Frame::Binary => Err(frame::kick_for_binary()),
            Frame::Other => Ok(Step::Continue),
        }
    }

    /// Begins to deal with an event.
    pub fn handle_websock_msg(&mut self, event: Event) -> (r: Result<Step, Kick>)
        ensures
            final(self)@ == old(self)@.responded(event),
            agrees(r, old(self)@.response(event)),
            (event matches Event::Incoming(frame) ==> frame_wf(frame)) ==> (r matches Ok(step)
                ==> step@.wf()),
    {
        if let Event::Tick = event {
            return Ok(Step::Continue);
        }
        self.load = self.load.saturating_add(SECOND);
        if self.load >= LOAD_LIMIT {
            return Err(Kick::violation("rate_limited", "Too many payloads"));
        }
        match event {
            Event::Incoming(frame) => self.handle_client_msg(frame),
            _ => Ok(Step::Stop),
        }
    }

    /// Goes on once the server has answered. There is no swarm beyond the last number.
    pub fn resume(&mut self, pending: Pending, reply: Reply) -> (r: Result<Step, Kick>)
        requires
            pending matches Pending::SwarmFull(req) ==> said_yes(reply@) ==> req.lid.lid < u64::MAX,
        ensures
            final(self)@ == old(self)@.resumed(pending, reply@),
            agrees(r, old(self)@.resumption(pending, reply@)),
            pending.wf() ==> (r matches Ok(step) ==> step@.wf()),
    {
        match pending {
            Pending::Listing => Ok(Step::Show(ServerMessage::List { list: list_in(reply) })),
            Pending::HostPlayer(req) => {
                if is_yes(&reply) || !req.lid.valid() || !aux::check_meta(&req.player_meta)
                    || !aux::check_meta(&req.lobby_meta) {
                    return Err(frame::kick_for_payload());
                }
                self.pid = Some(req.pid);
                self.lid = Some(req.lid.clone());
                let op = BlasterOperation::HasLobby { lid: req.lid.clone() };
                Ok(Step::Ask(op, Pending::HostLobby(req)))
            },
            Pending::HostLobby(req) => {
                if is_yes(&reply) {
                    return Err(Kick::violation("lobby_exists", "Lobby already exists"));
                }
                let lober = Lobby::ugly_new(req.pid, req.lobby_meta, req.capacity, req.listed);
                let open = BlasterOperation::InsertLobby { lid: req.lid.clone(), lobby: lober };
                let enter = BlasterOperation::IntroducePlayer {
                    pid: req.pid,
                    lid: req.lid,
                    player_meta: req.player_meta,
                };
                Ok(Step::ExecuteBoth(open, enter))
            },
            Pending::JoinPlayer(req) => {
                if is_yes(&reply) || !req.lid.valid() || !aux::check_meta(&req.player_meta) {
                    return Err(frame::kick_for_payload());
                }
                self.pid = Some(req.pid);
                self.lid = Some(req.lid.clone());
                let op = BlasterOperation::HasLobby { lid: req.lid.clone() };
                Ok(Step::Ask(op, Pending::JoinLobby(req)))
            },
            Pending::JoinLobby(req) => {
                if !is_yes(&reply) {
                    return Err(Kick::violation("lobby_not_found", "Lobby not found"));
                }
                let op = BlasterOperation::LobbyIsSwarm { lid: req.lid.clone() };
                Ok(Step::Ask(op, Pending::JoinSwarm(req)))
            },
            Pending::JoinSwarm(req) => {
                if is_yes(&reply) {
                    return Err(Kick::violation("lobby_not_found", "Lobby not found"));
                }
                let op = BlasterOperation::LobbyFull { lid: req.lid.clone() };
                Ok(Step::Ask(op, Pending::JoinFull(req)))
            },
            Pending::JoinFull(req) => {
                if is_yes(&reply) {
                    return Err(Kick::violation("lobby_full", "Lobby is full"));
                }
                let enter = BlasterOperation::IntroducePlayer {
                    pid: req.pid,
                    lid: req.lid,
                    player_meta: req.player_meta,
                };
                Ok(Step::Execute(enter))
            },
            Pending::SwarmPlayer(req) => {
                if is_yes(&reply) || !req.lid.valid() || !aux::check_meta(&req.player_meta)
                    || !aux::check_meta(&req.lobby_meta) {
                    return Err(frame::kick_for_payload());
                }
                self.pid = Some(req.pid);
                let op = BlasterOperation::LobbyFull { lid: req.lid.clone() };
                Ok(Step::Ask(op, Pending::SwarmFull(req)))
            },
            Pending::SwarmFull(mut req) => {
                if is_yes(&reply) {
                    req.lid.lid = req.lid.lid + 1;
                    let op = BlasterOperation::LobbyFull { lid: req.lid.clone() };
                    return Ok(Step::Ask(op, Pending::SwarmFull(req)));
                }
                self.lid = Some(req.lid.clone());
                let op = BlasterOperation::HasLobby { lid: req.lid.clone() };
                Ok(Step::Ask(op, Pending::SwarmLobby(req)))
            },
            Pending::SwarmLobby(req) => {
                let enter = BlasterOperation::IntroducePlayer {
                    pid: req.pid,
                    lid: req.lid.clone(),
                    player_meta: req.player_meta,
                };
                if is_yes(&reply) {
                    return Ok(Step::Execute(enter));
                }
                let lober = Lobby::new_swarm(req.pid, req.lobby_meta);
                let open = BlasterOperation::InsertLobby { lid: req.lid, lobby: lober };
                Ok(Step::ExecuteBoth(open, enter))
            },
            Pending::SetListed { lid, listed } => {
                match (master_in(&reply), self.pid) {
                    (Some(master), Some(pid)) if master == pid => Ok(
                        Step::Execute(BlasterOperation::SetLobbyListed { lid, listed }),
                    ),
                    _ => Ok(Step::Continue),
                }
            },
            Pending::SetCapacity { lid, capacity } => {
                match (master_in(&reply), self.pid) {
                    (Some(master), Some(pid)) if master == pid => Ok(
                        Step::Execute(BlasterOperation::SetLobbyCapacity { lid, capacity }),
                    ),
                    _ => Ok(Step::Continue),
                }
            },
            Pending::SetLobbyMeta { lid, key, value } => {
                if master_in(&reply) != self.pid {
                    return Ok(Step::Continue);
                }
                Ok(Step::Execute(BlasterOperation::SetLobbyMeta { lid, key, value }))
            },
            Pending::EraseLobbyMeta { lid, key } => {
                if master_in(&reply) != self.pid {
                    return Ok(Step::Continue);
                }
                Ok(Step::Execute(BlasterOperation::EraseLobbyMeta { lid, key }))
            },
            Pending::Kick { lid, pid } => {
                match master_in(&reply) {
                    None => Err(frame::kick_for_payload()),
                    Some(mastah) => {
                        if self.pid == Some(mastah) && pid != mastah {
                            return Ok(Step::Execute(BlasterOperation::KickPlayer { lid, pid }));
                        }
                        Ok(Step::Continue)
                    },
                }
            },
        }
    }

    /// Takes note of a message that is sent to the client.
    fn send(&mut self, msg: &ServerMessage)
        ensures
            final(self)@ == old(self)@.sending(msg@),
    {
        if let ServerMessage::Disconnected { reason } = msg {
            self.bye_reason = Some(reason.clone());
        }
    }

    /// The message that is to be sent to a client who is shown the door.
    pub fn dismiss(&mut self, reason: Kick) -> (msg: ServerMessage)
        ensures
            msg@ == (ServerMessageView::Disconnected { reason: reason@ }),
            final(self)@ == old(self)@.sending(msg@),
    {
        let bye = ServerMessage::Disconnected { reason };
        self.send(&bye);
        bye
    }

    /// What is to be asked of the server to look after the player.
    pub fn flush_op(&self) -> (r: Option<BlasterOperation>)
        ensures
            match self@.pid {
                Some(pid) => r == Some(BlasterOperation::FlushPlayerQueue { pid }),
                None => r is None,
            },
    {
        match self.pid {
            Some(pid) => Some(BlasterOperation::FlushPlayerQueue { pid }),
            None => None,
        }
    }

    /// The messages that are to be sent out of those that waited for the player: all up to the
    /// first one that shows the client the door.
    pub fn flush(&mut self, queue: Vec<ServerMessage>) -> (r: Vec<ServerMessage>)
        ensures
            copy::views(r@) == up_to_bye(copy::views(queue@)),
            final(self)@ == old(self)@.sending_all(copy::views(r@)),
    {
        let ghost all = copy::views(queue@);
        let mut sent: Vec<ServerMessage> = Vec::new();
        let mut rest: Vec<ServerMessage> = queue;
        let ghost mut i: int = 0;
        assert(copy::views(sent@) =~= all.take(0));
        while rest.len() > 0
            invariant
                all == copy::views(queue@),
                0 <= i <= all.len(),
                copy::views(rest@) == all.skip(i),
                copy::views(sent@) == all.take(i),
                up_to_bye(all.take(i)) == all.take(i),
                !ends_in_bye(all.take(i)),
                self@ == old(self)@.sending_all(all.take(i)),
            decreases all.len() - i,
        {
            let ghost before = sent@;
            let ghost waiting = rest@;
            let msg = rest.remove(0);
            proof {
                assert(copy::views(waiting).len() == waiting.len());
                assert(copy::views(waiting)[0] == msg@);
                assert(all.skip(i)[0] == all[i]);
                assert(all.take(i + 1).drop_last() =~= all.take(i));
            }
            self.send(&msg);
            let bye = match &msg {
                ServerMessage::Disconnected { .. } => true,
                _ => false,
            };
            sent.push(msg);
            proof {
                i = i + 1;
                assert(copy::views(sent@) =~= copy::views(before).push(msg@));
                assert(copy::views(sent@) =~= all.take(i));
                assert(copy::views(rest@) =~= copy::views(waiting).skip(1));
                assert(copy::views(rest@) =~= all.skip(i));
                lemma_bye_stays(all, i);
            }
            if bye {
                return sent;
            }
        }
        assert(all.take(i) =~= all);
        sent
    }

    /// Makes up for the time from `start` to `now`.
    pub fn advance(&mut self, start: Moment, now: Moment)
        ensures
            final(self)@ == old(self)@.reimbursed(start, now),
    {
        let dt: u64 = clock::time_since(start, now);
        let credit: u128 = dt as u128 * PAYLOADS_PER_SEC as u128;
        if credit >= self.load as u128 {
            self.load = 0;
        } else {
            self.load = self.load - credit as u64;
        }
    }

    /// What is to be asked of the server to look after the player's lobby.
    pub fn timer_op(&self) -> (r: Option<BlasterOperation>)
        ensures
            match self@.lid {
                Some(lid) => r == Some(BlasterOperation::AdvanceLobbyTimer { lid }),
                None => r is None,
            },
    {
        match &self.lid {
            Some(lid) => Some(BlasterOperation::AdvanceLobbyTimer { lid: lid.clone() }),
            None => None,
        }
    }

    /// Whether the player may stay in the lobby, as the server has answered. No answer lets them
    /// stay.
    pub fn timed(reply: Reply) -> (r: Result<(), Kick>)
        ensures
            match reply@ {
                ReplyView::Timer(Some(kick)) => r is Err && r->Err_0@ == kick,
                _ => r is Ok,
            },
    {
        match reply {
            Reply::Timer(r) => r,
            _ => Ok(()),
        }
    }

    /// What the server is to do when the connection is over: a player leaves their lobby, and
    /// lobbies that nobody is in are dropped.
    pub fn finish(self) -> (r: (Option<BlasterOperation>, BlasterOperation))
        ensures
            match (self@.pid, self@.lid) {
                (Some(pid), Some(lid)) => r.0 is Some && r.0->0@ == (OpView::RemovePlayer {
                    lid: lid@,
                    pid,
                    reason: self@.bye_reason,
                }),
                _ => r.0 is None,
            },
            r.0 is Some <==> self@.parting() is Some,
            r.0 is Some ==> self@.parting() == Some(r.0->0@),
            r.1@ == OpView::CleanupLobbies,
    {
        let leave = match (self.pid, self.lid) {
            (Some(pid), Some(lid)) => Some(
                BlasterOperation::RemovePlayer { lid, pid, reason: self.bye_reason },
            ),
            _ => None,
        };
        (leave, BlasterOperation::CleanupLobbies)
    }
}

} // verus!
