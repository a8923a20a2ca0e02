//! A client's session with the event-loop server: what the session does about each thing that
//! happens to it.

use crate::blaster::model;
use crate::blaster::model::OpView;
use crate::blaster::payloads::{
    ClientMessage, LobbyListing, LobbyListingView, ServerMessage, ServerMessageView,
};
use crate::blaster::BlasterOperation;
use crate::clock::{Moment, MILLISECOND};
use crate::copy;
use crate::frame;
use crate::frame::Frame;
use crate::id::{BasicId, IpAddr};
use crate::protocol::payloads;
use crate::protocol::payloads::{Kick, KickView};
use crate::tokens::{BucketView, TokenBucket};
use crate::MAX_PLAYERS;
use vstd::prelude::*;

pub mod requests;

verus! {

/// How many messages may wait for a session.
pub const QUEUE_CAP: usize = 120;

/// How long nothing may happen before a session without a player ends: five seconds.
pub const IDLE_TIMEOUT: u64 = 5000 * MILLISECOND;

/// What happens to a session.
pub enum Event {
    /// Nothing, for as long as [`IDLE_TIMEOUT`].
    Idle,
    /// A frame of `len` bytes came in.
    Incoming { len: usize, frame: Frame<ClientMessage> },
    /// The connection broke.
    Broken,
    /// The server has a message for the player.
    Outgoing(ServerMessage),
}

/// What is to be done for a session.
pub enum Action {
    Rest,
    /// Send the message over the wire.
    Transmit(ServerMessage),
    /// Have the server carry out an operation.
    Execute(BlasterOperation),
    /// Have the server list lobbies, and tell [`Session::listed`] what comes back.
    AskListing(BlasterOperation),
    /// Have the server let the client into a lobby, and tell [`Session::seated`] what comes back.
    AskSeat(BlasterOperation),
}

pub enum ActionView {
    Rest,
    Transmit(ServerMessageView),
    Execute(OpView),
    AskListing(OpView),
    AskSeat(OpView),
}

impl View for Action {
    type V = ActionView;

    open spec fn view(&self) -> ActionView {
        match *self {
            Action::Rest => ActionView::Rest,
            Action::Transmit(msg) => ActionView::Transmit(msg@),
            Action::Execute(op) => ActionView::Execute(op@),
            Action::AskListing(op) => ActionView::AskListing(op@),
            Action::AskSeat(op) => ActionView::AskSeat(op@),
        }
    }
}

impl ActionView {
    /// The operation, if there is one, is one that the server takes.
    pub open spec fn wf(self) -> bool {
        match self {
            ActionView::Execute(op) => op.wf(),
            ActionView::AskListing(op) => op.wf(),
            ActionView::AskSeat(op) => op.wf(),
            _ => true,
        }
    }
}

/// The metadata that comes with the payload names each field once.
pub open spec fn frame_wf(frame: Frame<ClientMessage>) -> bool {
    match frame {
        Frame::Payload(ClientMessage::Host { player_meta, lobby_meta, .. }) => player_meta.wf()
            && lobby_meta.wf(),
        Frame::Payload(ClientMessage::Join { player_meta, .. }) => player_meta.wf(),
        _ => true,
    }
}

impl Event {
    pub open spec fn wf(&self) -> bool {
        *self matches Event::Incoming { frame, .. } ==> frame_wf(frame)
    }
}

/// A client's session.
pub struct Session {
    stop: bool,
    real_ip: IpAddr,
    pid: Option<BasicId>,
    bye_reason: Option<Kick>,
    payloads_budget: TokenBucket,
    relays_budget: TokenBucket,
    bandwidth_budget: TokenBucket,
}

/// What a [`Session`] holds.
pub struct SessionView {
    /// Whether the session is over.
    pub stop: bool,
    pub real_ip: IpAddr,
    /// The player that the client plays, once they are in a lobby.
    pub pid: Option<BasicId>,
    /// Why the client was let go, if they were.
    pub bye_reason: Option<KickView>,
    pub payloads_budget: BucketView,
    pub relays_budget: BucketView,
    pub bandwidth_budget: BucketView,
}

impl View for Session {
    type V = SessionView;

    closed spec fn view(&self) -> SessionView {
        SessionView {
            stop: self.stop,
            real_ip: self.real_ip,
            pid: self.pid,
            bye_reason: payloads::kick_said(self.bye_reason),
            payloads_budget: self.payloads_budget@,
            relays_budget: self.relays_budget@,
            bandwidth_budget: self.bandwidth_budget@,
        }
    }
}

/// What a player asks to have passed on to another one: to whom, and what.
pub open spec fn relayed(from: BasicId, msg: ClientMessage) -> Option<
    (BasicId, ServerMessageView),
> {
    match msg {
        ClientMessage::PassCandidate { to, candidate, mid } => Some(
            (
                to,
                ServerMessageView::Candidate { from, candidate: candidate.0@, mid: mid.0@ },
            ),
        ),
        ClientMessage::PassOffer { to, sdp } => Some(
            (to, ServerMessageView::Offer { from, sdp: sdp.0@ }),
        ),
        ClientMessage::PassAnswer { to, sdp } => Some(
            (to, ServerMessageView::Answer { from, sdp: sdp.0@ }),
        ),
        _ => None,
    }
}

impl SessionView {
    pub open spec fn fresh(real_ip: IpAddr, now: Moment) -> SessionView {
        SessionView {
            stop: false,
            real_ip,
            pid: None,
            bye_reason: None,
            payloads_budget: BucketView::fresh("payloads"@, 30, 30, 60, now),
            relays_budget: BucketView::fresh("relays"@, 5, 5, 40, now),
            bandwidth_budget: BucketView::fresh("bandwidth"@, 4096, 4096, 12288, now),
        }
    }

    /// The session once it has been told to send the message: a message that shows the client the
    /// door ends the session.
    pub open spec fn sending(self, msg: ServerMessageView) -> SessionView {
        match msg {
            ServerMessageView::Disconnected { reason } => SessionView {
                bye_reason: Some(reason),
                stop: true,
                ..self
            },
            _ => self,
        }
    }

    /// The session of a client who was shown the door.
    pub open spec fn dismissed(self, reason: KickView) -> SessionView {
        self.sending(model::boot(reason))
    }

    /// What a client who plays no player yet can ask for.
    pub open spec fn answer_to_guest(self, msg: ClientMessage) -> Result<ActionView, KickView> {
        match msg {
            ClientMessage::Ping => Ok(ActionView::Rest),
            ClientMessage::List { gid, limit } => Ok(
                ActionView::AskListing(
                    OpView::ListLobbies { ip: self.real_ip, gid: gid@, limit },
                ),
            ),
            ClientMessage::Host { gid, capacity, listed, player_meta, lobby_meta } => if 1
                <= capacity <= MAX_PLAYERS {
                Ok(
                    ActionView::AskSeat(
                        OpView::HostLobby {
                            initiator: self.real_ip,
                            gid: gid@,
                            lobby_meta: lobby_meta@,
                            capacity,
                            listed,
                            player_metadata: player_meta@,
                        },
                    ),
                )
            } else {
                Err(frame::bad_payload())
            },
            ClientMessage::Join { lid, player_meta } => Ok(
                ActionView::AskSeat(
                    OpView::JoinLobby {
                        ip: self.real_ip,
                        lid: lid@,
                        player_metadata: player_meta@,
                    },
                ),
            ),
            _ => Err(frame::bad_payload()),
        }
    }

    /// What a player can ask for.
    pub open spec fn answer_to_player(self, pid: BasicId, msg: ClientMessage, now: Moment) -> Result<
        ActionView,
        KickView,
    > {
        match msg {
            ClientMessage::Ping => Ok(ActionView::Transmit(ServerMessageView::Pong)),
            ClientMessage::SetListed { listed } => Ok(
                ActionView::Execute(OpView::SetListed { initiator: pid, listed }),
            ),
            ClientMessage::SetCapacity { capacity } => if 1 <= capacity <= MAX_PLAYERS {
                Ok(ActionView::Execute(OpView::SetCapacity { initiator: pid, capacity }))
            } else {
                Err(frame::bad_payload())
            },
            ClientMessage::SetPlayerMeta { key, value } => Ok(
                ActionView::Execute(OpView::SetPlayerMeta { pid, key: key.0@, value: value.0@ }),
            ),
            ClientMessage::ErasePlayerMeta { key } => Ok(
                ActionView::Execute(OpView::ErasePlayerMeta { pid, key: key.0@ }),
            ),
            ClientMessage::SetLobbyMeta { key, value } => Ok(
                ActionView::Execute(
                    OpView::SetLobbyMeta { initiator: pid, key: key.0@, value: value.0@ },
                ),
            ),
            ClientMessage::EraseLobbyMeta { key } => Ok(
                ActionView::Execute(OpView::EraseLobbyMeta { initiator: pid, key: key.0@ }),
            ),
            ClientMessage::Kick { pid: kickee } => Ok(
                ActionView::Execute(OpView::KickPlayer { kicker: pid, kickee }),
            ),
            ClientMessage::SetMaster { pid: new_master } => Ok(
                ActionView::Execute(OpView::SetMaster { initiator: pid, new_master }),
            ),
            _ => match relayed(pid, msg) {
                Some((to, news)) => Ok(
                    ActionView::Execute(
                        if self.relays_budget.affords(1, now) {
                            OpView::Relay { from: pid, to, msg: news }
                        } else {
                            OpView::RemovePlayer { pid, reason: Some(self.relays_budget.refusal()) }
                        },
                    ),
                ),
                None => Err(frame::bad_payload()),
            },
        }
    }

    /// What is done about a frame, or why the client is shown the door for it.
    pub open spec fn answer(self, frame: Frame<ClientMessage>, now: Moment) -> Result<
        ActionView,
        KickView,
    > {
        match frame {
            Frame::Payload(msg) => match self.pid {
                Some(pid) => self.answer_to_player(pid, msg, now),
                None => self.answer_to_guest(msg),
            },
            Frame::Garbled => Err(frame::bad_json()),
            Frame::Binary => Err(frame::binary_unsupported()),
            Frame::Close => Ok(ActionView::Rest),
            Frame::Other => Ok(ActionView::Rest),
        }
    }

    /// The session once the frame has been dealt with.
    pub open spec fn answered(self, frame: Frame<ClientMessage>, now: Moment) -> SessionView {
        match frame {
            Frame::Payload(msg) => if self.pid is Some && relayed(self.pid->0, msg) is Some {
                SessionView { relays_budget: self.relays_budget.asked(1, now), ..self }
            } else {
                self
            },
            Frame::Close => SessionView { stop: true, ..self },
            _ => self,
        }
    }

    /// The session once its budget for payloads has been asked for one.
    pub open spec fn counted(self, now: Moment) -> SessionView {
        SessionView { payloads_budget: self.payloads_budget.asked(1, now), ..self }
    }

    /// The session once its budget for bytes has been asked for so many.
    pub open spec fn weighed(self, len: usize, now: Moment) -> SessionView {
        SessionView { bandwidth_budget: self.bandwidth_budget.asked(len as nat, now), ..self }
    }

    /// What is done about an event, or why the client is shown the door for it.
    pub open spec fn response(self, event: Event, now: Moment) -> Result<ActionView, KickView> {
        match event {
            Event::Idle => Ok(ActionView::Rest),
            Event::Broken => Ok(ActionView::Rest),
            Event::Outgoing(msg) => Ok(ActionView::Transmit(msg@)),
            Event::Incoming { len, frame } => if !self.payloads_budget.affords(1, now) {
                Err(self.payloads_budget.refusal())
            } else if !self.bandwidth_budget.affords(len as nat, now) {
                Err(self.bandwidth_budget.refusal())
            } else {
                self.answer(frame, now)
            },
        }
    }

    /// The session once the event has been dealt with, up to showing the client the door.
    pub open spec fn responded(self, event: Event, now: Moment) -> SessionView {
        match event {
            Event::Idle => SessionView { stop: self.pid is None, ..self },
            Event::Broken => SessionView { stop: true, ..self },
            Event::Outgoing(msg) => self.sending(msg@),
            Event::Incoming { len, frame } => if !self.payloads_budget.affords(1, now) {
                self.counted(now)
            } else if !self.bandwidth_budget.affords(len as nat, now) {
                self.counted(now).weighed(len, now)
            } else {
                self.counted(now).weighed(len, now).answered(frame, now)
            },
        }
    }

    /// What is done about an event.
    pub open spec fn action(self, event: Event, now: Moment) -> ActionView {
        match self.response(event, now) {
            Ok(action) => action,
            Err(reason) => ActionView::Transmit(model::boot(reason)),
        }
    }

    /// The session after an event.
    pub open spec fn after(self, event: Event, now: Moment) -> SessionView {
        match self.response(event, now) {
            Ok(_) => self.responded(event, now),
            Err(reason) => self.responded(event, now).dismissed(reason),
        }
    }

    /// The session once the server has answered a client who looks for lobbies, or has not, and what
    /// is done about it.
    pub open spec fn shown(self, answer: Option<Result<Seq<LobbyListingView>, KickView>>) -> (
        SessionView,
        ActionView,
    ) {
        match answer {
            None => (SessionView { stop: true, ..self }, ActionView::Rest),
            Some(Ok(list)) => (
                SessionView { stop: true, ..self },
                ActionView::Transmit(ServerMessageView::List { list }),
            ),
            Some(Err(reason)) => (
                self.dismissed(reason),
                ActionView::Transmit(model::boot(reason)),
            ),
        }
    }

    /// The session once the server has answered a client who wants to be let into a lobby, or has
    /// not, and what is done about it.
    pub open spec fn let_in(self, answer: Option<Result<BasicId, KickView>>) -> (
        SessionView,
        ActionView,
    ) {
        match answer {
            None => (self, ActionView::Rest),
            Some(Ok(pid)) => (SessionView { pid: Some(pid), ..self }, ActionView::Rest),
            Some(Err(reason)) => (
                self.dismissed(reason),
                ActionView::Transmit(model::boot(reason)),
            ),
        }
    }

    /// What the server is to do when the session is over.
    pub open spec fn parting(self) -> Option<OpView> {
        match self.pid {
            Some(pid) => Some(OpView::RemovePlayer { pid, reason: self.bye_reason }),
            None => None,
        }
    }
}

impl Session {
    pub fn new(real_ip: IpAddr, now: Moment) -> (s: Self)
        ensures
            s@ == SessionView::fresh(real_ip, now),
    {
        Session {
            stop: false,
            real_ip,
            pid: None,
            bye_reason: None,
            payloads_budget: TokenBucket::new("payloads", 30, 30, 60, now),
            relays_budget: TokenBucket::new("relays", 5, 5, 40, now),
            bandwidth_budget: TokenBucket::new("bandwidth", 4096, 4096, 12288, now),
        }
    }

    /// Whether the session is over.
    pub fn stopped(&self) -> (r: bool)
        ensures
            r == self@.stop,
    {
        self.stop
    }

    /// Has a message sent to the client.
    fn send(&mut self, msg: ServerMessage) -> (r: Action)
        ensures
            final(self)@ == old(self)@.sending(msg@),
            r@ == ActionView::Transmit(msg@),
    {
        if let ServerMessage::Disconnected { reason } = &msg {
            self.bye_reason = Some(reason.clone());
            self.stop = true;
        }
        Action::Transmit(msg)
    }

    /// Has a player's message passed on to another one. A player who has too much passed on is
    /// taken out of the lobby.
    fn relay(&mut self, pid: BasicId, to: BasicId, msg: ServerMessage, now: Moment) -> (r: Action)
        ensures
            final(self)@ == (SessionView {
                relays_budget: old(self)@.relays_budget.asked(1, now),
                ..old(self)@
            }),
            r@ == ActionView::Execute(
                if old(self)@.relays_budget.affords(1, now) {
                    OpView::Relay { from: pid, to, msg: msg@ }
                } else {
                    OpView::RemovePlayer { pid, reason: Some(old(self)@.relays_budget.refusal()) }
                },
            ),
    {
        match self.relays_budget.try_take(1, now) {
            Err(reason) => Action::Execute(
                BlasterOperation::RemovePlayer { pid, reason: Some(reason) },
            ),
            Ok(_) => Action::Execute(BlasterOperation::Relay { from: pid, to, msg }),
        }
    }

    /// Deals with a payload of a client who plays no player yet.
    fn serve_guest(&self, msg: ClientMessage) -> (r: Result<Action, Kick>)
        ensures
            match self@.answer_to_guest(msg) {
                Ok(action) => r is Ok && r->Ok_0@ == action,
                Err(kick) => r is Err && r->Err_0@ == kick,
            },
    {
        match msg {
            ClientMessage::Ping => Ok(Action::Rest),
            ClientMessage::List { gid, limit } => Ok(
                Action::AskListing(BlasterOperation::ListLobbies { ip: self.real_ip, gid, limit }),
            ),
            ClientMessage::Host { gid, capacity, listed, player_meta, lobby_meta } => {
                if capacity < 1 || capacity > MAX_PLAYERS {
                    return Err(frame::kick_for_payload());
                }
                Ok(
                    Action::AskSeat(
                        BlasterOperation::HostLobby {
                            initiator: self.real_ip,
                            gid,
                            lobby_meta,
                            capacity,
                            listed,
                            player_metadata: player_meta,
                        },
                    ),
                )
            },
            ClientMessage::Join { lid, player_meta } => Ok(
                Action::AskSeat(
                    BlasterOperation::JoinLobby {
                        ip: self.real_ip,
                        lid,
                        player_metadata: player_meta,
                    },
                ),
            ),
            _ => Err(frame::kick_for_payload()),
        }
    }

    /// Deals with a player's payload.
    fn serve_player(&mut self, pid: BasicId, msg: ClientMessage, now: Moment) -> (r: Result<
        Action,
        Kick,
    >)
        requires
            old(self)@.pid == Some(pid),
        ensures
            final(self)@ == old(self)@.answered(Frame::Payload(msg), now),
            match old(self)@.answer_to_player(pid, msg, now) {
                Ok(action) => r is Ok && r->Ok_0@ == action,
                Err(kick) => r is Err && r->Err_0@ == kick,
            },
    {
        match msg {
            ClientMessage::Ping => Ok(self.send(ServerMessage::Pong)),
            ClientMessage::PassCandidate { to, candidate, mid } => Ok(
                self.relay(
                    pid,
                    to,
                    ServerMessage::Candidate { from: pid, candidate: candidate.0, mid: mid.0 },
                    now,
                ),
            ),
            ClientMessage::PassOffer { to, sdp } => Ok(
                self.relay(pid, to, ServerMessage::Offer { from: pid, sdp: sdp.0 }, now),
            ),
            ClientMessage::PassAnswer { to, sdp } => Ok(
                self.relay(pid, to, ServerMessage::Answer { from: pid, sdp: sdp.0 }, now),
            ),
            ClientMessage::SetListed { listed } => Ok(
                Action::Execute(BlasterOperation::SetListed { initiator: pid, listed }),
            ),
            ClientMessage::SetCapacity { capacity } => {
                if capacity < 1 || capacity > MAX_PLAYERS {
                    return Err(frame::kick_for_payload());
                }
                Ok(Action::Execute(BlasterOperation::SetCapacity { initiator: pid, capacity }))
            },
            ClientMessage::SetPlayerMeta { key, value } => Ok(
                Action::Execute(
                    BlasterOperation::SetPlayerMeta { pid, key: key.0, value: value.0 },
                ),
            ),
            ClientMessage::ErasePlayerMeta { key } => Ok(
                Action::Execute(BlasterOperation::ErasePlayerMeta { pid, key: key.0 }),
            ),
            ClientMessage::SetLobbyMeta { key, value } => Ok(
                Action::Execute(
                    BlasterOperation::SetLobbyMeta { initiator: pid, key: key.0, value: value.0 },
                ),
            ),
            ClientMessage::EraseLobbyMeta { key } => Ok(
                Action::Execute(BlasterOperation::EraseLobbyMeta { initiator: pid, key: key.0 }),
            ),
            ClientMessage::Kick { pid: kickee } => Ok(
                Action::Execute(BlasterOperation::KickPlayer { kicker: pid, kickee }),
            ),
            ClientMessage::SetMaster { pid: new_master } => Ok(
                Action::Execute(BlasterOperation::SetMaster { initiator: pid, new_master }),
            ),
            _ => Err(frame::kick_for_payload()),
        }
    }

    /// Deals with a frame.
    fn process_websocket_message(
        &mut self,
        frame: Frame<ClientMessage>,
        now: Moment,
    ) -> (r: Result<Action, Kick>)
        ensures
            final(self)@ == old(self)@.answered(frame, now),
            match old(self)@.answer(frame, now) {
                Ok(action) => r is Ok && r->Ok_0@ == action,
                Err(kick) => r is Err && r->Err_0@ == kick,
            },
    {
        match frame {
            Frame::Payload(msg) => match self.pid {
                Some(pid) => self.serve_player(pid, msg, now),
                None => self.serve_guest(msg),
            },
            Frame::Close => {
                self.stop = true;
                Ok(Action::Rest)
            },
            Frame::Garbled => Err(frame::kick_for_json()),
            Frame::Binary => Err(frame::kick_for_binary()),
            Frame::Other => Ok(Action::Rest),
        }
    }

    /// Deals with an event, up to showing the client the door.
    fn handle_next_websocket_message(&mut self, event: Event, now: Moment) -> (r: Result<
        Action,
        Kick,
    >)
        ensures
            final(self)@ == old(self)@.responded(event, now),
            match old(self)@.response(event, now) {
                Ok(action) => r is Ok && r->Ok_0@ == action,
                Err(kick) => r is Err && r->Err_0@ == kick,
            },
    {
        match event {
            Event::Idle => {
                self.stop = self.pid.is_none();
                Ok(Action::Rest)
            },
            Event::Incoming { len, frame } => {
                self.payloads_budget.try_take(1, now)?;
                self.bandwidth_budget.try_take(len, now)?;
                self.process_websocket_message(frame, now)
            },
            Event::Broken => {
                self.stop = true;
                Ok(Action::Rest)
            },
            Event::Outgoing(msg) => Ok(self.send(msg)),
        }
    }

    /// Deals with an event.
    pub fn handle(&mut self, event: Event, now: Moment) -> (r: Action)
        ensures
            final(self)@ == old(self)@.after(event, now),
            r@ == old(self)@.action(event, now),
            event.wf() ==> r@.wf(),
    {
        match self.handle_next_websocket_message(event, now) {
            Ok(action) => action,
            Err(reason) => self.send(ServerMessage::Disconnected { reason }),
        }
    }

    /// Deals with the lobbies that the server listed, or with the server's refusal, or with no
    /// answer. Who has been shown the lobbies has what they came for.
    pub fn listed(&mut self, reply: Option<Result<Vec<LobbyListing>, Kick>>) -> (r: Action)
        ensures
            match reply {
                None => r@ == ActionView::Rest && final(self)@ == (SessionView {
                    stop: true,
                    ..old(self)@
                }),
                Some(Ok(list)) => r@ == ActionView::Transmit(
                    ServerMessageView::List { list: copy::views(list@) },
                ) && final(self)@ == (SessionView { stop: true, ..old(self)@ }),
                Some(Err(kick)) => r@ == ActionView::Transmit(model::boot(kick@)) && final(self)@
                    == old(self)@.dismissed(kick@),
            },
            (final(self)@, r@) == old(self)@.shown(
                match reply {
                    None => None,
                    Some(Ok(list)) => Some(Ok(copy::views(list@))),
                    Some(Err(kick)) => Some(Err(kick@)),
                },
            ),
    {
        match reply {
            Some(Err(reason)) => self.send(ServerMessage::Disconnected { reason }),
            Some(Ok(list)) => {
                let action = self.send(ServerMessage::List { list });
                self.stop = true;
                action
            },
            None => {
                self.stop = true;
                Action::Rest
            },
        }
    }

    /// Deals with the number by which the client is now a player, or with the server's refusal, or
    /// with no answer.
    pub fn seated(&mut self, reply: Option<Result<BasicId, Kick>>) -> (r: Action)
        ensures
            match reply {
                None => r@ == ActionView::Rest && final(self)@ == old(self)@,
                Some(Ok(pid)) => r@ == ActionView::Rest && final(self)@ == (SessionView {
                    pid: Some(pid),
                    ..old(self)@
                }),
                Some(Err(kick)) => r@ == ActionView::Transmit(model::boot(kick@)) && final(self)@
                    == old(self)@.dismissed(kick@),
            },
            (final(self)@, r@) == old(self)@.let_in(
                match reply {
                    None => None,
                    Some(Ok(pid)) => Some(Ok(pid)),
                    Some(Err(kick)) => Some(Err(kick@)),
                },
            ),
    {
        match reply {
            Some(Err(reason)) => self.send(ServerMessage::Disconnected { reason }),
            Some(Ok(pid)) => {
                self.pid = Some(pid);
                Action::Rest
            },
            None => Action::Rest,
        }
    }

    /// What the server is to do when the session is over: a player leaves their lobby.
    pub fn finish(self) -> (r: Option<BlasterOperation>)
        ensures
            match self@.pid {
                Some(pid) => r is Some && r->0@ == (OpView::RemovePlayer {
                    pid,
                    reason: self@.bye_reason,
                }),
                None => r is None,
            },
            r is Some <==> self@.parting() is Some,
            r is Some ==> self@.parting() == Some(r->0@),
    {
        match self.pid {
            Some(pid) => Some(BlasterOperation::RemovePlayer { pid, reason: self.bye_reason }),
            None => None,
        }
    }
}

/// Who an operation that a session asks for speaks for.
pub open spec fn spokesman(op: OpView) -> Option<BasicId> {
    match op {
        OpView::SetCapacity { initiator, .. } => Some(initiator),
        OpView::SetListed { initiator, .. } => Some(initiator),
        OpView::SetMaster { initiator, .. } => Some(initiator),
        OpView::SetPlayerMeta { pid, .. } => Some(pid),
        OpView::ErasePlayerMeta { pid, .. } => Some(pid),
        OpView::SetLobbyMeta { initiator, .. } => Some(initiator),
        OpView::EraseLobbyMeta { initiator, .. } => Some(initiator),
        OpView::Relay { from, .. } => Some(from),
        OpView::KickPlayer { kicker, .. } => Some(kicker),
        OpView::RemovePlayer { pid, .. } => Some(pid),
        _ => None,
    }
}

/// A client can speak for nobody but the player that they play: what a session has the server carry
/// out is carried out in that player's name.
pub proof fn law_clients_speak_for_themselves(s: SessionView, event: Event, now: Moment)
    ensures
        s.action(event, now) matches ActionView::Execute(op) ==> s.pid is Some && spokesman(op)
            == s.pid,
{
}

/// Whoever plays a player neither opens nor joins nor looks for a lobby, and keeps playing that
/// player.
pub proof fn law_players_stay_where_they_are(s: SessionView, event: Event, now: Moment)
    requires
        s.pid is Some,
    ensures
        s.after(event, now).pid == s.pid,
        !(s.action(event, now) is AskSeat),
        !(s.action(event, now) is AskListing),
{
}

/// What a client who plays no player asks of the server is asked from the client's address.
pub proof fn law_guests_ask_from_their_address(s: SessionView, event: Event, now: Moment)
    ensures
        s.action(event, now) matches ActionView::AskListing(op) ==> s.pid is None && (
        op matches OpView::ListLobbies { ip, .. } && ip == s.real_ip),
        s.action(event, now) matches ActionView::AskSeat(op) ==> s.pid is None && match op {
            OpView::HostLobby { initiator, capacity, .. } => initiator == s.real_ip && 1 <= capacity
                <= MAX_PLAYERS,
            OpView::JoinLobby { ip, .. } => ip == s.real_ip,
            _ => false,
        },
{
}

/// A client who is shown the door is told why, and the session is over.
pub proof fn law_dismissal_ends_the_session(s: SessionView, event: Event, now: Moment)
    requires
        s.response(event, now) is Err,
    ensures
        s.after(event, now).stop,
        s.after(event, now).bye_reason == Some(s.response(event, now)->Err_0),
        s.action(event, now) == ActionView::Transmit(
            ServerMessageView::Disconnected { reason: s.response(event, now)->Err_0 },
        ),
{
}

/// A client who sends too much is shown the door, whatever it is that they sent.
pub proof fn law_floods_are_stopped(
    s: SessionView,
    len: usize,
    frame: Frame<ClientMessage>,
    now: Moment,
)
    requires
        !s.payloads_budget.affords(1, now) || !s.bandwidth_budget.affords(len as nat, now),
    ensures
        s.after(Event::Incoming { len, frame }, now).stop,
        s.action(Event::Incoming { len, frame }, now) is Transmit,
        s.after(Event::Incoming { len, frame }, now).pid == s.pid,
{
}

} // verus!
