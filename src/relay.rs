use vstd::prelude::*;
use crate::platform::{std_b64, std_b64_decode, std_b64_decoded, std_b64_encode, utc_now};
use crate::state::{
    challenge_accepts, not_by, pushed_front, JoinMessage, LeaveMessage, Message, MessageIn,
    MessageStore, Messages, Nonce, NonceStore, TypingSignal, User, UserStore, UtcInstant,
};

verus! {

/// Where a connection stands in its handshake.
#[derive(Clone, Copy, Debug, PartialEq, Eq, Structural)]
pub enum Phase {
    /// A challenge was sent; nothing but "verify" is handled yet.
    AwaitingVerification,
    /// The challenge was answered; room events are handled.
    Verified,
    /// The connection was closed.
    Closed,
}

/// The relay's view of one live connection.
#[derive(Debug)]
pub struct Session {
    pub id: String,
    pub phase: Phase,
}

/// Why an inbound event was dropped without effect.
#[derive(Clone, Copy, Debug, PartialEq, Eq, Structural)]
pub enum Dropped {
    /// The connection has not answered its challenge.
    NotVerified,
    /// The connection has no directory record, so it is in no room.
    NotJoined,
}

/// What the transport must do for the connection that sent an event.
#[derive(Debug)]
pub enum Action {
    /// Send the encoded challenge as "nonce" to this connection.
    EmitNonce(String),
    /// Close this connection.
    Disconnect,
    /// Unsubscribe this connection from every room.
    LeaveAllRooms,
    /// Subscribe this connection to a room.
    JoinRoom(String),
    /// Unsubscribe this connection from a room.
    LeaveRoom(String),
    /// Send a room's history as "messages" to this connection.
    EmitMessages(Messages),
    /// Send a notice as "server_message" to the room's other members.
    BroadcastServerMessage { room: String, text: String },
    /// Send a message as "message" to the room's other members.
    BroadcastMessage { room: String, message: Message },
    /// Send a message back as "message-echo" to this connection.
    EchoMessage(Message),
    /// Send "typing" for a user to the room's other members.
    BroadcastTyping { room: String, user: String },
    /// Send "stop_typing" for a user to the room's other members.
    BroadcastStopTyping { room: String, user: String },
}

/// The abstract content of an `Action`.
pub enum ActionView {
    EmitNonce(Seq<char>),
    Disconnect,
    LeaveAllRooms,
    JoinRoom(Seq<char>),
    LeaveRoom(Seq<char>),
    EmitMessages(Seq<Message>),
    BroadcastServerMessage(Seq<char>, Seq<char>),
    BroadcastMessage(Seq<char>, Message),
    EchoMessage(Message),
    BroadcastTyping(Seq<char>, Seq<char>),
    BroadcastStopTyping(Seq<char>, Seq<char>),
}

impl View for Action {
    type V = ActionView;

    open spec fn view(&self) -> ActionView {
        match self {
            Action::EmitNonce(t) => ActionView::EmitNonce(t@),
            Action::Disconnect => ActionView::Disconnect,
            Action::LeaveAllRooms => ActionView::LeaveAllRooms,
            Action::JoinRoom(r) => ActionView::JoinRoom(r@),
            Action::LeaveRoom(r) => ActionView::LeaveRoom(r@),
            Action::EmitMessages(m) => ActionView::EmitMessages(m.messages@),
            Action::BroadcastServerMessage { room, text } => ActionView::BroadcastServerMessage(
                room@,
                text@,
            ),
            Action::BroadcastMessage { room, message } => ActionView::BroadcastMessage(
                room@,
                *message,
            ),
            Action::EchoMessage(m) => ActionView::EchoMessage(*m),
            Action::BroadcastTyping { room, user } => ActionView::BroadcastTyping(room@, user@),
            Action::BroadcastStopTyping { room, user } => ActionView::BroadcastStopTyping(
                room@,
                user@,
            ),
        }
    }
}

/// The abstract contents of a list of actions.
pub open spec fn actions_view(actions: Seq<Action>) -> Seq<ActionView> {
    actions.map_values(|a: Action| a@)
}

/// The notice sent to a room when `name` joins it.
pub open spec fn joined_notice(name: Seq<char>) -> Seq<char> {
    name + " joined the room"@
}

/// The notice sent to a room when `name` leaves it.
pub open spec fn left_notice(name: Seq<char>) -> Seq<char> {
    name + " left the room"@
}

/// The name shown for a connection with no directory record.
pub open spec fn anonymous_name(id: Seq<char>) -> Seq<char> {
    "anon-"@ + id
}

/// The bytes a "verify" payload stands for: its base64 content, or no bytes
/// when it is not base64.
pub open spec fn presented_bytes(payload: Seq<char>) -> Seq<u8> {
    match std_b64_decoded(payload) {
        Some(b) => b,
        None => Seq::empty(),
    }
}

/// Opens a session for a new connection with the given challenge, issued at
/// `now`: the challenge is stored and sent to the connection.
pub fn connect_with(nonces: &mut NonceStore, socket_id: String, nonce: Nonce, now: UtcInstant) -> (r: (
    Session,
    Vec<Action>,
))
    requires
        old(nonces).wf(),
    ensures
        final(nonces).wf(),
        final(nonces)@ == old(nonces)@.insert(socket_id@, (nonce, now)),
        r.0.id@ == socket_id@,
        r.0.phase == Phase::AwaitingVerification,
        actions_view(r.1@) == seq![ActionView::EmitNonce(std_b64(nonce.0@))],
{
    let id = socket_id.clone();
    nonces.add_nonce_at(socket_id, nonce, now);
    let encoded = std_b64_encode(&nonce.0);
    let mut actions: Vec<Action> = Vec::new();
    actions.push(Action::EmitNonce(encoded));
    assert(actions_view(actions@) =~= seq![ActionView::EmitNonce(std_b64(nonce.0@))]);
    (Session { id, phase: Phase::AwaitingVerification }, actions)
}

/// Opens a session for a new connection: issues it a fresh challenge,
/// stamped with the current time, and sends it.
pub fn i_relay_c(nonces: &mut NonceStore, socket_id: String) -> (r: (Session, Vec<Action>))
    requires
        old(nonces).wf(),
    ensures
        final(nonces).wf(),
        final(nonces)@.contains_key(socket_id@),
        final(nonces)@ == old(nonces)@.insert(socket_id@, final(nonces)@[socket_id@]),
        r.0.id@ == socket_id@,
        r.0.phase == Phase::AwaitingVerification,
        actions_view(r.1@) == seq![ActionView::EmitNonce(std_b64(final(nonces)@[socket_id@].0.0@))],
{
    let nonce = Nonce::new();
    let now = utc_now();
    connect_with(nonces, socket_id, nonce, now)
}

/// Handles "verify" at time `now`: the challenge of the connection is
/// consumed; a correct, fresh answer verifies the session, anything else
/// closes it.
pub fn on_verify_at(session: &mut Session, nonces: &mut NonceStore, payload: &str, now: UtcInstant) -> (r:
    Vec<Action>)
    requires
        old(nonces).wf(),
    ensures
        final(nonces).wf(),
        final(nonces)@ == old(nonces)@.remove(old(session).id@),
        final(session).id == old(session).id,
        challenge_accepts(old(nonces)@, old(session).id@, presented_bytes(payload@), now) ==> {
            &&& final(session).phase == Phase::Verified
            &&& r@.len() == 0
        },
        !challenge_accepts(old(nonces)@, old(session).id@, presented_bytes(payload@), now) ==> {
            &&& final(session).phase == Phase::Closed
            &&& actions_view(r@) == seq![ActionView::Disconnect]
        },
{
    let presented = match std_b64_decode(payload) {
        Ok(bytes) => bytes,
        Err(_) => Vec::new(),
    };
    let ok = nonces.verify_and_remove_at(session.id.as_str(), presented.as_slice(), now);
    let mut actions: Vec<Action> = Vec::new();
    if ok {
        session.phase = Phase::Verified;
    } else {
        session.phase = Phase::Closed;
        actions.push(Action::Disconnect);
        assert(actions_view(actions@) =~= seq![ActionView::Disconnect]);
    }
    actions
}

/// Handles "verify" at the current time.
pub fn on_verify(session: &mut Session, nonces: &mut NonceStore, payload: &str) -> (r: Vec<Action>)
    requires
        old(nonces).wf(),
    ensures
        final(nonces).wf(),
        final(nonces)@ == old(nonces)@.remove(old(session).id@),
        final(session).id == old(session).id,
        final(session).phase == Phase::Verified ==> {
            &&& old(nonces)@.contains_key(old(session).id@)
            &&& old(nonces)@[old(session).id@].0.0@ == presented_bytes(payload@)
            &&& r@.len() == 0
        },
        final(session).phase != Phase::Verified ==> {
            &&& final(session).phase == Phase::Closed
            &&& actions_view(r@) == seq![ActionView::Disconnect]
        },
        !old(nonces)@.contains_key(old(session).id@) ==> final(session).phase == Phase::Closed,
{
    let now = utc_now();
    on_verify_at(session, nonces, payload, now)
}

/// Handles "join": moves the connection into the room, records its user,
/// sends it the room's history oldest first, and tells the room's other
/// members that the user joined.
pub fn on_join(session: &Session, users: &mut UserStore, messages: &MessageStore, data: JoinMessage) -> (r:
    Result<Vec<Action>, Dropped>)
    requires
        old(users).wf(),
        messages.wf(),
    ensures
        final(users).wf(),
        session.phase != Phase::Verified ==> {
            &&& r == Err::<Vec<Action>, Dropped>(Dropped::NotVerified)
            &&& final(users)@ == old(users)@
        },
        session.phase == Phase::Verified ==> {
            &&& final(users)@ == old(users)@.insert(
                session.id@,
                User { id: session.id, name: data.user, room: data.room },
            )
            &&& r is Ok
            &&& actions_view(r->Ok_0@) == seq![
                ActionView::LeaveAllRooms,
                ActionView::JoinRoom(data.room@),
                ActionView::EmitMessages(messages.history(data.room@).reverse()),
                ActionView::BroadcastServerMessage(data.room@, joined_notice(data.user@)),
            ]
        },
{
    if session.phase != Phase::Verified {
        return Err(Dropped::NotVerified);
    }
    let ghost room_view = data.room@;
    let ghost user_view = data.user@;
    let user = User { id: session.id.clone(), name: data.user.clone(), room: data.room.clone() };
    users.insert(session.id.clone(), user);
    let history = messages.get(data.room.as_str());
    let mut text = data.user;
    text.append(" joined the room");
    let mut actions: Vec<Action> = Vec::new();
    actions.push(Action::LeaveAllRooms);
    actions.push(Action::JoinRoom(data.room.clone()));
    actions.push(Action::EmitMessages(Messages { messages: history }));
    actions.push(Action::BroadcastServerMessage { room: data.room, text });
    assert(actions_view(actions@) =~= seq![
        ActionView::LeaveAllRooms,
        ActionView::JoinRoom(room_view),
        ActionView::EmitMessages(messages.history(room_view).reverse()),
        ActionView::BroadcastServerMessage(room_view, joined_notice(user_view)),
    ]);
    Ok(actions)
}

/// Handles "leave": takes the connection out of its rooms, tells the other
/// members of the user's recorded room that the user left, forgets the
/// user, and drops the user's messages from that room's history.
pub fn on_leave(
    session: &Session,
    users: &mut UserStore,
    messages: &mut MessageStore,
    data: LeaveMessage,
) -> (r: Result<Vec<Action>, Dropped>)
    requires
        old(users).wf(),
        old(messages).wf(),
    ensures
        final(users).wf(),
        final(messages).wf(),
        session.phase != Phase::Verified ==> {
            &&& r == Err::<Vec<Action>, Dropped>(Dropped::NotVerified)
            &&& final(users)@ == old(users)@
            &&& forall|room: Seq<char>| final(messages).history(room) == old(messages).history(room)
        },
        session.phase == Phase::Verified && !old(users)@.contains_key(session.id@) ==> {
            &&& r == Err::<Vec<Action>, Dropped>(Dropped::NotJoined)
            &&& final(users)@ == old(users)@
            &&& forall|room: Seq<char>| final(messages).history(room) == old(messages).history(room)
        },
        session.phase == Phase::Verified && old(users)@.contains_key(session.id@) ==> {
            let user = old(users)@[session.id@];
            &&& final(users)@ == old(users)@.remove(session.id@)
            &&& final(messages).history(user.room@) == old(messages).history(user.room@).filter(
                not_by(user.name@),
            )
            &&& forall|room: Seq<char>|
                room != user.room@ ==> final(messages).history(room) == old(messages).history(room)
            &&& r is Ok
            &&& actions_view(r->Ok_0@) == seq![
                ActionView::LeaveRoom(data.room@),
                ActionView::LeaveAllRooms,
                ActionView::BroadcastServerMessage(user.room@, left_notice(user.name@)),
                ActionView::LeaveRoom(user.room@),
            ]
        },
{
    if session.phase != Phase::Verified {
        return Err(Dropped::NotVerified);
    }
    let user = match users.get(session.id.as_str()) {
        Some(u) => u,
        None => {
            return Err(Dropped::NotJoined);
        },
    };
    let ghost leaving = user;
    let mut text = user.name.clone();
    text.append(" left the room");
    users.remove(session.id.as_str());
    messages.remove_user_messages(user.room.as_str(), user.name.as_str());
    let mut actions: Vec<Action> = Vec::new();
    actions.push(Action::LeaveRoom(data.room));
    actions.push(Action::LeaveAllRooms);
    actions.push(Action::BroadcastServerMessage { room: user.room.clone(), text });
    actions.push(Action::LeaveRoom(user.room));
    assert(actions_view(actions@) =~= seq![
        ActionView::LeaveRoom(data.room@),
        ActionView::LeaveAllRooms,
        ActionView::BroadcastServerMessage(leaving.room@, left_notice(leaving.name@)),
        ActionView::LeaveRoom(leaving.room@),
    ]);
    Ok(actions)
}

/// Handles "message" with the given timestamp: stores the message in the
/// sender's room and relays it to the room's other members and back to the
/// sender.
pub fn on_message_at(
    session: &Session,
    users: &UserStore,
    messages: &mut MessageStore,
    data: MessageIn,
    now: UtcInstant,
) -> (r: Result<Vec<Action>, Dropped>)
    requires
        users.wf(),
        old(messages).wf(),
    ensures
        final(messages).wf(),
        session.phase != Phase::Verified || !users@.contains_key(session.id@) ==> {
            &&& r == Err::<Vec<Action>, Dropped>(if session.phase != Phase::Verified {
                Dropped::NotVerified
            } else {
                Dropped::NotJoined
            })
            &&& forall|room: Seq<char>| final(messages).history(room) == old(messages).history(room)
        },
        session.phase == Phase::Verified && users@.contains_key(session.id@) ==> {
            let room = users@[session.id@].room@;
            let sent = Message { text: data.text, user: users@[session.id@].name, date: now };
            &&& final(messages).history(room) == pushed_front(old(messages).history(room), sent)
            &&& forall|other: Seq<char>|
                other != room ==> final(messages).history(other) == old(messages).history(other)
            &&& r is Ok
            &&& actions_view(r->Ok_0@) == seq![
                ActionView::BroadcastMessage(room, sent),
                ActionView::EchoMessage(sent),
            ]
        },
{
    if session.phase != Phase::Verified {
        return Err(Dropped::NotVerified);
    }
    let room = match users.get_room(session.id.as_str()) {
        Some(room) => room,
        None => {
            return Err(Dropped::NotJoined);
        },
    };
    let name = match users.get(session.id.as_str()) {
        Some(u) => u.name,
        None => {
            let mut anon = "anon-".to_owned();
            anon.append(session.id.as_str());
            anon
        },
    };
    let message = Message { text: data.text, user: name, date: now };
    messages.insert(room.as_str(), message.clone());
    let echo = message.clone();
    let ghost sent = message;
    let mut actions: Vec<Action> = Vec::new();
    actions.push(Action::BroadcastMessage { room, message });
    actions.push(Action::EchoMessage(echo));
    assert(actions_view(actions@) =~= seq![
        ActionView::BroadcastMessage(users@[session.id@].room@, sent),
        ActionView::EchoMessage(sent),
    ]);
    Ok(actions)
}

/// Handles "message", stamped with the current time.
pub fn on_message(
    session: &Session,
    users: &UserStore,
    messages: &mut MessageStore,
    data: MessageIn,
) -> (r: Result<Vec<Action>, Dropped>)
    requires
        users.wf(),
        old(messages).wf(),
    ensures
        final(messages).wf(),
        session.phase != Phase::Verified || !users@.contains_key(session.id@) ==> {
            &&& r is Err
            &&& forall|room: Seq<char>| final(messages).history(room) == old(messages).history(room)
        },
        session.phase == Phase::Verified && users@.contains_key(session.id@) ==> {
            let room = users@[session.id@].room@;
            let sent = final(messages).history(room)[0];
            &&& sent.text == data.text
            &&& sent.user == users@[session.id@].name
            &&& final(messages).history(room) == pushed_front(old(messages).history(room), sent)
            &&& forall|other: Seq<char>|
                other != room ==> final(messages).history(other) == old(messages).history(other)
            &&& r is Ok
            &&& actions_view(r->Ok_0@) == seq![
                ActionView::BroadcastMessage(room, sent),
                ActionView::EchoMessage(sent),
            ]
        },
{
    let now = utc_now();
    on_message_at(session, users, messages, data, now)
}

/// Tells the other members of the sender's room that its user started
/// (`stop` false) or stopped (`stop` true) typing.
fn typing_signal(session: &Session, users: &UserStore, stop: bool) -> (r: Result<
    Vec<Action>,
    Dropped,
>)
    requires
        users.wf(),
    ensures
        session.phase != Phase::Verified ==> r == Err::<Vec<Action>, Dropped>(
            Dropped::NotVerified,
        ),
        session.phase == Phase::Verified && !users@.contains_key(session.id@) ==> r == Err::<
            Vec<Action>,
            Dropped,
        >(Dropped::NotJoined),
        session.phase == Phase::Verified && users@.contains_key(session.id@) ==> {
            let user = users@[session.id@];
            &&& r is Ok
            &&& actions_view(r->Ok_0@) == seq![
                if stop {
                    ActionView::BroadcastStopTyping(user.room@, user.name@)
                } else {
                    ActionView::BroadcastTyping(user.room@, user.name@)
                },
            ]
        },
{
    if session.phase != Phase::Verified {
        return Err(Dropped::NotVerified);
    }
    let user = match users.get(session.id.as_str()) {
        Some(u) => u,
        None => {
            return Err(Dropped::NotJoined);
        },
    };
    let ghost typist = user;
    let action = if stop {
        Action::BroadcastStopTyping { room: user.room, user: user.name }
    } else {
        Action::BroadcastTyping { room: user.room, user: user.name }
    };
    let mut actions: Vec<Action> = Vec::new();
    actions.push(action);
    assert(actions_view(actions@) =~= seq![
        if stop {
            ActionView::BroadcastStopTyping(typist.room@, typist.name@)
        } else {
            ActionView::BroadcastTyping(typist.room@, typist.name@)
        },
    ]);
    Ok(actions)
}

/// Handles "typing"; its payload is ignored.
pub fn on_typing(session: &Session, users: &UserStore, data: TypingSignal) -> (r: Result<
    Vec<Action>,
    Dropped,
>)
    requires
        users.wf(),
    ensures
        session.phase != Phase::Verified ==> r == Err::<Vec<Action>, Dropped>(
            Dropped::NotVerified,
        ),
        session.phase == Phase::Verified && !users@.contains_key(session.id@) ==> r == Err::<
            Vec<Action>,
            Dropped,
        >(Dropped::NotJoined),
        session.phase == Phase::Verified && users@.contains_key(session.id@) ==> {
            let user = users@[session.id@];
            &&& r is Ok
            &&& actions_view(r->Ok_0@) == seq![ActionView::BroadcastTyping(user.room@, user.name@)]
        },
{
    typing_signal(session, users, false)
}

/// Handles "stop_typing"; its payload is ignored.
pub fn on_stop_typing(session: &Session, users: &UserStore, data: TypingSignal) -> (r: Result<
    Vec<Action>,
    Dropped,
>)
    requires
        users.wf(),
    ensures
        session.phase != Phase::Verified ==> r == Err::<Vec<Action>, Dropped>(
            Dropped::NotVerified,
        ),
        session.phase == Phase::Verified && !users@.contains_key(session.id@) ==> r == Err::<
            Vec<Action>,
            Dropped,
        >(Dropped::NotJoined),
        session.phase == Phase::Verified && users@.contains_key(session.id@) ==> {
            let user = users@[session.id@];
            &&& r is Ok
            &&& actions_view(r->Ok_0@) == seq![
                ActionView::BroadcastStopTyping(user.room@, user.name@),
            ]
        },
{
    typing_signal(session, users, true)
}

/// Handles the transport closing the connection. No store is cleaned up:
/// records of the connection stay until they are overwritten.
pub fn on_disconnect(session: &mut Session)
    ensures
        final(session).id == old(session).id,
        final(session).phase == Phase::Closed,
{
    session.phase = Phase::Closed;
}

} // verus!
