use vstd::prelude::*;
use crate::keyed_list::KeyedList;
use crate::platform::{random_challenge_bytes, utc_now};

verus! {

/// Most messages a room keeps; older ones are evicted first.
pub const HISTORY_CAP: usize = 256;

/// Seconds a challenge stays valid after it was issued.
pub const CHALLENGE_TTL_SECS: i64 = 300;

/// Payload of a "join" event.
#[derive(Debug)]
pub struct JoinMessage {
    pub user: String,
    pub room: String,
}

/// Payload of a "leave" event.
#[derive(Debug)]
pub struct LeaveMessage {
    pub room: String,
}

/// Payload of an inbound "message" event.
#[derive(Debug)]
pub struct MessageIn {
    pub text: String,
}

/// Payload of "typing" and "stop_typing" events.
#[derive(Debug)]
pub struct TypingSignal {
    pub user: String,
}

/// A UTC instant: whole seconds since the Unix epoch and the nanoseconds
/// past that second.
#[derive(Clone, Copy, Debug, PartialEq, Eq, Structural)]
pub struct UtcInstant {
    pub secs: i64,
    pub nanos: u32,
}

impl UtcInstant {
    /// The instant as nanoseconds since the epoch.
    pub open spec fn total_nanos(self) -> int {
        self.secs * 1_000_000_000 + self.nanos
    }
}

/// A chat message as stored in a room's history and relayed to members.
#[derive(Debug)]
pub struct Message {
    pub text: String,
    pub user: String,
    pub date: UtcInstant,
}

impl Clone for Message {
    fn clone(&self) -> (r: Self)
        ensures
            r == *self,
    {
        Message { text: self.text.clone(), user: self.user.clone(), date: self.date }
    }
}

/// Payload of the "messages" event: a room's history, oldest first.
#[derive(Debug)]
pub struct Messages {
    pub messages: Vec<Message>,
}

/// The directory record of a joined connection.
#[derive(Debug)]
pub struct User {
    pub id: String,
    pub name: String,
    pub room: String,
}

impl Clone for User {
    fn clone(&self) -> (r: Self)
        ensures
            r == *self,
    {
        User { id: self.id.clone(), name: self.name.clone(), room: self.room.clone() }
    }
}

/// Maps a connection identifier to the record of the user on it.
pub struct UserStore {
    users: KeyedList<User>,
}

impl View for UserStore {
    type V = Map<Seq<char>, User>;

    closed spec fn view(&self) -> Map<Seq<char>, User> {
        self.users@
    }
}

impl UserStore {
    pub closed spec fn wf(&self) -> bool {
        self.users.wf()
    }

    pub fn new() -> (r: Self)
        ensures
            r.wf(),
            r@ == Map::<Seq<char>, User>::empty(),
    {
        UserStore { users: KeyedList::new() }
    }

    /// Records `user` for connection `id`, replacing any earlier record.
    pub fn insert(&mut self, id: String, user: User)
        requires
            old(self).wf(),
        ensures
            final(self).wf(),
            final(self)@ == old(self)@.insert(id@, user),
    {
        self.users.set(id, user);
    }

    /// The record of connection `id`, if it has joined.
    pub fn get(&self, id: &str) -> (r: Option<User>)
        requires
            self.wf(),
        ensures
            r == (if self@.contains_key(id@) { Some(self@[id@]) } else { None::<User> }),
    {
        match self.users.get(&id.to_owned()) {
            Some(u) => Some(u.clone()),
            None => None,
        }
    }

    /// The room that connection `id` is in, if it has joined.
    pub fn get_room(&self, id: &str) -> (r: Option<String>)
        requires
            self.wf(),
        ensures
            r == (if self@.contains_key(id@) { Some(self@[id@].room) } else { None::<String> }),
    {
        match self.users.get(&id.to_owned()) {
            Some(u) => Some(u.room.clone()),
            None => None,
        }
    }

    /// Forgets the record of connection `id`.
    pub fn remove(&mut self, id: &str)
        requires
            old(self).wf(),
        ensures
            final(self).wf(),
            final(self)@ == old(self)@.remove(id@),
    {
        let _ = self.users.take(&id.to_owned());
    }
}

impl Default for UserStore {
    fn default() -> (r: Self)
        ensures
            r.wf(),
            r@ == Map::<Seq<char>, User>::empty(),
    {
        UserStore::new()
    }
}

/// Keeps messages whose author is not `name`.
pub open spec fn not_by(name: Seq<char>) -> spec_fn(Message) -> bool {
    |m: Message| m.user@ != name
}

/// A room log after `m` is put in front and the log is cut to the cap.
pub open spec fn pushed_front(log: Seq<Message>, m: Message) -> Seq<Message> {
    let s = seq![m] + log;
    if s.len() > HISTORY_CAP { s.subrange(0, HISTORY_CAP as int) } else { s }
}

/// A sequence cut to at most the cap, keeping its front.
pub open spec fn capped(s: Seq<Message>) -> Seq<Message> {
    if s.len() > HISTORY_CAP { s.subrange(0, HISTORY_CAP as int) } else { s }
}

/// A room log after each of `ms` is put in front in turn.
pub open spec fn appended_all(log: Seq<Message>, ms: Seq<Message>) -> Seq<Message>
    decreases ms.len(),
{
    if ms.len() == 0 {
        log
    } else {
        pushed_front(appended_all(log, ms.drop_last()), ms.last())
    }
}

/// Appending messages one by one leaves the newest first, followed by the
/// earlier log, cut to the cap.
pub proof fn lemma_appended_all(log: Seq<Message>, ms: Seq<Message>)
    requires
        log.len() <= HISTORY_CAP,
    ensures
        appended_all(log, ms) == capped(ms.reverse() + log),
    decreases ms.len(),
{
    if ms.len() == 0 {
        assert(ms.reverse() + log =~= log);
    } else {
        let rest = ms.drop_last();
        lemma_appended_all(log, rest);
        assert(ms.reverse() =~= seq![ms.last()] + rest.reverse());
        let y = rest.reverse() + log;
        if y.len() > HISTORY_CAP {
            assert((seq![ms.last()] + capped(y)).subrange(0, HISTORY_CAP as int) =~= (seq![
                ms.last(),
            ] + y).subrange(0, HISTORY_CAP as int));
        }
        assert(ms.reverse() + log =~= seq![ms.last()] + y);
    }
}

/// Appending any messages to an unused room leaves at most the cap, and
/// reading the room back gives the most recent of them, oldest first.
pub proof fn lemma_history_keeps_latest(ms: Seq<Message>)
    ensures
        appended_all(Seq::empty(), ms).len() == if ms.len() > HISTORY_CAP {
            HISTORY_CAP as int
        } else {
            ms.len() as int
        },
        ms.len() <= HISTORY_CAP ==> appended_all(Seq::empty(), ms).reverse() == ms,
        ms.len() > HISTORY_CAP ==> appended_all(Seq::empty(), ms).reverse() == ms.subrange(
            ms.len() - HISTORY_CAP,
            ms.len() as int,
        ),
{
    lemma_appended_all(Seq::empty(), ms);
    assert(ms.reverse() + Seq::<Message>::empty() =~= ms.reverse());
    if ms.len() <= HISTORY_CAP {
        assert(ms.reverse().reverse() =~= ms);
    } else {
        assert(ms.reverse().subrange(0, HISTORY_CAP as int).reverse() =~= ms.subrange(
            ms.len() - HISTORY_CAP,
            ms.len() as int,
        ));
    }
}

/// Dropping the messages of `name` keeps exactly the messages by others:
/// none by `name` stays, every other one does, and dropping again changes
/// nothing.
pub proof fn lemma_remove_by_author(log: Seq<Message>, name: Seq<char>)
    ensures
        forall|i: int|
            0 <= i < log.filter(not_by(name)).len() ==> #[trigger] log.filter(
                not_by(name),
            )[i].user@ != name,
        forall|i: int|
            0 <= i < log.len() && #[trigger] log[i].user@ != name ==> log.filter(
                not_by(name),
            ).contains(log[i]),
        log.filter(not_by(name)).filter(not_by(name)) == log.filter(not_by(name)),
{
    log.filter_lemma(not_by(name));
    assert forall|i: int| 0 <= i < log.len() && #[trigger] log[i].user@ != name implies log.filter(
        not_by(name),
    ).contains(log[i]) by {
        log.lemma_filter_contains(not_by(name), i);
    }
    lemma_filter_keeps_kept(log.filter(not_by(name)), name);
}

/// Filtering a sequence whose messages are all by others changes nothing.
proof fn lemma_filter_keeps_kept(s: Seq<Message>, name: Seq<char>)
    requires
        forall|i: int| 0 <= i < s.len() ==> #[trigger] s[i].user@ != name,
    ensures
        s.filter(not_by(name)) == s,
    decreases s.len(),
{
    reveal(Seq::filter);
    if s.len() > 0 {
        lemma_filter_keeps_kept(s.drop_last(), name);
        assert(s.drop_last().push(s.last()) =~= s);
    }
}

/// Maps each room name to its bounded log, most recent message first.
pub struct MessageStore {
    rooms: KeyedList<Vec<Message>>,
}

impl MessageStore {
    /// The stored log of `room`, most recent first; empty for an unused room.
    pub closed spec fn history(&self, room: Seq<char>) -> Seq<Message> {
        if self.rooms@.contains_key(room) {
            self.rooms@[room]@
        } else {
            Seq::empty()
        }
    }

    pub closed spec fn wf(&self) -> bool {
        &&& self.rooms.wf()
        &&& forall|r: Seq<char>| #[trigger] self.rooms@.contains_key(r)
            ==> self.rooms@[r]@.len() <= HISTORY_CAP
    }

    /// No room holds more than the cap.
    pub proof fn lemma_capped(&self, room: Seq<char>)
        requires
            self.wf(),
        ensures
            self.history(room).len() <= HISTORY_CAP,
    {
    }

    pub fn new() -> (r: Self)
        ensures
            r.wf(),
            forall|room: Seq<char>| r.history(room) == Seq::<Message>::empty(),
    {
        MessageStore { rooms: KeyedList::new() }
    }

    /// Puts `message` at the front of the log of `room`, dropping the oldest
    /// entry when the log grows past the cap.
    pub fn insert(&mut self, room: &str, message: Message)
        requires
            old(self).wf(),
        ensures
            final(self).wf(),
            final(self).history(room@) == pushed_front(old(self).history(room@), message),
            forall|r: Seq<char>| r != room@ ==> final(self).history(r) == old(self).history(r),
    {
        let key = room.to_owned();
        let mut log = match self.rooms.take(&key) {
            Some(l) => l,
            None => Vec::new(),
        };
        log.insert(0, message);
        log.truncate(HISTORY_CAP);
        let ghost expected = pushed_front(old(self).history(room@), message);
        assert(log@ =~= expected);
        self.rooms.set(key, log);
    }

    /// The messages of `room`, oldest first.
    pub fn get(&self, room: &str) -> (r: Vec<Message>)
        requires
            self.wf(),
        ensures
            r@ == self.history(room@).reverse(),
    {
        let mut out: Vec<Message> = Vec::new();
        match self.rooms.get(&room.to_owned()) {
            Some(log) => {
                let mut i: usize = log.len();
                while i > 0
                    invariant
                        i <= log@.len(),
                        out@.len() == log@.len() - i,
                        forall|j: int| 0 <= j < out@.len() ==> out@[j] == log@[log@.len() - 1 - j],
                    decreases i,
                {
                    i = i - 1;
                    out.push(log[i].clone());
                }
                assert(out@ =~= self.history(room@).reverse());
            },
            None => {
                assert(out@ =~= self.history(room@).reverse());
            },
        }
        out
    }

    /// Drops every message of `room` written by `user`, keeping the order of
    /// the others.
    pub fn remove_user_messages(&mut self, room: &str, user: &str)
        requires
            old(self).wf(),
        ensures
            final(self).wf(),
            final(self).history(room@) == old(self).history(room@).filter(not_by(user@)),
            forall|r: Seq<char>| r != room@ ==> final(self).history(r) == old(self).history(r),
    {
        let key = room.to_owned();
        match self.rooms.take(&key) {
            Some(log) => {
                let author = user.to_owned();
                let mut kept: Vec<Message> = Vec::new();
                let mut i: usize = 0;
                while i < log.len()
                    invariant
                        i <= log@.len(),
                        author@ == user@,
                        kept@ == log@.subrange(0, i as int).filter(not_by(user@)),
                    decreases log@.len() - i,
                {
                    proof {
                        reveal(Seq::filter);
                        assert(log@.subrange(0, i + 1).drop_last() =~= log@.subrange(0, i as int));
                        assert(log@.subrange(0, i + 1).last() == log@[i as int]);
                    }
                    let ghost pred = not_by(user@);
                    if !(log[i].user == author) {
                        kept.push(log[i].clone());
                        assert(pred(log@[i as int]));
                    } else {
                        assert(!pred(log@[i as int]));
                    }
                    assert(kept@ == log@.subrange(0, i + 1).filter(pred));
                    i = i + 1;
                }
                assert(log@.subrange(0, log@.len() as int) =~= log@);
                proof {
                    log@.lemma_filter_len(not_by(user@));
                }
                self.rooms.set(key, kept);
            },
            None => {
                proof {
                    reveal(Seq::filter);
                }
            },
        }
    }
}

impl Default for MessageStore {
    fn default() -> (r: Self)
        ensures
            r.wf(),
            forall|room: Seq<char>| r.history(room) == Seq::<Message>::empty(),
    {
        MessageStore::new()
    }
}

/// A one-time challenge: 32 random bytes.
#[derive(Clone, Copy, Debug)]
pub struct Nonce(pub [u8; 32]);

impl Nonce {
    /// A fresh challenge of random bytes.
    pub fn new() -> (r: Self) {
        Nonce(random_challenge_bytes())
    }
}

/// True when `now` is at most the challenge lifetime past `issued`. A clock
/// that went back counts as no time elapsed.
pub open spec fn within_ttl(issued: UtcInstant, now: UtcInstant) -> bool {
    now.total_nanos() - issued.total_nanos() <= CHALLENGE_TTL_SECS * 1_000_000_000
}

/// Whether a verification attempt on a store with contents `m` succeeds:
/// a challenge is outstanding for `id`, it is still fresh, and the presented
/// bytes are exactly its bytes.
pub open spec fn challenge_accepts(
    m: Map<Seq<char>, (Nonce, UtcInstant)>,
    id: Seq<char>,
    presented: Seq<u8>,
    now: UtcInstant,
) -> bool {
    &&& m.contains_key(id)
    &&& within_ttl(m[id].1, now)
    &&& m[id].0.0@ == presented
}

/// A verification attempt consumes the challenge of the connection, so a
/// second attempt for it fails whatever it presents and whenever it comes.
pub proof fn lemma_challenge_single_use(
    m: Map<Seq<char>, (Nonce, UtcInstant)>,
    id: Seq<char>,
    presented: Seq<u8>,
    now: UtcInstant,
)
    ensures
        !challenge_accepts(m.remove(id), id, presented, now),
{
}

/// A challenge just issued to `id` at `issued` is accepted exactly when its
/// own bytes come back within the lifetime.
pub proof fn lemma_challenge_accepts_issued(
    m: Map<Seq<char>, (Nonce, UtcInstant)>,
    id: Seq<char>,
    nonce: Nonce,
    issued: UtcInstant,
    presented: Seq<u8>,
    now: UtcInstant,
)
    ensures
        challenge_accepts(m.insert(id, (nonce, issued)), id, presented, now) <==> (
        within_ttl(issued, now) && presented == nonce.0@),
{
}

/// Nanoseconds since the epoch, exactly.
fn nanos_of(t: UtcInstant) -> (r: i128)
    ensures
        r == t.total_nanos(),
{
    let s = t.secs as i128;
    assert(-0x8000_0000_0000_0000 <= s < 0x8000_0000_0000_0000);
    assert(-0x8000_0000_0000_0000 * 1_000_000_000 <= s * 1_000_000_000
        <= 0x8000_0000_0000_0000 * 1_000_000_000) by (nonlinear_arith)
        requires
            -0x8000_0000_0000_0000 <= s < 0x8000_0000_0000_0000,
    ;
    s * 1_000_000_000 + t.nanos as i128
}

/// Whether `presented` holds exactly the bytes of `stored`.
fn same_bytes(stored: &[u8; 32], presented: &[u8]) -> (r: bool)
    ensures
        r == (stored@ == presented@),
{
    if presented.len() != 32 {
        return false;
    }
    let mut i: usize = 0;
    while i < 32
        invariant
            i <= 32,
            presented@.len() == 32,
            forall|j: int| 0 <= j < i ==> stored@[j] == presented@[j],
        decreases 32 - i,
    {
        if stored[i] != presented[i] {
            return false;
        }
        i = i + 1;
    }
    assert(stored@ =~= presented@);
    true
}

/// Outstanding challenges, at most one per connection identifier, each with
/// the instant it was issued.
pub struct NonceStore {
    nonces: KeyedList<(Nonce, UtcInstant)>,
}

impl View for NonceStore {
    type V = Map<Seq<char>, (Nonce, UtcInstant)>;

    closed spec fn view(&self) -> Map<Seq<char>, (Nonce, UtcInstant)> {
        self.nonces@
    }
}

impl NonceStore {
    pub closed spec fn wf(&self) -> bool {
        self.nonces.wf()
    }

    pub fn new() -> (r: Self)
        ensures
            r.wf(),
            r@ == Map::<Seq<char>, (Nonce, UtcInstant)>::empty(),
    {
        NonceStore { nonces: KeyedList::new() }
    }

    /// Records `nonce`, issued at `now`, as the challenge of `socket_id`,
    /// replacing any earlier one.
    pub fn add_nonce_at(&mut self, socket_id: String, nonce: Nonce, now: UtcInstant)
        requires
            old(self).wf(),
        ensures
            final(self).wf(),
            final(self)@ == old(self)@.insert(socket_id@, (nonce, now)),
    {
        self.nonces.set(socket_id, (nonce, now));
    }

    /// Issues a fresh random challenge for `socket_id`, stamped with the
    /// current time, and returns it.
    pub fn add_nonce(&mut self, socket_id: String) -> (r: Nonce)
        requires
            old(self).wf(),
        ensures
            final(self).wf(),
            final(self)@.contains_key(socket_id@),
            final(self)@[socket_id@].0 == r,
            final(self)@ == old(self)@.insert(socket_id@, final(self)@[socket_id@]),
    {
        let nonce = Nonce::new();
        let now = utc_now();
        self.add_nonce_at(socket_id, nonce, now);
        nonce
    }

    /// Consumes the challenge of `socket_id`, if any, and tells whether
    /// `client_nonce` matches it and it was issued at most the lifetime
    /// before `now`.
    pub fn verify_and_remove_at(&mut self, socket_id: &str, client_nonce: &[u8], now: UtcInstant) -> (r:
        bool)
        requires
            old(self).wf(),
        ensures
            final(self).wf(),
            final(self)@ == old(self)@.remove(socket_id@),
            r == challenge_accepts(old(self)@, socket_id@, client_nonce@, now),
    {
        match self.nonces.take(&socket_id.to_owned()) {
            Some(entry) => {
                let (stored, issued) = entry;
                let elapsed = nanos_of(now) - nanos_of(issued);
                if elapsed <= (CHALLENGE_TTL_SECS as i128) * 1_000_000_000 {
                    same_bytes(&stored.0, client_nonce)
                } else {
                    false
                }
            },
            None => false,
        }
    }

    /// Consumes the challenge of `socket_id`, if any, and checks
    /// `client_nonce` against it at the current time.
    pub fn verify_and_remove(&mut self, socket_id: &str, client_nonce: &[u8]) -> (r: bool)
        requires
            old(self).wf(),
        ensures
            final(self).wf(),
            final(self)@ == old(self)@.remove(socket_id@),
            r ==> old(self)@.contains_key(socket_id@) && old(self)@[socket_id@].0.0@
                == client_nonce@,
            !old(self)@.contains_key(socket_id@) ==> !r,
    {
        let now = utc_now();
        self.verify_and_remove_at(socket_id, client_nonce, now)
    }
}

impl Default for NonceStore {
    fn default() -> (r: Self)
        ensures
            r.wf(),
            r@ == Map::<Seq<char>, (Nonce, UtcInstant)>::empty(),
    {
        NonceStore::new()
    }
}

} // verus!
