//! The store of users, sessions, schedules and colors, and the operations that
//! the request handlers perform on it.
use vstd::prelude::*;
use vstd::string::StringSliceAdditionalSpecFns;
use vstd::utf8::{encode_utf8, is_char_boundary};

use crate::external::{
    argon2_encoded_of, fresh_uuid, hash_password, parse_uuid, uuid_of, MAX_PASSWORD_BYTES,
};
use crate::records::{ApiError, Schedule, ScheduleColor, Session, User};

verus! {

/// The number of bytes of an authorization header that stand before the
/// token (the scheme, such as `"Bearer "`).
pub const TOKEN_OFFSET: usize = 7;

/// All records, in the order in which they were created. Every record gets
/// its id from one counter, so ids grow along each list.
pub struct Store {
    users: Vec<User>,
    sessions: Vec<Session>,
    schedules: Vec<Schedule>,
    colors: Vec<ScheduleColor>,
    next_id: u64,
}

/// What a [`Store`] holds.
pub struct StoreView {
    pub users: Seq<User>,
    pub sessions: Seq<Session>,
    pub schedules: Seq<Schedule>,
    pub colors: Seq<ScheduleColor>,
    pub next_id: u64,
}

impl View for Store {
    type V = StoreView;

    closed spec fn view(&self) -> StoreView {
        StoreView {
            users: self.users@,
            sessions: self.sessions@,
            schedules: self.schedules@,
            colors: self.colors@,
            next_id: self.next_id,
        }
    }
}

/// The bytes of an optional header.
pub open spec fn header_bytes(header: Option<&str>) -> Option<Seq<u8>> {
    match header {
        Some(h) => Some(h.spec_bytes()),
        None => None,
    }
}

/// Whether a schedule belongs to `user_id` and starts within `[start, end]`.
pub open spec fn in_window(user_id: u64, start: i64, end: i64) -> spec_fn(Schedule) -> bool {
    |s: Schedule| s.user_id == user_id && start <= s.start_time <= end
}

impl StoreView {
    /// Ids are below the counter and grow along each list; user names and
    /// session tokens are unique; every session belongs to a user.
    pub open spec fn wf(self) -> bool {
        &&& forall|i: int, j: int|
            0 <= i < j < self.users.len() ==> self.users[i].id < self.users[j].id
        &&& forall|i: int| 0 <= i < self.users.len() ==> self.users[i].id < self.next_id
        &&& forall|i: int, j: int|
            0 <= i < j < self.sessions.len() ==> self.sessions[i].id < self.sessions[j].id
        &&& forall|i: int| 0 <= i < self.sessions.len() ==> self.sessions[i].id < self.next_id
        &&& forall|i: int, j: int|
            0 <= i < j < self.schedules.len() ==> self.schedules[i].id < self.schedules[j].id
        &&& forall|i: int| 0 <= i < self.schedules.len() ==> self.schedules[i].id < self.next_id
        &&& forall|i: int, j: int|
            0 <= i < j < self.colors.len() ==> self.colors[i].id < self.colors[j].id
        &&& forall|i: int| 0 <= i < self.colors.len() ==> self.colors[i].id < self.next_id
        &&& forall|i: int, j: int|
            0 <= i < self.users.len() && 0 <= j < self.users.len() && i != j
                ==> self.users[i].name@ != self.users[j].name@
        &&& forall|i: int, j: int|
            0 <= i < self.sessions.len() && 0 <= j < self.sessions.len() && i != j
                ==> self.sessions[i].token != self.sessions[j].token
        &&& forall|i: int|
            0 <= i < self.sessions.len() ==> self.has_user(#[trigger] self.sessions[i].user_id)
    }

    pub open spec fn has_user(self, id: u64) -> bool {
        exists|i: int| 0 <= i < self.users.len() && self.users[i].id == id
    }

    /// The user with that id, if there is one.
    pub open spec fn user_with_id(self, id: u64) -> Option<User> {
        if self.has_user(id) {
            Some(self.users[choose|i: int| 0 <= i < self.users.len() && self.users[i].id == id])
        } else {
            None
        }
    }

    pub open spec fn has_user_named(self, name: Seq<char>) -> bool {
        exists|i: int| 0 <= i < self.users.len() && self.users[i].name@ == name
    }

    /// The user of that name, if there is one.
    pub open spec fn user_named(self, name: Seq<char>) -> Option<User> {
        if self.has_user_named(name) {
            Some(
                self.users[choose|i: int| 0 <= i < self.users.len() && self.users[i].name@ == name],
            )
        } else {
            None
        }
    }

    pub open spec fn has_token(self, token: u128) -> bool {
        exists|i: int| 0 <= i < self.sessions.len() && self.sessions[i].token == token
    }

    /// The session that holds the token, if there is one.
    pub open spec fn session_with_token(self, token: u128) -> Option<Session> {
        if self.has_token(token) {
            Some(
                self.sessions[choose|i: int|
                    0 <= i < self.sessions.len() && self.sessions[i].token == token],
            )
        } else {
            None
        }
    }

    pub open spec fn with_user(self, u: User) -> StoreView {
        StoreView { users: self.users.push(u), next_id: (self.next_id + 1) as u64, ..self }
    }

    pub open spec fn with_session(self, s: Session) -> StoreView {
        StoreView { sessions: self.sessions.push(s), next_id: (self.next_id + 1) as u64, ..self }
    }

    pub open spec fn with_schedule(self, s: Schedule) -> StoreView {
        StoreView { schedules: self.schedules.push(s), next_id: (self.next_id + 1) as u64, ..self }
    }

    pub open spec fn with_color(self, c: ScheduleColor) -> StoreView {
        StoreView { colors: self.colors.push(c), next_id: (self.next_id + 1) as u64, ..self }
    }

    pub open spec fn has_schedule(self, id: u64) -> bool {
        exists|i: int| 0 <= i < self.schedules.len() && self.schedules[i].id == id
    }

    /// The position of the schedule with that id.
    pub open spec fn schedule_index(self, id: u64) -> int {
        choose|i: int| 0 <= i < self.schedules.len() && self.schedules[i].id == id
    }

    /// The schedule with that id, if `user_id` owns it.
    pub open spec fn owned_schedule(self, user_id: u64, id: u64) -> Option<Schedule> {
        if self.has_schedule(id) && self.schedules[self.schedule_index(id)].user_id == user_id {
            Some(self.schedules[self.schedule_index(id)])
        } else {
            None
        }
    }

    /// The schedules of `user_id` that start within `[start, end]`, in the
    /// order of creation.
    pub open spec fn listed(self, user_id: u64, start: i64, end: i64) -> Seq<Schedule> {
        self.schedules.filter(in_window(user_id, start, end))
    }

    /// Why registering `name` with `password` fails, if it does.
    pub open spec fn register_error(self, name: Seq<char>, password: Seq<u8>) -> Option<ApiError> {
        if self.has_user_named(name) {
            Some(ApiError::Conflict)
        } else if password.len() > MAX_PASSWORD_BYTES {
            Some(ApiError::Validation)
        } else if self.next_id == u64::MAX {
            Some(ApiError::StoreUnavailable)
        } else {
            None
        }
    }

    /// The session that a valid header resolves to, or `Unauthorized`: the
    /// header must be present, its token must start at a character boundary
    /// after the scheme, parse as a UUID and belong to a stored session.
    pub open spec fn resolve(self, header: Option<Seq<u8>>) -> Result<Session, ApiError> {
        match header {
            None => Err(ApiError::Unauthorized),
            Some(h) => if !is_char_boundary(h, TOKEN_OFFSET as int) {
                Err(ApiError::Unauthorized)
            } else {
                match uuid_of(h.subrange(TOKEN_OFFSET as int, h.len() as int)) {
                    None => Err(ApiError::Unauthorized),
                    Some(t) => match self.session_with_token(t) {
                        Some(s) => Ok(s),
                        None => Err(ApiError::Unauthorized),
                    },
                }
            },
        }
    }
}

/// `register(name, password)` took the store from `old` to `new` and returned
/// `r`: on success a new user with a fresh id and the password's hash under
/// the user's salt.
pub open spec fn registered(
    old: StoreView,
    name: Seq<char>,
    password: Seq<u8>,
    r: Result<User, ApiError>,
    new: StoreView,
) -> bool {
    match old.register_error(name, password) {
        Some(e) => r == Err::<User, ApiError>(e) && new == old,
        None => match r {
            Ok(u) => {
                &&& u.id == old.next_id
                &&& u.name@ == name
                &&& u.password_hash@ == argon2_encoded_of(password, u.salt)
                &&& new == old.with_user(u)
            },
            Err(_) => false,
        },
    }
}

/// A session was issued to `user_id`, taking the store from `old` to `new`:
/// on success with a fresh id and a token that no other session holds. It
/// fails when ids have run out, or when the random token was already taken,
/// which cannot happen while no session exists.
pub open spec fn issued(
    old: StoreView,
    user_id: u64,
    r: Result<Session, ApiError>,
    new: StoreView,
) -> bool {
    match r {
        Ok(s) => {
            &&& old.next_id < u64::MAX
            &&& s.id == old.next_id
            &&& s.user_id == user_id
            &&& !old.has_token(s.token)
            &&& new == old.with_session(s)
        },
        Err(e) => {
            &&& new == old
            &&& old.next_id == u64::MAX ==> e == ApiError::StoreUnavailable
            &&& old.next_id < u64::MAX ==> e == ApiError::Conflict
            &&& old.next_id < u64::MAX ==> old.sessions.len() > 0
        },
    }
}

/// A session holding `token` was issued to `user_id`, taking the store from
/// `old` to `new`, or the issue failed for the first reason that applies.
pub open spec fn issued_with(
    old: StoreView,
    user_id: u64,
    token: u128,
    r: Result<Session, ApiError>,
    new: StoreView,
) -> bool {
    if !old.has_user(user_id) {
        r == Err::<Session, ApiError>(ApiError::NotFound) && new == old
    } else if old.next_id == u64::MAX {
        r == Err::<Session, ApiError>(ApiError::StoreUnavailable) && new == old
    } else if old.has_token(token) {
        r == Err::<Session, ApiError>(ApiError::Conflict) && new == old
    } else {
        let s = Session { id: old.next_id, user_id, token };
        r == Ok::<Session, ApiError>(s) && new == old.with_session(s)
    }
}

/// `authenticate(name, password)` took the store from `old` to `new`: a
/// session is issued exactly when the user exists and the password's hash
/// under the user's salt is the stored one.
pub open spec fn authenticated(
    old: StoreView,
    name: Seq<char>,
    password: Seq<u8>,
    r: Result<Session, ApiError>,
    new: StoreView,
) -> bool {
    match old.user_named(name) {
        None => r == Err::<Session, ApiError>(ApiError::InvalidCredentials) && new == old,
        Some(u) => if password.len() > MAX_PASSWORD_BYTES || argon2_encoded_of(password, u.salt)
            != u.password_hash@ {
            r == Err::<Session, ApiError>(ApiError::InvalidCredentials) && new == old
        } else {
            issued(old, u.id, r, new)
        },
    }
}

/// `create_user(name, password)` registered the user and then issued a session to
/// it. When the issue fails the user stays registered.
pub open spec fn signed_up(
    old: StoreView,
    name: Seq<char>,
    password: Seq<u8>,
    r: Result<Session, ApiError>,
    new: StoreView,
) -> bool {
    match old.register_error(name, password) {
        Some(e) => r == Err::<Session, ApiError>(e) && new == old,
        None => {
            &&& new.users.len() == old.users.len() + 1
            &&& registered(old, name, password, Ok(new.users.last()), old.with_user(new.users.last()))
            &&& issued(old.with_user(new.users.last()), new.users.last().id, r, new)
        },
    }
}

/// `after` is `before` with its name, description and times replaced.
pub open spec fn revised(
    before: Schedule,
    after: Schedule,
    name: Seq<char>,
    description: Seq<char>,
    start_time: i64,
    end_time: i64,
) -> bool {
    &&& after.id == before.id
    &&& after.user_id == before.user_id
    &&& after.color_id == before.color_id
    &&& after.name@ == name
    &&& after.description@ == description
    &&& after.start_time == start_time
    &&& after.end_time == end_time
}

/// A schedule of `user_id` was added, taking the store from `old` to `new`.
pub open spec fn added_schedule(
    old: StoreView,
    user_id: u64,
    color_id: [u8; 12],
    name: Seq<char>,
    description: Seq<char>,
    start_time: i64,
    end_time: i64,
    r: Result<Schedule, ApiError>,
    new: StoreView,
) -> bool {
    match r {
        Ok(s) => {
            &&& old.next_id < u64::MAX
            &&& s.id == old.next_id
            &&& s.user_id == user_id
            &&& s.color_id == color_id
            &&& s.name@ == name
            &&& s.description@ == description
            &&& s.start_time == start_time
            &&& s.end_time == end_time
            &&& new == old.with_schedule(s)
        },
        Err(e) => old.next_id == u64::MAX && e == ApiError::StoreUnavailable && new == old,
    }
}

/// The schedule `id` was edited on behalf of `user_id`, taking the store from
/// `old` to `new`: only a schedule that the user owns changes, in place.
pub open spec fn edited(
    old: StoreView,
    user_id: u64,
    id: u64,
    name: Seq<char>,
    description: Seq<char>,
    start_time: i64,
    end_time: i64,
    r: Result<Schedule, ApiError>,
    new: StoreView,
) -> bool {
    match old.owned_schedule(user_id, id) {
        None => r == Err::<Schedule, ApiError>(ApiError::NotFound) && new == old,
        Some(before) => match r {
            Ok(after) => {
                &&& revised(before, after, name, description, start_time, end_time)
                &&& new == StoreView {
                    schedules: old.schedules.update(old.schedule_index(id), after),
                    ..old
                }
            },
            Err(_) => false,
        },
    }
}

/// A color was added, taking the store from `old` to `new`.
pub open spec fn added_color(
    old: StoreView,
    name: Seq<char>,
    color: Seq<char>,
    r: Result<ScheduleColor, ApiError>,
    new: StoreView,
) -> bool {
    match r {
        Ok(c) => {
            &&& old.next_id < u64::MAX
            &&& c.id == old.next_id
            &&& c.name@ == name
            &&& c.color@ == color
            &&& new == old.with_color(c)
        },
        Err(e) => old.next_id == u64::MAX && e == ApiError::StoreUnavailable && new == old,
    }
}

/// Every session still belongs to a user after a step that keeps the first
/// users and sessions and adds only sessions of users that `old` holds.
proof fn lemma_sessions_keep_users(old: StoreView, new: StoreView)
    requires
        forall|i: int| 0 <= i < old.sessions.len() ==> old.has_user(#[trigger] old.sessions[i].user_id),
        old.users.len() <= new.users.len(),
        forall|i: int| 0 <= i < old.users.len() ==> new.users[i] == old.users[i],
        old.sessions.len() <= new.sessions.len(),
        forall|k: int|
            0 <= k < new.sessions.len() ==> if k < old.sessions.len() {
                new.sessions[k] == old.sessions[k]
            } else {
                old.has_user(#[trigger] new.sessions[k].user_id)
            },
    ensures
        forall|k: int| 0 <= k < new.sessions.len() ==> new.has_user(#[trigger] new.sessions[k].user_id),
{
    assert forall|k: int| 0 <= k < new.sessions.len() implies new.has_user(
        #[trigger] new.sessions[k].user_id,
    ) by {
        if k < old.sessions.len() {
            assert(old.has_user(old.sessions[k].user_id));
        }
        let j = choose|j: int| 0 <= j < old.users.len() && old.users[j].id == new.sessions[k].user_id;
        assert(new.users[j] == old.users[j]);
    }
}

impl Store {
    /// An empty store.
    pub fn new() -> (r: Store)
        ensures
            r@.wf(),
            r@.users.len() == 0,
            r@.sessions.len() == 0,
            r@.schedules.len() == 0,
            r@.colors.len() == 0,
            r@.next_id == 0,
    {
        Store {
            users: Vec::new(),
            sessions: Vec::new(),
            schedules: Vec::new(),
            colors: Vec::new(),
            next_id: 0,
        }
    }

    /// The index of the user named `name`.
    fn find_user(&self, name: &String) -> (r: Option<usize>)
        requires
            self@.wf(),
        ensures
            match r {
                Some(i) => i < self.users@.len() && self@.user_named(name@) == Some(self.users@[i as int]),
                None => self@.user_named(name@) is None,
            },
    {
        let mut i: usize = 0;
        while i < self.users.len()
            invariant
                self@.wf(),
                i <= self.users@.len(),
                forall|k: int| 0 <= k < i ==> self.users@[k].name@ != name@,
            decreases self.users@.len() - i,
        {
            if self.users[i].name == *name {
                let ghost v = self@;
                proof {
                    assert(v.users[i as int].name@ == name@);
                    assert(v.has_user_named(name@));
                    let j = choose|j: int| 0 <= j < v.users.len() && v.users[j].name@ == name@;
                    assert(j == i);
                }
                return Some(i);
            }
            i = i + 1;
        }
        None
    }

    /// Issues a session holding `token` to `user_id`: `NotFound` when there
    /// is no such user, `StoreUnavailable` when ids have run out, `Conflict`
    /// when a session already holds the token.
    pub fn issue_with_token(&mut self, user_id: u64, token: u128) -> (r: Result<Session, ApiError>)
        requires
            old(self)@.wf(),
        ensures
            final(self)@.wf(),
            issued_with(old(self)@, user_id, token, r, final(self)@),
    {
        if self.find_user_by_id(user_id).is_none() {
            return Err(ApiError::NotFound);
        }
        if self.next_id == u64::MAX {
            return Err(ApiError::StoreUnavailable);
        }
        let mut i: usize = 0;
        while i < self.sessions.len()
            invariant
                self@ == old(self)@,
                self@.wf(),
                self@.has_user(user_id),
                self.next_id < u64::MAX,
                i <= self.sessions@.len(),
                forall|k: int| 0 <= k < i ==> self.sessions@[k].token != token,
            decreases self.sessions@.len() - i,
        {
            if self.sessions[i].token == token {
                proof {
                    assert(self@.sessions[i as int].token == token);
                }
                return Err(ApiError::Conflict);
            }
            i = i + 1;
        }
        let session = Session { id: self.next_id, user_id, token };
        let ghost v = self@;
        self.sessions.push(session);
        self.next_id = self.next_id + 1;
        proof {
            assert(self@ == v.with_session(session));
            lemma_sessions_keep_users(v, self@);
        }
        Ok(session)
    }

    /// Issues a session with a random token to `user_id`.
    fn issue(&mut self, user_id: u64) -> (r: Result<Session, ApiError>)
        requires
            old(self)@.wf(),
            old(self)@.has_user(user_id),
        ensures
            final(self)@.wf(),
            issued(old(self)@, user_id, r, final(self)@),
    {
        let token = fresh_uuid();
        self.issue_with_token(user_id, token)
    }

    /// Registers a user, storing the password's hash under a fresh random
    /// salt. Fails with `Conflict` when the name is taken.
    pub fn register(&mut self, name: String, password: String) -> (r: Result<User, ApiError>)
        requires
            old(self)@.wf(),
        ensures
            final(self)@.wf(),
            registered(old(self)@, name@, encode_utf8(password@), r, final(self)@),
    {
        let salt = fresh_uuid();
        self.register_with_salt(name, password, salt)
    }

    /// Registers a user, storing the password's hash under `salt`.
    pub fn register_with_salt(&mut self, name: String, password: String, salt: u128) -> (r: Result<
        User,
        ApiError,
    >)
        requires
            old(self)@.wf(),
        ensures
            final(self)@.wf(),
            registered(old(self)@, name@, encode_utf8(password@), r, final(self)@),
            r is Ok ==> r->Ok_0.salt == salt,
    {
        if let Some(_) = self.find_user(&name) {
            return Err(ApiError::Conflict);
        }
        if password.as_str().as_bytes().len() > MAX_PASSWORD_BYTES {
            return Err(ApiError::Validation);
        }
        if self.next_id == u64::MAX {
            return Err(ApiError::StoreUnavailable);
        }
        let password_hash = hash_password(password.as_str(), salt);
        let user = User { id: self.next_id, name, salt, password_hash };
        let ghost v = self@;
        let result = user.duplicate();
        self.users.push(user);
        self.next_id = self.next_id + 1;
        proof {
            assert(self@ == v.with_user(result));
            lemma_sessions_keep_users(v, self@);
        }
        Ok(result)
    }

    /// Issues a session to the user just registered under `name`; `NotFound`
    /// when there is no such user.
    pub fn issue_for_new_user(&mut self, name: &String) -> (r: Result<Session, ApiError>)
        requires
            old(self)@.wf(),
        ensures
            final(self)@.wf(),
            match old(self)@.user_named(name@) {
                None => r == Err::<Session, ApiError>(ApiError::NotFound) && final(self)@ == old(self)@,
                Some(u) => issued(old(self)@, u.id, r, final(self)@),
            },
    {
        match self.find_user(name) {
            None => Err(ApiError::NotFound),
            Some(i) => {
                let user_id = self.users[i].id;
                proof {
                    assert(self@.has_user(user_id));
                }
                self.issue(user_id)
            },
        }
    }

    /// The position of the user with that id.
    fn find_user_by_id(&self, id: u64) -> (r: Option<usize>)
        requires
            self@.wf(),
        ensures
            match r {
                Some(i) => i < self.users@.len() && self@.user_with_id(id) == Some(self.users@[i as int]),
                None => self@.user_with_id(id) is None,
            },
    {
        let mut i: usize = 0;
        while i < self.users.len()
            invariant
                self@.wf(),
                i <= self.users@.len(),
                forall|k: int| 0 <= k < i ==> self.users@[k].id != id,
            decreases self.users@.len() - i,
        {
            if self.users[i].id == id {
                let ghost v = self@;
                proof {
                    assert(v.users[i as int].id == id);
                    assert(v.has_user(id));
                    let j = choose|j: int| 0 <= j < v.users.len() && v.users[j].id == id;
                    if j < i {
                        assert(v.users[j].id < v.users[i as int].id);
                    } else if j > i {
                        assert(v.users[i as int].id < v.users[j].id);
                    }
                }
                return Some(i);
            }
            i = i + 1;
        }
        None
    }

    /// Completes a sign-in once the password has been hashed under the
    /// user's salt: a session is issued to `user_id` exactly when `attempt`
    /// is the stored hash; otherwise `InvalidCredentials`.
    pub fn session_for_hash(&mut self, user_id: u64, attempt: &String) -> (r: Result<Session, ApiError>)
        requires
            old(self)@.wf(),
        ensures
            final(self)@.wf(),
            match old(self)@.user_with_id(user_id) {
                Some(u) if attempt@ == u.password_hash@ => issued(old(self)@, user_id, r, final(self)@),
                _ => r == Err::<Session, ApiError>(ApiError::InvalidCredentials) && final(self)@ == old(self)@,
            },
    {
        match self.find_user_by_id(user_id) {
            None => Err(ApiError::InvalidCredentials),
            Some(i) => {
                if *attempt != self.users[i].password_hash {
                    return Err(ApiError::InvalidCredentials);
                }
                proof {
                    assert(self@.users[i as int].id == user_id);
                    assert(self@.has_user(user_id));
                }
                self.issue(user_id)
            },
        }
    }

    /// Signs a user in: checks the password against the stored hash and on a
    /// match issues a session. An unknown name or a wrong password gives
    /// `InvalidCredentials`.
    pub fn authenticate(&mut self, name: &String, password: &String) -> (r: Result<Session, ApiError>)
        requires
            old(self)@.wf(),
        ensures
            final(self)@.wf(),
            authenticated(old(self)@, name@, encode_utf8(password@), r, final(self)@),
    {
        match self.find_user(name) {
            None => Err(ApiError::InvalidCredentials),
            Some(i) => {
                if password.as_str().as_bytes().len() > MAX_PASSWORD_BYTES {
                    return Err(ApiError::InvalidCredentials);
                }
                let hash = hash_password(password.as_str(), self.users[i].salt);
                let user_id = self.users[i].id;
                proof {
                    let v = self@;
                    assert(v.users[i as int].id == user_id);
                    assert(v.has_user(user_id));
                    let j = choose|j: int| 0 <= j < v.users.len() && v.users[j].id == user_id;
                    if j < i {
                        assert(v.users[j].id < v.users[i as int].id);
                    } else if j > i {
                        assert(v.users[i as int].id < v.users[j].id);
                    }
                }
                self.session_for_hash(user_id, &hash)
            },
        }
    }

    /// Registers a user and issues a session to it.
    pub fn create_user(&mut self, name: String, password: String) -> (r: Result<Session, ApiError>)
        requires
            old(self)@.wf(),
        ensures
            final(self)@.wf(),
            signed_up(old(self)@, name@, encode_utf8(password@), r, final(self)@),
    {
        let ghost before = self@;
        let key = name.clone();
        match self.register(name, password) {
            Err(e) => Err(e),
            Ok(user) => {
                let ghost mid = self@;
                proof {
                    let last = mid.users.len() - 1;
                    assert(mid.users[last] == user);
                    assert(mid.has_user_named(key@));
                    let j = choose|j: int| 0 <= j < mid.users.len() && mid.users[j].name@ == key@;
                    if j < last {
                        assert(before.users[j] == mid.users[j]);
                        assert(before.has_user_named(key@));
                    }
                }
                self.issue_for_new_user(&key)
            },
        }
    }

    /// The session that holds `token`; `Unauthorized` when none does.
    pub fn session_for_token(&self, token: u128) -> (r: Result<Session, ApiError>)
        requires
            self@.wf(),
        ensures
            match self@.session_with_token(token) {
                Some(s) => r == Ok::<Session, ApiError>(s),
                None => r == Err::<Session, ApiError>(ApiError::Unauthorized),
            },
    {
        let mut i: usize = 0;
        while i < self.sessions.len()
            invariant
                self@.wf(),
                i <= self.sessions@.len(),
                forall|k: int| 0 <= k < i ==> self.sessions@[k].token != token,
            decreases self.sessions@.len() - i,
        {
            if self.sessions[i].token == token {
                let ghost v = self@;
                proof {
                    assert(v.sessions[i as int].token == token);
                    assert(v.has_token(token));
                    let j = choose|j: int| 0 <= j < v.sessions.len() && v.sessions[j].token == token;
                    assert(j == i);
                }
                return Ok(self.sessions[i]);
            }
            i = i + 1;
        }
        Err(ApiError::Unauthorized)
    }

    /// Resolves an authorization header to its session. The token stands
    /// after the first `TOKEN_OFFSET` bytes; a missing header, one too short
    /// or cut inside a character, a token that is no UUID and one that no
    /// session holds all give `Unauthorized`.
    pub fn validate(&self, header: Option<&str>) -> (r: Result<Session, ApiError>)
        requires
            self@.wf(),
        ensures
            r == self@.resolve(header_bytes(header)),
    {
        match header {
            None => Err(ApiError::Unauthorized),
            Some(h) => {
                if !h.is_char_boundary(TOKEN_OFFSET) {
                    return Err(ApiError::Unauthorized);
                }
                let (_, rest) = h.split_at(TOKEN_OFFSET);
                match parse_uuid(rest) {
                    None => Err(ApiError::Unauthorized),
                    Some(token) => self.session_for_token(token),
                }
            },
        }
    }

    /// The position of the schedule with that id.
    fn find_schedule(&self, id: u64) -> (r: Option<usize>)
        requires
            self@.wf(),
        ensures
            match r {
                Some(i) => self@.has_schedule(id) && i == self@.schedule_index(id),
                None => !self@.has_schedule(id),
            },
    {
        let mut i: usize = 0;
        while i < self.schedules.len()
            invariant
                self@.wf(),
                i <= self.schedules@.len(),
                forall|k: int| 0 <= k < i ==> self.schedules@[k].id != id,
            decreases self.schedules@.len() - i,
        {
            if self.schedules[i].id == id {
                let ghost v = self@;
                proof {
                    assert(v.schedules[i as int].id == id);
                    assert(v.has_schedule(id));
                    let j = v.schedule_index(id);
                    if j < i {
                        assert(v.schedules[j].id < v.schedules[i as int].id);
                    } else if j > i {
                        assert(v.schedules[i as int].id < v.schedules[j].id);
                    }
                }
                return Some(i);
            }
            i = i + 1;
        }
        None
    }

    /// Adds a schedule owned by `user_id`. The color id is taken as it is.
    pub fn insert_schedule(
        &mut self,
        user_id: u64,
        color_id: [u8; 12],
        name: String,
        description: String,
        start_time: i64,
        end_time: i64,
    ) -> (r: Result<Schedule, ApiError>)
        requires
            old(self)@.wf(),
        ensures
            final(self)@.wf(),
            added_schedule(
                old(self)@,
                user_id,
                color_id,
                name@,
                description@,
                start_time,
                end_time,
                r,
                final(self)@,
            ),
    {
        if self.next_id == u64::MAX {
            return Err(ApiError::StoreUnavailable);
        }
        let schedule = Schedule {
            id: self.next_id,
            user_id,
            color_id,
            name,
            description,
            start_time,
            end_time,
        };
        let result = schedule.duplicate();
        let ghost v = self@;
        self.schedules.push(schedule);
        self.next_id = self.next_id + 1;
        proof {
            assert(self@ == v.with_schedule(result));
            lemma_sessions_keep_users(v, self@);
        }
        Ok(result)
    }

    /// The schedules of `user_id` whose start time lies in `[start, end]`.
    /// Only the start time is compared with both ends of the window.
    pub fn list_schedules(&self, user_id: u64, start: i64, end: i64) -> (r: Vec<Schedule>)
        requires
            self@.wf(),
        ensures
            r@ == self@.listed(user_id, start, end),
    {
        let ghost pred = in_window(user_id, start, end);
        let mut out: Vec<Schedule> = Vec::new();
        let mut i: usize = 0;
        while i < self.schedules.len()
            invariant
                i <= self.schedules@.len(),
                pred == in_window(user_id, start, end),
                out@ == self.schedules@.subrange(0, i as int).filter(pred),
            decreases self.schedules@.len() - i,
        {
            let ghost before = self.schedules@.subrange(0, i as int);
            let s = &self.schedules[i];
            proof {
                let after = self.schedules@.subrange(0, i + 1);
                assert(after.drop_last() == before);
                assert(after.last() == *s);
                reveal(Seq::filter);
            }
            if s.user_id == user_id && start <= s.start_time && s.start_time <= end {
                out.push(s.duplicate());
            }
            i = i + 1;
        }
        proof {
            assert(self.schedules@.subrange(0, self.schedules@.len() as int) == self.schedules@);
        }
        out
    }

    /// The schedule `id`, if `user_id` owns it; `NotFound` otherwise.
    pub fn get_owned_schedule(&self, user_id: u64, id: u64) -> (r: Result<Schedule, ApiError>)
        requires
            self@.wf(),
        ensures
            match self@.owned_schedule(user_id, id) {
                Some(s) => r == Ok::<Schedule, ApiError>(s),
                None => r == Err::<Schedule, ApiError>(ApiError::NotFound),
            },
    {
        match self.find_schedule(id) {
            None => Err(ApiError::NotFound),
            Some(i) => {
                if self.schedules[i].user_id != user_id {
                    return Err(ApiError::NotFound);
                }
                Ok(self.schedules[i].duplicate())
            },
        }
    }

    /// Replaces the name, description and times of schedule `id` when
    /// `user_id` owns it, in one step; `NotFound` leaves the store as it was.
    pub fn modify_schedule(
        &mut self,
        user_id: u64,
        id: u64,
        name: String,
        description: String,
        start_time: i64,
        end_time: i64,
    ) -> (r: Result<Schedule, ApiError>)
        requires
            old(self)@.wf(),
        ensures
            final(self)@.wf(),
            edited(
                old(self)@,
                user_id,
                id,
                name@,
                description@,
                start_time,
                end_time,
                r,
                final(self)@,
            ),
    {
        match self.find_schedule(id) {
            None => Err(ApiError::NotFound),
            Some(i) => {
                if self.schedules[i].user_id != user_id {
                    return Err(ApiError::NotFound);
                }
                let before = &self.schedules[i];
                let after = Schedule {
                    id: before.id,
                    user_id: before.user_id,
                    color_id: before.color_id,
                    name,
                    description,
                    start_time,
                    end_time,
                };
                let result = after.duplicate();
                let ghost v = self@;
                self.schedules.set(i, after);
                proof {
                    assert(self@ == StoreView { schedules: v.schedules.update(i as int, result), ..v });
                    lemma_sessions_keep_users(v, self@);
                }
                Ok(result)
            },
        }
    }

    /// Adds a color tag, shared by all users.
    pub fn insert_color(&mut self, name: String, color: String) -> (r: Result<ScheduleColor, ApiError>)
        requires
            old(self)@.wf(),
        ensures
            final(self)@.wf(),
            added_color(old(self)@, name@, color@, r, final(self)@),
    {
        if self.next_id == u64::MAX {
            return Err(ApiError::StoreUnavailable);
        }
        let c = ScheduleColor { id: self.next_id, name, color };
        let result = c.duplicate();
        let ghost v = self@;
        self.colors.push(c);
        self.next_id = self.next_id + 1;
        proof {
            assert(self@ == v.with_color(result));
            lemma_sessions_keep_users(v, self@);
        }
        Ok(result)
    }

    /// All color tags, in the order of creation.
    pub fn list_colors(&self) -> (r: Vec<ScheduleColor>)
        requires
            self@.wf(),
        ensures
            r@ == self@.colors,
    {
        let mut out: Vec<ScheduleColor> = Vec::new();
        let mut i: usize = 0;
        while i < self.colors.len()
            invariant
                i <= self.colors@.len(),
                out@ == self.colors@.subrange(0, i as int),
            decreases self.colors@.len() - i,
        {
            out.push(self.colors[i].duplicate());
            proof {
                assert(self.colors@.subrange(0, i + 1) == self.colors@.subrange(0, i as int).push(self.colors@[i as int]));
            }
            i = i + 1;
        }
        proof {
            assert(self.colors@.subrange(0, self.colors@.len() as int) == self.colors@);
        }
        out
    }

    /// The caller's schedules that start within `[start, end]`.
    pub fn get_schedule(&self, header: Option<&str>, start: i64, end: i64) -> (r: Result<
        Vec<Schedule>,
        ApiError,
    >)
        requires
            self@.wf(),
        ensures
            match self@.resolve(header_bytes(header)) {
                Err(e) => r == Err::<Vec<Schedule>, ApiError>(e),
                Ok(s) => r is Ok && r->Ok_0@ == self@.listed(s.user_id, start, end),
            },
    {
        let session = match self.validate(header) {
            Err(e) => return Err(e),
            Ok(s) => s,
        };
        Ok(self.list_schedules(session.user_id, start, end))
    }

    /// The caller's schedule `id`; `NotFound` when it is missing or another
    /// user's.
    pub fn get_schedule_detail(&self, header: Option<&str>, id: u64) -> (r: Result<
        Schedule,
        ApiError,
    >)
        requires
            self@.wf(),
        ensures
            match self@.resolve(header_bytes(header)) {
                Err(e) => r == Err::<Schedule, ApiError>(e),
                Ok(s) => match self@.owned_schedule(s.user_id, id) {
                    Some(x) => r == Ok::<Schedule, ApiError>(x),
                    None => r == Err::<Schedule, ApiError>(ApiError::NotFound),
                },
            },
    {
        let session = match self.validate(header) {
            Err(e) => return Err(e),
            Ok(s) => s,
        };
        self.get_owned_schedule(session.user_id, id)
    }

    /// Adds a schedule owned by the caller.
    pub fn create_schedule(
        &mut self,
        header: Option<&str>,
        color_id: [u8; 12],
        name: String,
        description: String,
        start_time: i64,
        end_time: i64,
    ) -> (r: Result<Schedule, ApiError>)
        requires
            old(self)@.wf(),
        ensures
            final(self)@.wf(),
            match old(self)@.resolve(header_bytes(header)) {
                Err(e) => r == Err::<Schedule, ApiError>(e) && final(self)@ == old(self)@,
                Ok(s) => added_schedule(
                    old(self)@,
                    s.user_id,
                    color_id,
                    name@,
                    description@,
                    start_time,
                    end_time,
                    r,
                    final(self)@,
                ),
            },
    {
        let session = match self.validate(header) {
            Err(e) => return Err(e),
            Ok(s) => s,
        };
        self.insert_schedule(session.user_id, color_id, name, description, start_time, end_time)
    }

    /// Edits the caller's schedule `id`.
    pub fn update_schedule(
        &mut self,
        header: Option<&str>,
        id: u64,
        name: String,
        description: String,
        start_time: i64,
        end_time: i64,
    ) -> (r: Result<Schedule, ApiError>)
        requires
            old(self)@.wf(),
        ensures
            final(self)@.wf(),
            match old(self)@.resolve(header_bytes(header)) {
                Err(e) => r == Err::<Schedule, ApiError>(e) && final(self)@ == old(self)@,
                Ok(s) => edited(
                    old(self)@,
                    s.user_id,
                    id,
                    name@,
                    description@,
                    start_time,
                    end_time,
                    r,
                    final(self)@,
                ),
            },
    {
        let session = match self.validate(header) {
            Err(e) => return Err(e),
            Ok(s) => s,
        };
        self.modify_schedule(session.user_id, id, name, description, start_time, end_time)
    }

    /// All color tags, for any caller with a valid session.
    pub fn get_schedule_color(&self, header: Option<&str>) -> (r: Result<
        Vec<ScheduleColor>,
        ApiError,
    >)
        requires
            self@.wf(),
        ensures
            match self@.resolve(header_bytes(header)) {
                Err(e) => r == Err::<Vec<ScheduleColor>, ApiError>(e),
                Ok(_) => r is Ok && r->Ok_0@ == self@.colors,
            },
    {
        if let Err(e) = self.validate(header) {
            return Err(e);
        }
        Ok(self.list_colors())
    }

    /// Adds a color tag on behalf of any caller with a valid session.
    pub fn create_schedule_color(
        &mut self,
        header: Option<&str>,
        name: String,
        color: String,
    ) -> (r: Result<ScheduleColor, ApiError>)
        requires
            old(self)@.wf(),
        ensures
            final(self)@.wf(),
            match old(self)@.resolve(header_bytes(header)) {
                Err(e) => r == Err::<ScheduleColor, ApiError>(e) && final(self)@ == old(self)@,
                Ok(_) => added_color(old(self)@, name@, color@, r, final(self)@),
            },
    {
        if let Err(e) = self.validate(header) {
            return Err(e);
        }
        self.insert_color(name, color)
    }
}

} // verus!
