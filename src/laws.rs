//! Properties that hold across several operations of the store, stated over
//! the predicates that the operations' own contracts establish.
use vstd::prelude::*;
use vstd::utf8::{
    encode_scalar, encode_utf8, encode_utf8_first_scalar, encode_utf8_valid_utf8, is_ascii_chars,
    is_ascii_chars_encode_utf8, is_char_boundary, pop_first_scalar,
};

use crate::external::{
    argon2_encoded_of, hex_char, hex_digit_value, hex_text, is_object_id_text, object_id_bytes, uuid_of,
};
use crate::records::{ApiError, Schedule, ScheduleColor, Session, User};
use crate::store::{
    added_color, added_schedule, authenticated, edited, in_window, issued, registered, revised,
    StoreView, TOKEN_OFFSET,
};
use crate::wire::{id_bytes, id_text, id_value};

verus! {

/// Registering a user and then signing in with the same name and password
/// never fails on the credentials, and a session that it yields belongs to
/// the registered user. While no session exists and ids remain, the sign-in
/// succeeds.
pub proof fn lemma_sign_in_after_register(
    s0: StoreView,
    s1: StoreView,
    s2: StoreView,
    name: Seq<char>,
    password: Seq<u8>,
    user: User,
    r: Result<Session, ApiError>,
)
    requires
        s0.wf(),
        registered(s0, name, password, Ok(user), s1),
        authenticated(s1, name, password, r, s2),
    ensures
        r != Err::<Session, ApiError>(ApiError::InvalidCredentials),
        r is Ok ==> r->Ok_0.user_id == user.id,
        s1.sessions.len() == 0 && s1.next_id < u64::MAX ==> r is Ok,
{
    let last = s1.users.len() - 1;
    assert(s1.users[last] == user);
    assert(s1.has_user_named(name));
    let j = choose|j: int| 0 <= j < s1.users.len() && s1.users[j].name@ == name;
    if j < last {
        assert(s0.users[j] == s1.users[j]);
        assert(s0.has_user_named(name));
    }
    assert(s1.user_named(name) == Some(user));
}

/// Signing in with a password other than the registered one, whose hash
/// under the user's salt therefore differs from the stored hash, yields
/// `InvalidCredentials` and leaves the store unchanged.
pub proof fn lemma_wrong_password_rejected(
    s0: StoreView,
    s1: StoreView,
    s2: StoreView,
    name: Seq<char>,
    password: Seq<u8>,
    wrong: Seq<u8>,
    user: User,
    r: Result<Session, ApiError>,
)
    requires
        s0.wf(),
        registered(s0, name, password, Ok(user), s1),
        argon2_encoded_of(wrong, user.salt) != argon2_encoded_of(password, user.salt),
        authenticated(s1, name, wrong, r, s2),
    ensures
        r == Err::<Session, ApiError>(ApiError::InvalidCredentials),
        s2 == s1,
{
    let last = s1.users.len() - 1;
    assert(s1.users[last] == user);
    assert(s1.has_user_named(name));
    let j = choose|j: int| 0 <= j < s1.users.len() && s1.users[j].name@ == name;
    if j < last {
        assert(s0.users[j] == s1.users[j]);
        assert(s0.has_user_named(name));
    }
    assert(s1.user_named(name) == Some(user));
}

/// A header that carries a token just issued resolves to the session that
/// was issued, and so to the user it was issued to.
pub proof fn lemma_issued_token_resolves(
    s0: StoreView,
    s1: StoreView,
    user_id: u64,
    r: Result<Session, ApiError>,
    header: Seq<u8>,
)
    requires
        s0.wf(),
        issued(s0, user_id, r, s1),
        r is Ok,
        is_char_boundary(header, TOKEN_OFFSET as int),
        uuid_of(header.subrange(TOKEN_OFFSET as int, header.len() as int)) == Some(r->Ok_0.token),
    ensures
        s1.resolve(Some(header)) == r,
        r->Ok_0.user_id == user_id,
{
    let s = r->Ok_0;
    let last = s1.sessions.len() - 1;
    assert(s1.sessions[last] == s);
    assert(s1.has_token(s.token));
    let j = choose|j: int| 0 <= j < s1.sessions.len() && s1.sessions[j].token == s.token;
    if j < last {
        assert(s0.sessions[j] == s1.sessions[j]);
        assert(s0.has_token(s.token));
    }
    assert(s1.session_with_token(s.token) == Some(s));
}

/// Encoding a concatenation of characters encodes its parts one after the
/// other.
proof fn lemma_encode_concat(a: Seq<char>, b: Seq<char>)
    ensures
        encode_utf8(a + b) == encode_utf8(a) + encode_utf8(b),
    decreases a.len(),
{
    if a.len() == 0 {
        assert(a + b == b);
        assert(encode_utf8(a) + encode_utf8(b) == encode_utf8(b));
    } else {
        assert((a + b)[0] == a[0]);
        assert((a + b).drop_first() == a.drop_first() + b);
        lemma_encode_concat(a.drop_first(), b);
        let e = encode_scalar(a[0] as u32);
        assert(encode_utf8(a + b) == e + encode_utf8(a.drop_first() + b));
        assert(encode_utf8(a) == e + encode_utf8(a.drop_first()));
        assert(encode_utf8(a + b) =~= encode_utf8(a) + encode_utf8(b));
    }
}

/// The encoding of `a + b` has a character boundary where the encoding of
/// `a` ends.
proof fn lemma_encode_boundary(a: Seq<char>, b: Seq<char>)
    ensures
        is_char_boundary(encode_utf8(a + b), encode_utf8(a).len() as int),
    decreases a.len(),
{
    encode_utf8_valid_utf8(a + b);
    if a.len() > 0 {
        let bytes = encode_utf8(a + b);
        assert((a + b)[0] == a[0]);
        assert((a + b).drop_first() == a.drop_first() + b);
        encode_utf8_first_scalar(a + b);
        assert(pop_first_scalar(bytes) =~= encode_utf8(a.drop_first() + b));
        lemma_encode_boundary(a.drop_first(), b);
        lemma_encode_concat(a, b);
        let e = encode_scalar(a[0] as u32);
        assert(e.len() > 0);
        assert(encode_utf8(a) == e + encode_utf8(a.drop_first()));
    }
}

/// The token text of a session just issued, sent after a scheme of
/// `TOKEN_OFFSET` bytes (such as `"Bearer "`), resolves to that session.
pub proof fn lemma_token_text_resolves(
    s0: StoreView,
    s1: StoreView,
    user_id: u64,
    r: Result<Session, ApiError>,
    scheme: Seq<char>,
    text: Seq<char>,
)
    requires
        s0.wf(),
        issued(s0, user_id, r, s1),
        r is Ok,
        encode_utf8(scheme).len() == TOKEN_OFFSET,
        uuid_of(encode_utf8(text)) == Some(r->Ok_0.token),
    ensures
        s1.resolve(Some(encode_utf8(scheme + text))) == r,
        r->Ok_0.user_id == user_id,
{
    lemma_encode_concat(scheme, text);
    lemma_encode_boundary(scheme, text);
    let h = encode_utf8(scheme + text);
    assert(h.subrange(TOKEN_OFFSET as int, h.len() as int) == encode_utf8(text));
    lemma_issued_token_resolves(s0, s1, user_id, r, h);
}

/// A missing header, one whose token does not start at a character boundary
/// after the scheme, one whose token is no UUID, and one whose token no
/// session holds all resolve to `Unauthorized`.
pub proof fn lemma_unknown_token_rejected(s: StoreView, header: Option<Seq<u8>>)
    requires
        match header {
            None => true,
            Some(h) => !is_char_boundary(h, TOKEN_OFFSET as int) || match uuid_of(
                h.subrange(TOKEN_OFFSET as int, h.len() as int),
            ) {
                None => true,
                Some(t) => !s.has_token(t),
            },
        },
    ensures
        s.resolve(header) == Err::<Session, ApiError>(ApiError::Unauthorized),
{
}

/// Filtering a list of schedules whose ids grow keeps the ids growing.
proof fn lemma_filter_ids_increase(xs: Seq<Schedule>, p: spec_fn(Schedule) -> bool)
    requires
        forall|i: int, j: int| 0 <= i < j < xs.len() ==> xs[i].id < xs[j].id,
    ensures
        forall|i: int, j: int|
            0 <= i < j < xs.filter(p).len() ==> xs.filter(p)[i].id < xs.filter(p)[j].id,
    decreases xs.len(),
{
    reveal(Seq::filter);
    if xs.len() > 0 {
        let d = xs.drop_last();
        let fd = d.filter(p);
        lemma_filter_ids_increase(d, p);
        assert forall|k: int| 0 <= k < fd.len() implies fd[k].id < xs.last().id by {
            assert(fd.contains(fd[k]));
            d.lemma_filter_contains_rev(p, fd[k]);
            let m = choose|m: int| 0 <= m < d.len() && d[m] == fd[k];
            assert(xs[m] == d[m]);
        }
    }
}

/// A schedule that user `a` creates is listed for `a` in every window that
/// holds its start time, never twice, and for no other user in any window.
pub proof fn lemma_schedules_isolated(
    s0: StoreView,
    s1: StoreView,
    a: u64,
    b: u64,
    color_id: [u8; 12],
    name: Seq<char>,
    description: Seq<char>,
    start_time: i64,
    end_time: i64,
    r: Result<Schedule, ApiError>,
    window_start: i64,
    window_end: i64,
)
    requires
        s0.wf(),
        added_schedule(s0, a, color_id, name, description, start_time, end_time, r, s1),
        r is Ok,
        a != b,
    ensures
        window_start <= start_time <= window_end ==> s1.listed(a, window_start, window_end).contains(
            r->Ok_0,
        ),
        !s1.listed(b, window_start, window_end).contains(r->Ok_0),
        forall|i: int, j: int|
            0 <= i < s1.listed(a, window_start, window_end).len() && 0 <= j < s1.listed(
                a,
                window_start,
                window_end,
            ).len() && s1.listed(a, window_start, window_end)[i].id == r->Ok_0.id && s1.listed(
                a,
                window_start,
                window_end,
            )[j].id == r->Ok_0.id ==> i == j,
{
    assert forall|i: int, j: int| 0 <= i < j < s1.schedules.len() implies s1.schedules[i].id
        < s1.schedules[j].id by {
        if j < s1.schedules.len() - 1 {
            assert(s1.schedules[i] == s0.schedules[i] && s1.schedules[j] == s0.schedules[j]);
        } else {
            assert(s1.schedules[i] == s0.schedules[i]);
        }
    }
    lemma_filter_ids_increase(s1.schedules, in_window(a, window_start, window_end));
    let s = r->Ok_0;
    let last = s1.schedules.len() - 1;
    assert(s1.schedules[last] == s);
    if window_start <= start_time <= window_end {
        s1.schedules.lemma_filter_contains(in_window(a, window_start, window_end), last);
    }
    let listed_b = s1.listed(b, window_start, window_end);
    if listed_b.contains(s) {
        let k = choose|k: int| 0 <= k < listed_b.len() && listed_b[k] == s;
        s1.schedules.lemma_filter_pred(in_window(b, window_start, window_end), k);
    }
}

/// The schedules listed for `user` in `[start, end]` are exactly the stored
/// schedules of `user` whose start time lies in `[start, end]`.
pub proof fn lemma_list_is_window(s: StoreView, user: u64, start: i64, end: i64)
    ensures
        forall|x: Schedule|
            #[trigger] s.listed(user, start, end).contains(x) <==> (s.schedules.contains(x)
                && x.user_id == user && start <= x.start_time <= end),
{
    let p = in_window(user, start, end);
    assert forall|x: Schedule|
        #[trigger] s.listed(user, start, end).contains(x) <==> (s.schedules.contains(x)
            && x.user_id == user && start <= x.start_time <= end) by {
        let l = s.listed(user, start, end);
        if l.contains(x) {
            s.schedules.lemma_filter_contains_rev(p, x);
            let k = choose|k: int| 0 <= k < l.len() && l[k] == x;
            s.schedules.lemma_filter_pred(p, k);
        }
        if s.schedules.contains(x) && x.user_id == user && start <= x.start_time <= end {
            let k = choose|k: int| 0 <= k < s.schedules.len() && s.schedules[k] == x;
            s.schedules.lemma_filter_contains(p, k);
        }
    }
}

/// Editing a schedule that another user owns yields `NotFound` and leaves
/// the store, that schedule included, unchanged.
pub proof fn lemma_foreign_edit_rejected(
    s0: StoreView,
    s1: StoreView,
    user_id: u64,
    id: u64,
    name: Seq<char>,
    description: Seq<char>,
    start_time: i64,
    end_time: i64,
    r: Result<Schedule, ApiError>,
)
    requires
        s0.wf(),
        s0.has_schedule(id),
        s0.schedules[s0.schedule_index(id)].user_id != user_id,
        edited(s0, user_id, id, name, description, start_time, end_time, r, s1),
    ensures
        r == Err::<Schedule, ApiError>(ApiError::NotFound),
        s1 == s0,
{
}

/// Editing one's own schedule returns it with the new name, description and
/// times and its id, owner and color unchanged; it replaces that schedule in
/// place and leaves every other schedule as it was.
pub proof fn lemma_own_edit_applied(
    s0: StoreView,
    s1: StoreView,
    user_id: u64,
    id: u64,
    name: Seq<char>,
    description: Seq<char>,
    start_time: i64,
    end_time: i64,
    r: Result<Schedule, ApiError>,
)
    requires
        s0.wf(),
        s0.has_schedule(id),
        s0.schedules[s0.schedule_index(id)].user_id == user_id,
        edited(s0, user_id, id, name, description, start_time, end_time, r, s1),
    ensures
        r is Ok,
        revised(s0.schedules[s0.schedule_index(id)], r->Ok_0, name, description, start_time, end_time),
        s1.schedules.len() == s0.schedules.len(),
        s1.schedules[s0.schedule_index(id)] == r->Ok_0,
        forall|k: int|
            0 <= k < s0.schedules.len() && s0.schedules[k].id != id ==> s1.schedules[k]
                == s0.schedules[k],
        s1.users == s0.users,
        s1.sessions == s0.sessions,
        s1.colors == s0.colors,
{
}

/// A color that any user adds is among the colors that every caller with a
/// valid session lists.
pub proof fn lemma_colors_shared(
    s0: StoreView,
    s1: StoreView,
    name: Seq<char>,
    color: Seq<char>,
    r: Result<ScheduleColor, ApiError>,
    reader: Option<Seq<u8>>,
)
    requires
        added_color(s0, name, color, r, s1),
        r is Ok,
        s1.resolve(reader) is Ok,
    ensures
        s1.colors.contains(r->Ok_0),
{
    assert(s1.colors[s1.colors.len() - 1] == r->Ok_0);
}

/// A hexadecimal digit written by `hex_char` reads back as its value.
proof fn lemma_hex_digit_round_trip(d: u8)
    requires
        d < 16,
    ensures
        (hex_char(d) as u32) < 128,
        hex_digit_value(hex_char(d) as u8) == Some(d),
{
}

/// The text of a record id is 24 hexadecimal digits that read back as the
/// id's bytes, whose first four are zero and whose last eight hold the id:
/// so `parse_record_id` returns the id that `record_id_text` was given.
pub proof fn lemma_id_text_round_trip(id: u64)
    ensures
        is_object_id_text(encode_utf8(id_text(id))),
        object_id_bytes(encode_utf8(id_text(id))) == id_bytes(id),
        id_bytes(id)[0] == 0 && id_bytes(id)[1] == 0 && id_bytes(id)[2] == 0 && id_bytes(id)[3] == 0,
        id_value(id_bytes(id)) == id,
{
    let b = id_bytes(id);
    let t = id_text(id);
    assert(b.len() == 12);
    assert(t.len() == 24);
    assert forall|i: int| 0 <= i < 24 implies '\0' <= #[trigger] t[i] <= '\u{7f}' && hex_digit_value(
        t[i] as u8,
    ) is Some by {
        if i % 2 == 0 {
            lemma_hex_digit_round_trip(b[i / 2] / 16);
        } else {
            lemma_hex_digit_round_trip(b[i / 2] % 16);
        }
    }
    assert(is_ascii_chars(t));
    is_ascii_chars_encode_utf8(t);
    let e = encode_utf8(t);
    assert forall|i: int| 0 <= i < 24 implies (#[trigger] hex_digit_value(e[i])) is Some by {
        assert(e[i] == t[i] as u8);
    }
    assert forall|i: int| 0 <= i < 12 implies #[trigger] object_id_bytes(e)[i] == b[i] by {
        let hi = b[i] / 16;
        let lo = b[i] % 16;
        lemma_hex_digit_round_trip(hi);
        lemma_hex_digit_round_trip(lo);
        assert(e[2 * i] == t[2 * i] as u8);
        assert(e[2 * i + 1] == t[2 * i + 1] as u8);
        assert((2 * i) % 2 == 0 && (2 * i) / 2 == i);
        assert((2 * i + 1) % 2 == 1 && (2 * i + 1) / 2 == i);
        assert(hi * 16 + lo == b[i]);
    }
    assert(object_id_bytes(e) =~= b);
    let b4 = ((id >> 56u64) & 0xff) as u8;
    let b5 = ((id >> 48u64) & 0xff) as u8;
    let b6 = ((id >> 40u64) & 0xff) as u8;
    let b7 = ((id >> 32u64) & 0xff) as u8;
    let b8 = ((id >> 24u64) & 0xff) as u8;
    let b9 = ((id >> 16u64) & 0xff) as u8;
    let b10 = ((id >> 8u64) & 0xff) as u8;
    let b11 = ((id >> 0u64) & 0xff) as u8;
    assert(b[4] == b4 && b[5] == b5 && b[6] == b6 && b[7] == b7);
    assert(b[8] == b8 && b[9] == b9 && b[10] == b10 && b[11] == b11);
    assert((b4 as u64) << 56u64 | (b5 as u64) << 48u64 | (b6 as u64) << 40u64 | (b7 as u64)
        << 32u64 | (b8 as u64) << 24u64 | (b9 as u64) << 16u64 | (b10 as u64) << 8u64 | (
    b11 as u64) == id) by (bit_vector)
        requires
            b4 == ((id >> 56u64) & 0xff) as u8,
            b5 == ((id >> 48u64) & 0xff) as u8,
            b6 == ((id >> 40u64) & 0xff) as u8,
            b7 == ((id >> 32u64) & 0xff) as u8,
            b8 == ((id >> 24u64) & 0xff) as u8,
            b9 == ((id >> 16u64) & 0xff) as u8,
            b10 == ((id >> 8u64) & 0xff) as u8,
            b11 == ((id >> 0u64) & 0xff) as u8,
    ;
}

} // verus!
