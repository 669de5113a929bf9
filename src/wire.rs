//! Records as they travel in requests and replies: ids as 24 hexadecimal
//! digits (the form of an ObjectId), times as RFC 3339 text, session tokens as
//! hyphenated UUIDs.
use vstd::prelude::*;
use vstd::string::StringSliceAdditionalSpecFns;
use vstd::array::ArrayAdditionalExecFns;
use vstd::utf8::encode_utf8;

use crate::external::{
    format_rfc3339, hex_text, hyphenated, in_rfc3339_range, is_object_id_text, object_id_bytes, object_id_hex,
    parse_object_id, parse_rfc3339, rfc3339_millis_of, rfc3339_text_of, u128_bytes, uuid_of,
    uuid_text,
};
use crate::records::{ApiError, Schedule, ScheduleColor, Session};

verus! {

/// The 12 bytes of the ObjectId that stands for record `id`: four zero bytes,
/// then `id` most significant byte first.
pub open spec fn id_bytes(id: u64) -> Seq<u8> {
    seq![0u8, 0u8, 0u8, 0u8] + Seq::new(8, |i: int| ((id >> ((8 * (7 - i)) as u64)) & 0xff) as u8)
}

/// The record id that the last 8 of 12 bytes hold, most significant first.
pub open spec fn id_value(b: Seq<u8>) -> u64 {
    (b[4] as u64) << 56u64 | (b[5] as u64) << 48u64 | (b[6] as u64) << 40u64 | (b[7] as u64)
        << 32u64 | (b[8] as u64) << 24u64 | (b[9] as u64) << 16u64 | (b[10] as u64) << 8u64 | (
    b[11] as u64)
}

/// The text of a record id.
pub open spec fn id_text(id: u64) -> Seq<char> {
    hex_text(id_bytes(id))
}

/// A session as the sign-up and sign-in replies carry it.
pub struct SessionReply {
    pub session_id: String,
    pub user_id: String,
    pub token: String,
}

/// A schedule as replies carry it.
pub struct ScheduleReply {
    pub id: String,
    pub user_id: String,
    pub color_id: String,
    pub name: String,
    pub description: String,
    pub start_time: String,
    pub end_time: String,
}

/// A color tag as replies carry it.
pub struct ColorReply {
    pub id: String,
    pub name: String,
    pub color: String,
}

/// Whether both times of a schedule have RFC 3339 text.
pub open spec fn has_time_texts(s: Schedule) -> bool {
    rfc3339_text_of(s.start_time) is Some && rfc3339_text_of(s.end_time) is Some
}

/// `x` carries schedule `s`: ids as text, times as RFC 3339 text, the rest as
/// it is.
pub open spec fn renders_schedule(x: ScheduleReply, s: Schedule) -> bool {
    &&& x.id@ == id_text(s.id)
    &&& x.user_id@ == id_text(s.user_id)
    &&& x.color_id@ == hex_text(s.color_id@)
    &&& x.name@ == s.name@
    &&& x.description@ == s.description@
    &&& Some(x.start_time@) == rfc3339_text_of(s.start_time)
    &&& Some(x.end_time@) == rfc3339_text_of(s.end_time)
}

/// The times that `x` carries read back as the times of schedule `s`.
pub open spec fn times_read_back(x: ScheduleReply, s: Schedule) -> bool {
    &&& rfc3339_millis_of(encode_utf8(x.start_time@)) == Some(s.start_time)
    &&& rfc3339_millis_of(encode_utf8(x.end_time@)) == Some(s.end_time)
}

/// The text of record id `id`: 24 lowercase hexadecimal digits.
pub fn record_id_text(id: u64) -> (r: String)
    ensures
        r@ == id_text(id),
{
    let mut bytes: [u8; 12] = [0u8; 12];
    let mut k: u64 = 0;
    while k < 8
        invariant
            k <= 8,
            bytes@.len() == 12,
            forall|j: int| 0 <= j < 4 ==> bytes@[j] == 0,
            forall|j: int| 4 <= j < 4 + k ==> bytes@[j] == id_bytes(id)[j],
        decreases 8 - k,
    {
        let b = ((id >> (8 * (7 - k))) & 0xff) as u8;
        bytes.set((4 + k) as usize, b);
        proof {
            assert(id_bytes(id)[4 + k as int] == b);
        }
        k = k + 1;
    }
    proof {
        assert(bytes@ =~= id_bytes(id));
    }
    object_id_hex(bytes)
}

/// The text of a 12-byte ObjectId: 24 lowercase hexadecimal digits.
pub fn object_key_text(key: [u8; 12]) -> (r: String)
    ensures
        r@ == hex_text(key@),
{
    object_id_hex(key)
}

/// Reads the 12 bytes of an ObjectId from its text; `Validation` when the
/// text is not 24 hexadecimal digits.
pub fn parse_object_key(text: &str) -> (r: Result<[u8; 12], ApiError>)
    ensures
        is_object_id_text(text.spec_bytes()) <==> r is Ok,
        r is Ok ==> r->Ok_0@ == object_id_bytes(text.spec_bytes()),
        !is_object_id_text(text.spec_bytes()) ==> r == Err::<[u8; 12], ApiError>(ApiError::Validation),
{
    match parse_object_id(text) {
        None => Err(ApiError::Validation),
        Some(b) => Ok(b),
    }
}

/// Reads a record id from its text. Text that is not 24 hexadecimal digits
/// gives `Validation`; an ObjectId whose first four bytes are not zero names
/// no record of this store and gives `NotFound`.
pub fn parse_record_id(text: &str) -> (r: Result<u64, ApiError>)
    ensures
        !is_object_id_text(text.spec_bytes()) ==> r == Err::<u64, ApiError>(ApiError::Validation),
        is_object_id_text(text.spec_bytes()) ==> {
            let b = object_id_bytes(text.spec_bytes());
            if b[0] == 0 && b[1] == 0 && b[2] == 0 && b[3] == 0 {
                r == Ok::<u64, ApiError>(id_value(b))
            } else {
                r == Err::<u64, ApiError>(ApiError::NotFound)
            }
        },
{
    let b = match parse_object_id(text) {
        None => return Err(ApiError::Validation),
        Some(b) => b,
    };
    if b[0] != 0 || b[1] != 0 || b[2] != 0 || b[3] != 0 {
        return Err(ApiError::NotFound);
    }
    Ok(
        (b[4] as u64) << 56u64 | (b[5] as u64) << 48u64 | (b[6] as u64) << 40u64 | (b[7] as u64)
            << 32u64 | (b[8] as u64) << 24u64 | (b[9] as u64) << 16u64 | (b[10] as u64) << 8u64
            | (b[11] as u64),
    )
}

/// Reads a time from RFC 3339 text, in milliseconds since the Unix epoch;
/// `Validation` when the text is no such date.
pub fn parse_time(text: &str) -> (r: Result<i64, ApiError>)
    ensures
        match rfc3339_millis_of(text.spec_bytes()) {
            Some(m) => r == Ok::<i64, ApiError>(m),
            None => r == Err::<i64, ApiError>(ApiError::Validation),
        },
{
    match parse_rfc3339(text) {
        Some(m) => Ok(m),
        None => Err(ApiError::Validation),
    }
}

/// The RFC 3339 text of a time; `Validation` when it has none.
pub fn time_text(millis: i64) -> (r: Result<String, ApiError>)
    ensures
        match rfc3339_text_of(millis) {
            Some(t) => r is Ok && r->Ok_0@ == t,
            None => r == Err::<String, ApiError>(ApiError::Validation),
        },
        in_rfc3339_range(millis) ==> r is Ok && rfc3339_millis_of(encode_utf8(r->Ok_0@)) == Some(
            millis,
        ),
{
    match format_rfc3339(millis) {
        Some(t) => Ok(t),
        None => Err(ApiError::Validation),
    }
}

/// The reply to a sign-up or sign-in.
pub fn session_reply(s: &Session) -> (r: SessionReply)
    ensures
        r.session_id@ == id_text(s.id),
        r.user_id@ == id_text(s.user_id),
        r.token@ == hyphenated(hex_text(u128_bytes(s.token))),
        uuid_of(encode_utf8(r.token@)) == Some(s.token),
{
    SessionReply {
        session_id: record_id_text(s.id),
        user_id: record_id_text(s.user_id),
        token: uuid_text(s.token),
    }
}

/// A schedule as a reply carries it; `Validation` when a time has no RFC 3339
/// text.
pub fn schedule_reply(s: &Schedule) -> (r: Result<ScheduleReply, ApiError>)
    ensures
        if has_time_texts(*s) {
            r is Ok && renders_schedule(r->Ok_0, *s)
        } else {
            r == Err::<ScheduleReply, ApiError>(ApiError::Validation)
        },
        in_rfc3339_range(s.start_time) && in_rfc3339_range(s.end_time) ==> r is Ok && times_read_back(
            r->Ok_0,
            *s,
        ),
{
    let start_time = time_text(s.start_time)?;
    let end_time = time_text(s.end_time)?;
    Ok(
        ScheduleReply {
            id: record_id_text(s.id),
            user_id: record_id_text(s.user_id),
            color_id: object_key_text(s.color_id),
            name: s.name.clone(),
            description: s.description.clone(),
            start_time,
            end_time,
        },
    )
}

/// A color tag as a reply carries it.
pub fn color_reply(c: &ScheduleColor) -> (r: ColorReply)
    ensures
        r.id@ == id_text(c.id),
        r.name@ == c.name@,
        r.color@ == c.color@,
{
    ColorReply { id: record_id_text(c.id), name: c.name.clone(), color: c.color.clone() }
}

/// Schedules as a reply carries them, in the same order; `Validation` when a
/// time of any of them has no RFC 3339 text.
pub fn schedule_replies(list: &Vec<Schedule>) -> (r: Result<Vec<ScheduleReply>, ApiError>)
    ensures
        (forall|i: int| 0 <= i < list@.len() ==> #[trigger] has_time_texts(list@[i])) <==> r is Ok,
        r is Ok ==> r->Ok_0@.len() == list@.len() && forall|i: int|
            0 <= i < list@.len() ==> renders_schedule(#[trigger] r->Ok_0@[i], list@[i]),
{
    let mut out: Vec<ScheduleReply> = Vec::new();
    let mut i: usize = 0;
    while i < list.len()
        invariant
            i <= list@.len(),
            out@.len() == i,
            forall|k: int| 0 <= k < i ==> #[trigger] has_time_texts(list@[k]),
            forall|k: int| 0 <= k < i ==> renders_schedule(#[trigger] out@[k], list@[k]),
        decreases list@.len() - i,
    {
        match schedule_reply(&list[i]) {
            Ok(x) => out.push(x),
            Err(e) => {
                proof {
                    assert(!has_time_texts(list@[i as int]));
                }
                return Err(e);
            },
        }
        i = i + 1;
    }
    Ok(out)
}

/// Color tags as a reply carries them, in the same order.
pub fn color_replies(list: &Vec<ScheduleColor>) -> (r: Vec<ColorReply>)
    ensures
        r@.len() == list@.len(),
        forall|i: int|
            0 <= i < list@.len() ==> {
                &&& (#[trigger] r@[i]).id@ == id_text(list@[i].id)
                &&& r@[i].name@ == list@[i].name@
                &&& r@[i].color@ == list@[i].color@
            },
{
    let mut out: Vec<ColorReply> = Vec::new();
    let mut i: usize = 0;
    while i < list.len()
        invariant
            i <= list@.len(),
            out@.len() == i,
            forall|k: int|
                0 <= k < i ==> {
                    &&& (#[trigger] out@[k]).id@ == id_text(list@[k].id)
                    &&& out@[k].name@ == list@[k].name@
                    &&& out@[k].color@ == list@[k].color@
                },
        decreases list@.len() - i,
    {
        out.push(color_reply(&list[i]));
        i = i + 1;
    }
    out
}

} // verus!
