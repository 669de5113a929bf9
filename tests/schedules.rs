use looplan::wire::{parse_object_key, parse_time, record_id_text};
use looplan::{ApiError, Schedule, Store};

fn signed_up(store: &mut Store, name: &str) -> String {
    let s = store.create_user(name.to_string(), "pw".to_string()).unwrap();
    format!("Bearer {}", looplan::wire::session_reply(&s).token)
}

fn color(last: u8) -> [u8; 12] {
    let mut key = [0u8; 12];
    key[11] = last;
    key
}

fn at(text: &str) -> i64 {
    parse_time(text).unwrap()
}

fn add(store: &mut Store, header: &str, name: &str, start: &str) -> Schedule {
    store
        .create_schedule(Some(header), color(7), name.to_string(), "d".to_string(), at(start), at(start) + 3_600_000)
        .unwrap()
}

#[test]
fn schedule_visible_to_owner_only() {
    let mut store = Store::new();
    let a = signed_up(&mut store, "a");
    let b = signed_up(&mut store, "b");
    let s = add(&mut store, &a, "standup", "2024-05-01T09:00:00Z");
    let from = at("2024-05-01T00:00:00Z");
    let to = at("2024-05-02T00:00:00Z");
    let mine = store.get_schedule(Some(a.as_str()), from, to).unwrap();
    assert_eq!(mine.len(), 1);
    assert_eq!(mine[0].id, s.id);
    let theirs = store.get_schedule(Some(b.as_str()), from, to).unwrap();
    assert!(theirs.is_empty());
}

#[test]
fn window_filters_on_start_time() {
    let mut store = Store::new();
    let a = signed_up(&mut store, "a");
    add(&mut store, &a, "nine", "2024-05-01T09:00:00Z");
    let ten = add(&mut store, &a, "ten", "2024-05-01T10:00:00Z");
    add(&mut store, &a, "eleven", "2024-05-01T11:00:00Z");
    let got = store
        .get_schedule(Some(a.as_str()), at("2024-05-01T09:30:00Z"), at("2024-05-01T10:30:00Z"))
        .unwrap();
    assert_eq!(got.len(), 1);
    assert_eq!(got[0].id, ten.id);
    assert_eq!(got[0].name, "ten");
}

#[test]
fn window_bounds_are_inclusive() {
    let mut store = Store::new();
    let a = signed_up(&mut store, "a");
    add(&mut store, &a, "nine", "2024-05-01T09:00:00Z");
    add(&mut store, &a, "eleven", "2024-05-01T11:00:00Z");
    let got = store
        .get_schedule(Some(a.as_str()), at("2024-05-01T09:00:00Z"), at("2024-05-01T11:00:00Z"))
        .unwrap();
    assert_eq!(got.len(), 2);
    let none = store
        .get_schedule(Some(a.as_str()), at("2024-05-01T09:00:00.001Z"), at("2024-05-01T10:59:59Z"))
        .unwrap();
    assert!(none.is_empty());
}

#[test]
fn window_ignores_end_time() {
    let mut store = Store::new();
    let a = signed_up(&mut store, "a");
    add(&mut store, &a, "nine", "2024-05-01T09:00:00Z");
    let got = store
        .get_schedule(Some(a.as_str()), at("2024-05-01T09:30:00Z"), at("2024-05-01T12:00:00Z"))
        .unwrap();
    assert!(got.is_empty());
}

#[test]
fn list_without_session_is_unauthorized() {
    let store = Store::new();
    assert!(matches!(store.get_schedule(None, 0, 10), Err(ApiError::Unauthorized)));
}

#[test]
fn update_of_foreign_schedule_is_not_found() {
    let mut store = Store::new();
    let a = signed_up(&mut store, "a");
    let b = signed_up(&mut store, "b");
    let theirs = add(&mut store, &b, "private", "2024-05-01T09:00:00Z");
    let r = store.update_schedule(Some(a.as_str()), theirs.id, "hijacked".to_string(), "x".to_string(), 0, 1);
    assert_eq!(r.err(), Some(ApiError::NotFound));
    let still = store.get_schedule_detail(Some(b.as_str()), theirs.id).unwrap();
    assert_eq!(still.name, "private");
    assert_eq!(still.start_time, theirs.start_time);
}

#[test]
fn update_of_own_schedule_changes_given_fields() {
    let mut store = Store::new();
    let a = signed_up(&mut store, "a");
    let s = add(&mut store, &a, "old", "2024-05-01T09:00:00Z");
    let u = store
        .update_schedule(Some(a.as_str()), s.id, "new".to_string(), "nd".to_string(), 5, 6)
        .unwrap();
    assert_eq!(u.name, "new");
    assert_eq!(u.description, "nd");
    assert_eq!((u.start_time, u.end_time), (5, 6));
    assert_eq!((u.id, u.user_id, u.color_id), (s.id, s.user_id, s.color_id));
    let back = store.get_schedule_detail(Some(a.as_str()), s.id).unwrap();
    assert_eq!(back.name, "new");
}

#[test]
fn update_of_missing_schedule_is_not_found() {
    let mut store = Store::new();
    let a = signed_up(&mut store, "a");
    let r = store.update_schedule(Some(a.as_str()), 999, "n".to_string(), "d".to_string(), 0, 1);
    assert_eq!(r.err(), Some(ApiError::NotFound));
}

#[test]
fn detail_of_foreign_schedule_is_not_found() {
    let mut store = Store::new();
    let a = signed_up(&mut store, "a");
    let b = signed_up(&mut store, "b");
    let theirs = add(&mut store, &b, "private", "2024-05-01T09:00:00Z");
    assert_eq!(store.get_schedule_detail(Some(a.as_str()), theirs.id).err(), Some(ApiError::NotFound));
}

#[test]
fn created_schedule_keeps_given_fields() {
    let mut store = Store::new();
    let a = signed_up(&mut store, "a");
    let s = store
        .create_schedule(Some(a.as_str()), color(42), "n".to_string(), "d".to_string(), 100, 50)
        .unwrap();
    assert_eq!((s.color_id, s.start_time, s.end_time), (color(42), 100, 50));
    assert_eq!(s.user_id, store.validate(Some(a.as_str())).unwrap().user_id);
    assert_ne!(record_id_text(s.id), record_id_text(s.user_id));
}

#[test]
fn color_visible_to_every_user() {
    let mut store = Store::new();
    let a = signed_up(&mut store, "a");
    let b = signed_up(&mut store, "b");
    let c = store
        .create_schedule_color(Some(a.as_str()), "work".to_string(), "#ff0000".to_string())
        .unwrap();
    let seen = store.get_schedule_color(Some(b.as_str())).unwrap();
    assert_eq!(seen.len(), 1);
    assert_eq!(seen[0].id, c.id);
    assert_eq!(seen[0].color, "#ff0000");
    assert_eq!(store.get_schedule_color(None).err(), Some(ApiError::Unauthorized));
}

#[test]
fn color_creation_needs_session() {
    let mut store = Store::new();
    let r = store.create_schedule_color(Some("Bearer x"), "n".to_string(), "c".to_string());
    assert_eq!(r.err(), Some(ApiError::Unauthorized));
    assert!(store.list_colors().is_empty());
}

#[test]
fn any_object_id_is_accepted_as_color() {
    let mut store = Store::new();
    let a = signed_up(&mut store, "a");
    let key = parse_object_key("650e8400e29b41d4a7164466").unwrap();
    let s = store
        .create_schedule(Some(a.as_str()), key, "n".to_string(), "d".to_string(), 0, 1)
        .unwrap();
    let reply = looplan::wire::schedule_reply(&s).ok().unwrap();
    assert_eq!(reply.color_id, "650e8400e29b41d4a7164466");
}
