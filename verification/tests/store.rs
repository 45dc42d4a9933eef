//! Tests for the bounded note store, the storage facade, the token service
//! and the controllers.

use nordnotes::controllers::{
    controller_create_note, controller_delete_notes, controller_get_note, controller_list_notes,
    controller_login,
};
use nordnotes::entities::{NoteEntity, UserEntity};
use nordnotes::params::{CreateNoteParams, LoginParams};
use nordnotes::repositories::NotesRepository;
use nordnotes::storage::{load_users, Storage, KEYSPACE, QUERY_CREATE_KEYSPACE};

fn past_note(title: &str) -> NoteEntity {
    let mut note = NoteEntity::new(title, "content", "1h");
    note.expires_at = Some("2000-01-01T00:00:00".to_string());
    note
}

#[test]
fn test_queries() {
    assert_eq!(
        "CREATE KEYSPACE IF NOT EXISTS nordnotes WITH REPLICATION = {'class' : 'SimpleStrategy', 'replication_factor' : 1}",
        QUERY_CREATE_KEYSPACE
    )
}

#[test]
fn test_keyspace_name() {
    assert_eq!("nordnotes", KEYSPACE);
}

#[test]
fn test_eviction_at_capacity() {
    let mut storage = Storage::new(Vec::new());
    let first_id = storage.create_note("note 1", "content", "").unwrap();
    let mut last_id = String::new();
    for i in 2..=21 {
        let title = format!("note {}", i);
        last_id = storage.create_note(&title, "content", "").unwrap();
    }
    let held = storage.get_notes().unwrap();
    assert_eq!(20, held.len());
    assert!(held.iter().all(|n| n.note_id != first_id));
    assert!(held.iter().any(|n| n.note_id == last_id));
    assert!(storage.get_note(&first_id).is_err());
    assert_eq!("note 21", storage.get_note(&last_id).unwrap().title);
    // the second-inserted note survived the single eviction
    assert_eq!("note 2", held[0].title);
}

#[test]
fn test_expired_notes_invisible_but_deletable() {
    let mut repository = NotesRepository::new();
    let expired = past_note("old");
    let expired_id = expired.note_id.clone();
    repository.add(expired).unwrap();
    let fresh = NoteEntity::new("fresh", "content", "4h");
    let fresh_id = fresh.note_id.clone();
    repository.add(fresh).unwrap();
    let listed = repository.list().unwrap();
    assert_eq!(1, listed.len());
    assert_eq!("fresh", listed[0].title);
    assert!(repository.find(&expired_id).is_err());
    assert_eq!(
        format!("note not found, id = {}", expired_id),
        repository.find(&expired_id).unwrap_err().details()
    );
    assert_eq!("fresh", repository.find(&fresh_id).unwrap().title);
    // delete-all removes expired notes physically, visible or not
    repository.delete_all().unwrap();
    assert_eq!(0, repository.list().unwrap().len());
}

#[test]
fn test_delete_all_notes_is_idempotent() {
    let mut storage = Storage::new(Vec::new());
    storage.create_note("a", "b", "2h").unwrap();
    storage.create_note("c", "d", "").unwrap();
    assert!(storage.delete_notes().is_ok());
    assert_eq!(0, storage.get_notes().unwrap().len());
    assert!(storage.delete_notes().is_ok());
    assert_eq!(0, storage.get_notes().unwrap().len());
}

#[test]
fn test_token_round_trip() {
    let users = vec![UserEntity::new("admin", "nimda"), UserEntity::new("alice", "secret")];
    let mut storage = Storage::new(users);
    let token = storage.get_token("alice", "secret").unwrap();
    assert_eq!(36, token.len());
    assert!(storage.check_token(&token));
    assert_eq!(None, storage.get_token("alice", "wrong"));
    assert_eq!(None, storage.get_token("nobody", "secret"));
    assert!(!storage.check_token("never-issued"));
}

#[test]
fn test_load_users_skips_malformed_lines() {
    let content = "admin:nimda\nmalformed line\nalice:s:crt\nbob:\n\n:empty\r\n";
    let users = load_users(content);
    assert_eq!(4, users.len());
    assert_eq!(("admin", "nimda"), (users[0].login.as_str(), users[0].password.as_str()));
    // only what stands between the first and the second colon is the password
    assert_eq!(("alice", "s"), (users[1].login.as_str(), users[1].password.as_str()));
    assert_eq!(("bob", ""), (users[2].login.as_str(), users[2].password.as_str()));
    assert_eq!(("", "empty"), (users[3].login.as_str(), users[3].password.as_str()));
    assert!(users.iter().all(|u| u.token.is_none() && u.user_id.len() == 36));
}

#[test]
fn test_load_users_empty_content() {
    assert_eq!(0, load_users("").len());
    assert_eq!(0, load_users("no colon here\nnor here").len());
}

#[test]
fn test_controller_note_round_trip() {
    let mut storage = Storage::new(Vec::new());
    let params = CreateNoteParams {
        title: Some("shopping".to_string()),
        content: Some("milk".to_string()),
        ttl: Some("2h".to_string()),
    };
    let created = controller_create_note(params, &mut storage).unwrap();
    assert_eq!(36, created.note_id.len());
    assert_eq!(None, created.title);
    assert_eq!(None, created.content);
    let fetched = controller_get_note(created.note_id.clone(), &storage).unwrap();
    assert_eq!(created.note_id, fetched.note_id);
    assert_eq!(Some("shopping".to_string()), fetched.title);
    assert_eq!(Some("milk".to_string()), fetched.content);
    let listed = controller_list_notes(&storage).unwrap();
    assert_eq!(1, listed.len());
    assert_eq!(Some("shopping".to_string()), listed[0].title);
    assert_eq!(None, listed[0].content);
    let missing = controller_get_note("no-such-id".to_string(), &storage).unwrap_err();
    assert_eq!("note not found, id = no-such-id", missing.details());
    let confirmation = controller_delete_notes(&mut storage).unwrap();
    assert_eq!("all notes deleted", confirmation);
    assert_eq!(0, controller_list_notes(&storage).unwrap().len());
}

#[test]
fn test_controller_create_note_requires_attributes() {
    let mut storage = Storage::new(Vec::new());
    let no_title = CreateNoteParams { title: None, content: Some("c".to_string()), ttl: None };
    assert_eq!(
        "required attribute not specified, name = title",
        controller_create_note(no_title, &mut storage).unwrap_err().details()
    );
    assert_eq!(0, controller_list_notes(&storage).unwrap().len());
}

#[test]
fn test_controller_login() {
    let mut storage = Storage::new(load_users("admin:nimda"));
    let params = LoginParams { login: Some("admin".to_string()), password: Some("nimda".to_string()) };
    let dto = controller_login(params, &mut storage).unwrap();
    assert_eq!(36, dto.token.len());
    assert!(storage.check_token(&dto.token));
    let bad = LoginParams { login: Some("admin".to_string()), password: Some("wrong".to_string()) };
    assert_eq!(
        "invalid login or password",
        controller_login(bad, &mut storage).unwrap_err().details()
    );
    let missing = LoginParams { login: None, password: None };
    assert_eq!(
        "required attribute not specified, name = login",
        controller_login(missing, &mut storage).unwrap_err().details()
    );
}

// 2000-01-01T00:00:00 UTC as unix seconds.
const Y2K: i64 = 946684800;

#[test]
fn test_visibility_at_chosen_instant() {
    let mut repository = NotesRepository::new();
    let mut note = NoteEntity::new("dated", "content", "");
    note.expires_at = Some("2000-01-01T00:01:00".to_string());
    let id = note.note_id.clone();
    repository.add(note).unwrap();
    // one minute before the deadline the note is listed and found
    assert_eq!(1, repository.list_at(Y2K).len());
    assert!(repository.find_at(&id, Y2K).is_ok());
    // one second past the deadline it is neither listed nor found
    assert_eq!(0, repository.list_at(Y2K + 61).len());
    assert!(repository.find_at(&id, Y2K + 61).is_err());
}
