//! Tests for the leaf components: identifier generation, time-to-live
//! parsing, timestamp rendering, entities and input validation.

use nordnotes::entities::role::RoleEntity;
use nordnotes::entities::{Entity, NoteEntity, UserEntity};
use nordnotes::errors::{
    err_creating_note_failed, err_creating_role_failed, err_endpoint_not_found,
    err_entity_not_found, err_invalid_login_or_password, err_not_authorized, err_note_not_found,
    err_required_attribute_not_specified,
};
use nordnotes::notes::Note;
use nordnotes::params::{CreateNoteParams, CreateRoleParams, LoginParams};
use nordnotes::users::User;
use nordnotes::utils::{create_and_expiration_date_time, ttl_to_minutes, uuid};

#[test]
fn test_uuid() {
    assert_eq!(36, uuid().len());
}

#[test]
fn test_ttl_to_minutes() {
    assert_eq!(2 * 7 * 24 * 60, ttl_to_minutes("2w").unwrap());
    assert_eq!(18 * 24 * 60, ttl_to_minutes("18d").unwrap());
    assert_eq!(56 * 60, ttl_to_minutes("56h").unwrap());
    assert_eq!(276, ttl_to_minutes("276m").unwrap());
    assert_eq!(1, ttl_to_minutes("1m").unwrap());
    assert_eq!(None, ttl_to_minutes("1y"));
    assert_eq!(None, ttl_to_minutes("1"));
    assert_eq!(None, ttl_to_minutes(""));
}

#[test]
fn test_create_and_expiration_date_time() {
    let now = time::OffsetDateTime::now_utc();
    let created_at = format!(
        "{:04}-{:02}-{:02}T{:02}:{:02}:00",
        now.year(),
        now.month() as u8,
        now.day(),
        now.hour(),
        now.minute()
    );
    let expires_at = format!(
        "{:04}-{:02}-{:02}T{:02}:{:02}:00",
        now.year(),
        now.month() as u8,
        now.day(),
        now.hour() + 2,
        now.minute()
    );
    assert_eq!((created_at, Some(expires_at)), create_and_expiration_date_time("2h"))
}

#[test]
fn test_ttl_signs_and_overflow() {
    assert_eq!(Some(10080), ttl_to_minutes("+1w"));
    assert_eq!(Some(-1440), ttl_to_minutes("-1d"));
    assert_eq!(Some(0), ttl_to_minutes("0m"));
    assert_eq!(Some(0), ttl_to_minutes("-0m"));
    assert_eq!(None, ttl_to_minutes("m"));
    assert_eq!(None, ttl_to_minutes("+w"));
    assert_eq!(None, ttl_to_minutes("1 m"));
    assert_eq!(None, ttl_to_minutes("12x"));
    // the prefix itself leaves the range of i64
    assert_eq!(None, ttl_to_minutes("9223372036854775808m"));
    assert_eq!(Some(i64::MAX), ttl_to_minutes("9223372036854775807m"));
    assert_eq!(Some(i64::MIN), ttl_to_minutes("-9223372036854775808m"));
    // the prefix fits, the product does not
    assert_eq!(None, ttl_to_minutes("9223372036854775807w"));
    // leading zeros are digits all the same
    assert_eq!(Some(60), ttl_to_minutes("0001h"));
}

#[test]
fn test_no_ttl_means_no_expiration() {
    let (created_at, expires_at) = create_and_expiration_date_time("");
    assert_eq!(19, created_at.len());
    assert_eq!(None, expires_at);
}

#[test]
fn test_create() {
    let role = RoleEntity::new("admin");
    assert_eq!(36, role.id().len());
    assert_eq!("ADMIN", role.name());
}

#[test]
fn test_note_with_zero_ttl_expires_immediately() {
    let note = NoteEntity::new("t", "c", "0m");
    assert_eq!(Some(note.created_at.clone()), note.expires_at);
}

#[test]
fn test_note_without_ttl_never_expires() {
    let note = NoteEntity::new("t", "c", "");
    assert_eq!(None, note.expires_at);
    assert!(!note.has_expired());
}

#[test]
fn test_note_expiry_in_past_and_future() {
    let mut note = NoteEntity::new("t", "c", "1h");
    assert!(!note.has_expired());
    note.expires_at = Some("2000-01-01T00:00:00".to_string());
    assert!(note.has_expired());
    // a malformed stored timestamp fails open: the note is not expired
    note.expires_at = Some("not a timestamp".to_string());
    assert!(!note.has_expired());
}

#[test]
fn test_legacy_note_object() {
    let note = Note::new("title", "content", "0m");
    assert_eq!(36, note.note_id.len());
    assert_eq!("title", note.title);
    assert_eq!("content", note.content);
    assert_eq!(Some(note.created_at.clone()), note.expires_at);
}

#[test]
fn test_user_objects() {
    let user = User::new("alice", "secret");
    assert_eq!(36, user.user_id.len());
    assert_eq!("alice", user.login);
    assert_eq!("secret", user.password);
    assert_eq!(None, user.token);
    let entity = UserEntity::new("bob", "hunter2");
    assert_eq!(36, entity.user_id.len());
    assert_eq!("bob", entity.login);
    assert_eq!("hunter2", entity.password);
    assert_eq!(None, entity.token);
}

#[test]
fn test_error_descriptions() {
    assert_eq!("endpoint not found: /nowhere", err_endpoint_not_found("/nowhere").details());
    assert_eq!("note not found, id = 7", err_note_not_found("7").details());
    assert_eq!("role not found: r1", err_entity_not_found("role", "r1").details());
    assert_eq!(
        "required attribute not specified, name = title",
        err_required_attribute_not_specified("title").details()
    );
    assert_eq!("invalid login or password", err_invalid_login_or_password().details());
    assert_eq!("creating a new note failed", err_creating_note_failed().details());
    assert_eq!("creating a new role failed", err_creating_role_failed().details());
    assert_eq!("not authorized", err_not_authorized().details());
}

#[test]
fn test_login_params_validation() {
    let ok = LoginParams { login: Some("a".to_string()), password: Some("b".to_string()) };
    assert_eq!(Ok(("a".to_string(), "b".to_string())), ok.validate().map_err(|e| e.details().to_string()));
    let no_login = LoginParams { login: None, password: Some("b".to_string()) };
    assert_eq!(
        "required attribute not specified, name = login",
        no_login.validate().unwrap_err().details()
    );
    let no_password = LoginParams { login: Some("a".to_string()), password: None };
    assert_eq!(
        "required attribute not specified, name = password",
        no_password.validate().unwrap_err().details()
    );
}

#[test]
fn test_create_note_params_validation() {
    let full = CreateNoteParams {
        title: Some("t".to_string()),
        content: Some("c".to_string()),
        ttl: Some("2h".to_string()),
    };
    let (title, content, ttl) = full.validate().unwrap();
    assert_eq!(("t", "c", "2h"), (title.as_str(), content.as_str(), ttl.as_str()));
    let no_ttl = CreateNoteParams {
        title: Some("t".to_string()),
        content: Some("c".to_string()),
        ttl: None,
    };
    assert_eq!("", no_ttl.validate().unwrap().2);
    let no_title = CreateNoteParams { title: None, content: Some("c".to_string()), ttl: None };
    assert_eq!(
        "required attribute not specified, name = title",
        no_title.validate().unwrap_err().details()
    );
    let no_content = CreateNoteParams { title: Some("t".to_string()), content: None, ttl: None };
    assert_eq!(
        "required attribute not specified, name = content",
        no_content.validate().unwrap_err().details()
    );
}

#[test]
fn test_create_role_params_validation() {
    let ok = CreateRoleParams { name: Some("admin".to_string()) };
    assert_eq!("admin", ok.validate().unwrap());
    let missing = CreateRoleParams { name: None };
    assert_eq!(
        "required attribute not specified, name = name",
        missing.validate().unwrap_err().details()
    );
}

// 2000-01-01T00:00:00 UTC as unix seconds.
const Y2K: i64 = 946684800;

#[test]
fn test_expiry_boundary_is_strict() {
    let mut note = NoteEntity::new("t", "c", "");
    note.expires_at = Some("2000-01-01T00:00:00".to_string());
    // expired only when the stored instant is strictly earlier than now
    assert!(!note.has_expired_at(Y2K - 1));
    assert!(!note.has_expired_at(Y2K));
    assert!(note.has_expired_at(Y2K + 1));
}

#[test]
fn test_expiry_reads_all_timestamp_components() {
    let mut note = NoteEntity::new("t", "c", "");
    note.expires_at = Some("2000-01-01T00:00:30".to_string());
    assert!(!note.has_expired_at(Y2K + 30));
    assert!(note.has_expired_at(Y2K + 31));
}

#[test]
fn test_dto_conversions() {
    let note = NoteEntity::new("a title", "a content", "");
    let dto = nordnotes::dto::NoteDto::from(&note);
    assert_eq!(note.note_id, dto.note_id);
    assert_eq!(Some("a title".to_string()), dto.title);
    assert_eq!(Some("a content".to_string()), dto.content);
    let role = RoleEntity::new("user");
    let role_dto = nordnotes::dto::RoleDto::from(&role);
    assert_eq!(role.id(), role_dto.role_id);
    assert_eq!(Some("USER".to_string()), role_dto.name);
    let empty = nordnotes::dto::NoteDto::default();
    assert_eq!(("", None, None), (empty.note_id.as_str(), empty.title, empty.content));
}
