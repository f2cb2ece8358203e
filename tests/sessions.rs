use task_auth::auth::{parse_token, CreateUser, UserTable};
use task_auth::status::Status;

fn creds(u: &str, p: &str) -> CreateUser {
    CreateUser { username: u.to_string(), password: p.to_string() }
}

#[test]
fn parse_token_accepts_bearer() {
    assert_eq!(parse_token(Some("Bearer abc.def")), Ok("abc.def".to_string()));
}

#[test]
fn parse_token_rejects_missing_header() {
    assert_eq!(parse_token(None), Err(Status::BadRequest));
}

#[test]
fn parse_token_rejects_other_scheme() {
    assert_eq!(parse_token(Some("Basic abc")), Err(Status::BadRequest));
    assert_eq!(parse_token(Some("bearer abc")), Err(Status::BadRequest));
}

#[test]
fn parse_token_rejects_missing_token() {
    assert_eq!(parse_token(Some("Bearer")), Err(Status::BadRequest));
    assert_eq!(parse_token(Some("Bearer ")), Err(Status::BadRequest));
}

#[test]
fn parse_token_rejects_extra_spaces() {
    assert_eq!(parse_token(Some("Bearer  abc")), Err(Status::BadRequest));
    assert_eq!(parse_token(Some("Bearer abc def")), Err(Status::BadRequest));
}

#[test]
fn create_login_and_stale_token() {
    let mut users = UserTable::new();
    let created = users.create_user(creds("a", "longenough1"), "tok-created".to_string()).unwrap();
    assert!(!created.token.is_empty());
    assert_eq!(created.username, "a");
    assert_eq!(created.id, 1);
    let logged = users.login(creds("a", "longenough1"), "tok-login".to_string()).unwrap();
    assert_ne!(logged.token, created.token);
    assert_eq!(logged.id, created.id);
    let stale = parse_token(Some("Bearer tok-created")).unwrap();
    assert_eq!(users.authorize(&stale, true).err(), Some(Status::NotFound));
    let live = users.authorize(&"tok-login".to_string(), true).unwrap();
    assert_eq!(live.username, "a");
}

#[test]
fn password_is_stored_hashed() {
    let mut users = UserTable::new();
    users.create_user(creds("b", "secret-pass"), "t1".to_string()).unwrap();
    let stored = &users.rows()[0].password;
    assert_ne!(stored, "secret-pass");
    assert_eq!(stored.chars().count(), 60);
    assert!(stored.starts_with("$2b$08$"));
}

#[test]
fn unknown_token_is_not_found() {
    let mut users = UserTable::new();
    users.create_user(creds("a", "pw1"), "t1".to_string()).unwrap();
    assert_eq!(users.authorize(&"other".to_string(), true).err(), Some(Status::NotFound));
}

#[test]
fn bad_signature_is_bad_request() {
    let mut users = UserTable::new();
    users.create_user(creds("a", "pw1"), "t1".to_string()).unwrap();
    assert_eq!(users.authorize(&"t1".to_string(), false).err(), Some(Status::BadRequest));
}

#[test]
fn login_unknown_user_not_found() {
    let mut users = UserTable::new();
    assert_eq!(users.login(creds("nobody", "pw"), "t".to_string()).err(), Some(Status::NotFound));
}

#[test]
fn login_wrong_password_unauthorized() {
    let mut users = UserTable::new();
    users.create_user(creds("a", "right-one"), "t1".to_string()).unwrap();
    assert_eq!(users.login(creds("a", "wrong-one"), "t2".to_string()).err(), Some(Status::Unauthorized));
    assert!(users.authorize(&"t1".to_string(), true).is_ok());
}

#[test]
fn login_with_held_token_is_internal_error() {
    let mut users = UserTable::new();
    users.create_user(creds("a", "pw-a"), "t1".to_string()).unwrap();
    users.create_user(creds("b", "pw-b"), "t2".to_string()).unwrap();
    assert_eq!(users.login(creds("a", "pw-a"), "t2".to_string()).err(), Some(Status::InternalError));
    assert_eq!(users.login(creds("a", "pw-a"), "t1".to_string()).err(), Some(Status::InternalError));
}

#[test]
fn create_user_empty_credentials_bad_request() {
    let mut users = UserTable::new();
    assert_eq!(users.create_user(creds("", "pw"), "t".to_string()).err(), Some(Status::BadRequest));
    assert_eq!(users.create_user(creds("a", ""), "t".to_string()).err(), Some(Status::BadRequest));
    assert_eq!(users.len(), 0);
}

#[test]
fn create_user_duplicate_username_internal_error() {
    let mut users = UserTable::new();
    users.create_user(creds("a", "pw"), "t1".to_string()).unwrap();
    assert_eq!(users.create_user(creds("a", "pw2"), "t2".to_string()).err(), Some(Status::InternalError));
    assert_eq!(users.len(), 1);
}

#[test]
fn logout_clears_session() {
    let mut users = UserTable::new();
    let u = users.create_user(creds("a", "pw"), "t1".to_string()).unwrap();
    assert_eq!(users.logout(u.id), Ok(()));
    assert_eq!(users.authorize(&"t1".to_string(), true).err(), Some(Status::NotFound));
    assert!(users.rows()[0].token.is_none());
    assert_eq!(users.logout(99), Err(Status::NotFound));
}

#[test]
fn register_assigns_increasing_ids() {
    let mut users = UserTable::new();
    let a = users.register("a".to_string(), "h".to_string(), "t1".to_string()).unwrap();
    let b = users.register("b".to_string(), "h".to_string(), "t2".to_string()).unwrap();
    assert_eq!((a.id, b.id), (1, 2));
    assert_eq!(users.find_by_username(&"b".to_string()), Some(1));
    assert_eq!(users.find_by_token(&"t1".to_string()), Some(0));
}

#[test]
fn status_codes() {
    assert_eq!(Status::BadRequest.code(), 400);
    assert_eq!(Status::Unauthorized.code(), 401);
    assert_eq!(Status::NotFound.code(), 404);
    assert_eq!(Status::InternalError.code(), 500);
    assert_eq!(Status::Accepted.code(), 202);
    assert_eq!(Status::ImATeapot.code(), 418);
}

#[test]
fn check_credentials_outcomes() {
    let mut users = UserTable::new();
    users.create_user(creds("a", "pw-a"), "t1".to_string()).unwrap();
    users.create_user(creds("b", "pw-b"), "t2".to_string()).unwrap();
    assert_eq!(users.check_credentials(&creds("b", "pw-b")), Ok(1));
    assert_eq!(users.check_credentials(&creds("b", "pw-a")), Err(Status::Unauthorized));
    assert_eq!(users.check_credentials(&creds("c", "pw-a")), Err(Status::NotFound));
    let done = users.finish_login(1, Some(true), "t3".to_string()).unwrap();
    assert_eq!((done.id, done.token.as_str()), (2, "t3"));
    assert_eq!(users.authorize(&"t2".to_string(), true).err(), Some(Status::NotFound));
}
