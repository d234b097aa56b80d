use timehair::auth::{
    finish_login, generate_claims, get_current_user, issue_claims, login, Claims, TOKEN_LIFETIME,
};
use timehair::error::Error;
use timehair::models::LoginRequest;
use timehair::schema::Database;
use timehair::time::Timestamp;
use timehair::users::{create_user, find_user_by_id, find_user_by_username};

fn at(day: u32) -> Timestamp {
    Timestamp { year: 2024, month: 1, day, hour: 0, minute: 0, second: 0, nanosecond: 0 }
}

fn store() -> Database {
    let mut db = Database::new();
    let hash = bcrypt::hash("secret", 4).unwrap();
    create_user(&mut db, "u1", at(1), "admin", &hash).unwrap();
    db
}

fn attempt(username: &str, password: &str) -> LoginRequest {
    LoginRequest { username: username.to_string(), password: password.to_string() }
}

#[test]
fn the_right_password_signs_in() {
    let db = store();
    let info = login(&db, &attempt("admin", "secret")).unwrap();
    assert_eq!(info.id, "u1");
    assert_eq!(info.username, "admin");
    assert_eq!(info.created_at, at(1));
}

#[test]
fn a_wrong_password_is_an_auth_error_and_an_unknown_name_is_not_found() {
    let mut db = store();
    assert_eq!(login(&db, &attempt("admin", "Secret")).unwrap_err(), Error::Auth);
    assert_eq!(login(&db, &attempt("admin", "")).unwrap_err(), Error::Auth);
    assert_eq!(login(&db, &attempt("root", "secret")).unwrap_err(), Error::NotFound);
    assert_eq!(login(&db, &attempt("Admin", "secret")).unwrap_err(), Error::NotFound);
    db.users[0].deleted_at = Some(at(2));
    assert_eq!(login(&db, &attempt("admin", "secret")).unwrap_err(), Error::NotFound);
}

#[test]
fn a_stored_text_that_is_no_hash_never_signs_in() {
    let mut db = Database::new();
    create_user(&mut db, "u1", at(1), "admin", "secret").unwrap();
    assert_eq!(login(&db, &attempt("admin", "secret")).unwrap_err(), Error::Auth);
}

#[test]
fn finish_login_goes_by_the_check() {
    let db = store();
    let user = find_user_by_username(&db, "admin").unwrap();
    assert_eq!(finish_login(&user, Ok(true)).unwrap().id, "u1");
    assert_eq!(finish_login(&user, Ok(false)).unwrap_err(), Error::Auth);
    assert_eq!(finish_login(&user, bcrypt::verify("x", "no hash")).unwrap_err(), Error::Auth);
}

#[test]
fn accounts_are_found_by_name_and_identity() {
    let mut db = store();
    assert_eq!(find_user_by_username(&db, "admin").unwrap().id, "u1");
    assert_eq!(find_user_by_id(&db, "u1").unwrap().username, "admin");
    assert!(find_user_by_username(&db, "Admin").is_none());
    assert!(find_user_by_id(&db, "u2").is_none());
    assert_eq!(create_user(&mut db, "u2", at(2), "admin", "h").unwrap_err(), Error::Storage);
    assert_eq!(create_user(&mut db, "u1", at(2), "other", "h").unwrap_err(), Error::Storage);
    create_user(&mut db, "u2", at(2), "other", "h").unwrap();
    db.users[0].deleted_at = Some(at(3));
    assert!(find_user_by_username(&db, "admin").is_none());
    assert!(find_user_by_id(&db, "u1").is_none());
    assert_eq!(find_user_by_id(&db, "u2").unwrap().username, "other");
}

#[test]
fn claims_last_a_day() {
    assert_eq!(TOKEN_LIFETIME, 24 * 60 * 60);
    let claims = issue_claims("u1", "admin", 1_700_000_000).unwrap();
    assert_eq!(claims.sub, "u1");
    assert_eq!(claims.username, "admin");
    assert_eq!(claims.iat, 1_700_000_000);
    assert_eq!(claims.exp, 1_700_086_400);
    assert_eq!(issue_claims("u1", "admin", -86_400).unwrap().exp, 0);
    assert_eq!(issue_claims("u1", "admin", i64::MAX - 86_400).unwrap().exp, i64::MAX);
    assert!(issue_claims("u1", "admin", i64::MAX - 86_399).is_none());
}

#[test]
fn claims_issued_now_carry_the_current_time() {
    let claims = generate_claims("u1", "admin").unwrap();
    assert_eq!(claims.exp - claims.iat, 86_400);
    assert_eq!(claims.sub, "u1");
    assert_eq!(claims.username, "admin");
    // After the first of January 2024, and within what the clock can show.
    assert!(claims.iat > 1_704_067_200);
    assert!(claims.iat <= (i32::MAX as i64 - 719_163) * 86_400 + u32::MAX as i64);
}

#[test]
fn the_current_user_is_the_subject_of_the_claims() {
    let db = store();
    let claims = Claims { sub: "u1".to_string(), username: "admin".to_string(), exp: 10, iat: 0 };
    let info = get_current_user(&db, &claims).unwrap();
    assert_eq!(info.username, "admin");
    let stranger = Claims { sub: "u9".to_string(), username: "admin".to_string(), exp: 10, iat: 0 };
    assert_eq!(get_current_user(&db, &stranger).unwrap_err(), Error::NotFound);
}
