use oisko::auth::{
    account_from, authenticate, bearer_token, check_confirmation, decide_login, may_register,
    new_account, reply_to_registration, reply_to_verification, verification_mail, AuthReply,
    Claims, PasswordCheck, User, SESSION_SECONDS, VERIFICATION_TOKEN_LENGTH,
};
use oisko::handlers::StoreOutcome;

fn user(hash: &str, verified: bool) -> User {
    User {
        id: 77,
        email: "ada@example.com".to_string(),
        password_hash: hash.to_string(),
        created_at: 0,
        is_verified: verified,
        verification_token: None,
    }
}

#[test]
fn bearer_token_is_what_follows_the_scheme() {
    assert_eq!(bearer_token(Some("Bearer abc.def.ghi")), Ok("abc.def.ghi".to_string()));
    assert_eq!(bearer_token(Some("Bearer ")), Ok(String::new()));
    assert_eq!(bearer_token(Some("Bearer  x")), Ok(" x".to_string()));
}

#[test]
fn bearer_token_refusals() {
    assert_eq!(bearer_token(None), Err(AuthReply::MissingHeader));
    assert_eq!(bearer_token(Some("")), Err(AuthReply::InvalidHeader));
    assert_eq!(bearer_token(Some("Bearer")), Err(AuthReply::InvalidHeader));
    assert_eq!(bearer_token(Some("bearer abc")), Err(AuthReply::InvalidHeader));
    assert_eq!(bearer_token(Some("Basic abc")), Err(AuthReply::InvalidHeader));
    assert_eq!(bearer_token(Some(" Bearer abc")), Err(AuthReply::InvalidHeader));
}

#[test]
fn registered_password_logs_in() {
    let account = new_account("ada@example.com", "correct horse").unwrap();
    assert_eq!(account.email, "ada@example.com");
    assert!(account.password_hash.starts_with("$argon2"));
    assert_ne!(account.password_hash, "correct horse");
    assert_eq!(account.verification_token.chars().count(), VERIFICATION_TOKEN_LENGTH);
    assert_eq!(VERIFICATION_TOKEN_LENGTH, 32);
    assert!(account.verification_token.chars().all(|c| c.is_ascii_alphanumeric()));

    let found = StoreOutcome::Row(user(&account.password_hash, true));
    assert_eq!(authenticate(&found, "correct horse"), Ok(77));
    assert_eq!(authenticate(&found, "wrong horse"), Err(AuthReply::InvalidCredentials));
    assert_eq!(authenticate(&found, ""), Err(AuthReply::InvalidCredentials));
}

#[test]
fn two_registrations_differ() {
    let one = new_account("ada@example.com", "pw").unwrap();
    let two = new_account("ada@example.com", "pw").unwrap();
    assert_ne!(one.password_hash, two.password_hash);
    assert_ne!(one.verification_token, two.verification_token);
}

#[test]
fn login_refusals() {
    let account = new_account("ada@example.com", "pw").unwrap();
    assert_eq!(
        authenticate(&StoreOutcome::Row(user(&account.password_hash, false)), "pw"),
        Err(AuthReply::NotVerified)
    );
    assert_eq!(
        authenticate(&StoreOutcome::Row(user("no hash at all", true)), "pw"),
        Err(AuthReply::AuthError)
    );
    assert_eq!(
        authenticate(&StoreOutcome::Row(user("", true)), "pw"),
        Err(AuthReply::AuthError)
    );
    assert_eq!(authenticate(&StoreOutcome::Missing, "pw"), Err(AuthReply::InvalidCredentials));
    assert_eq!(authenticate(&StoreOutcome::Failed, "pw"), Err(AuthReply::DatabaseError));
}

#[test]
fn decide_login_for_each_check() {
    assert_eq!(decide_login(5, PasswordCheck::Matches), Ok(5));
    assert_eq!(decide_login(5, PasswordCheck::Mismatch), Err(AuthReply::InvalidCredentials));
    assert_eq!(decide_login(5, PasswordCheck::Unreadable), Err(AuthReply::AuthError));
}

#[test]
fn account_needs_a_hash() {
    let made = account_from("a@b.c", Some("hash".to_string()), "token".to_string()).unwrap();
    assert_eq!(made.email, "a@b.c");
    assert_eq!(made.password_hash, "hash");
    assert_eq!(made.verification_token, "token");
    assert_eq!(account_from("a@b.c", None, "token".to_string()), Err(AuthReply::AuthError));
}

#[test]
fn session_lasts_a_day() {
    assert_eq!(SESSION_SECONDS, 86_400);
    let claims = Claims::for_session(0xa1a2a3a4b1b2c1c2d1d2d3d4d5d6d7d8, 1_700_000_000).unwrap();
    assert_eq!(
        claims,
        Claims { sub: "a1a2a3a4-b1b2-c1c2-d1d2-d3d4d5d6d7d8".to_string(), exp: 1_700_086_400 }
    );
    assert!(!claims.is_expired(1_700_086_400));
    assert!(claims.is_expired(1_700_086_401));
    assert!(!claims.is_expired(-5));
    assert_eq!(Claims::for_session(1, -86_400).map(|c| c.exp), Some(0));
    assert_eq!(Claims::for_session(1, -86_401), None);
    assert_eq!(
        Claims::for_session(1, i64::MAX).map(|c| c.exp),
        Some(i64::MAX as usize + 86_400)
    );
}

#[test]
fn registration_and_verification_replies() {
    assert_eq!(may_register(&StoreOutcome::Row(())), Err(AuthReply::UserExists));
    assert_eq!(may_register(&StoreOutcome::Missing), Ok(()));
    assert_eq!(may_register(&StoreOutcome::Failed), Ok(()));
    assert_eq!(reply_to_registration(true), AuthReply::Registered);
    assert_eq!(reply_to_registration(false), AuthReply::DatabaseError);
    assert_eq!(reply_to_verification(Some(1)), AuthReply::Verified);
    assert_eq!(reply_to_verification(Some(0)), AuthReply::UnknownVerification);
    assert_eq!(reply_to_verification(None), AuthReply::DatabaseError);
}

#[test]
fn auth_replies_have_their_codes_and_texts() {
    let all = [
        (AuthReply::MissingHeader, 401, "Missing authorization header"),
        (AuthReply::InvalidHeader, 401, "Invalid authorization header"),
        (AuthReply::InvalidToken, 401, "Invalid token"),
        (AuthReply::NotVerified, 403, "Email not verified"),
        (AuthReply::InvalidCredentials, 401, "Invalid credentials"),
        (AuthReply::DatabaseError, 500, "Database error"),
        (AuthReply::AuthError, 500, "Auth error"),
        (AuthReply::TokenCreationFailed, 500, "Token creation failed"),
        (AuthReply::UserExists, 400, "User already exists"),
        (AuthReply::Registered, 201, "Changes saved. Check backend logs for token."),
        (AuthReply::Verified, 200, "Email verified"),
        (AuthReply::UnknownVerification, 400, "Invalid token"),
    ];
    for (reply, code, text) in all {
        assert_eq!(reply.status_code(), code);
        assert_eq!(reply.message(), text);
    }
}

#[test]
fn verification_mail_lines() {
    assert_eq!(
        verification_mail("ada@example.com", "T0ken"),
        vec![
            ">>> MOCK EMAIL SENT <<<".to_string(),
            "To: ada@example.com".to_string(),
            "Action: Verify Account".to_string(),
            "Token: T0ken".to_string(),
            "Link: http://localhost:8080/admin/verify?token=T0ken".to_string(),
            ">>> END EMAIL <<<".to_string(),
        ]
    );
}

#[test]
fn every_ordinary_password_gets_an_account() {
    for password in ["", "a", "correct horse battery staple", "pässwörd 🚀", "\u{0}\n"] {
        let account = new_account("ada@example.com", password).unwrap();
        let found = StoreOutcome::Row(user(&account.password_hash, true));
        assert_eq!(authenticate(&found, password), Ok(77), "for {:?}", password);
    }
    let long = "x".repeat(10_000);
    assert!(new_account("ada@example.com", &long).is_ok());
}

#[test]
fn passwords_must_be_typed_the_same_way_twice() {
    assert_eq!(check_confirmation("secret", "secret"), Ok(()));
    assert_eq!(check_confirmation("", ""), Ok(()));
    assert_eq!(check_confirmation("secret", "Secret"), Err("Passwords do not match"));
    assert_eq!(check_confirmation("secret", "secret "), Err("Passwords do not match"));
}
