use crate::handlers::StoreOutcome;
use crate::ids::{hyphenated, id_text};
use crate::text::{chars_of, opt_str, opt_text, same_text, string_of_range};
use argon2::password_hash::rand_core::OsRng;
use argon2::password_hash::SaltString;
use argon2::{Argon2, PasswordHash, PasswordHasher, PasswordVerifier};
use rand::distributions::{Alphanumeric, DistString};
use vstd::prelude::*;
use vstd::string::StringExecFns;

verus! {

/// Seconds for which a session lasts after the login.
pub const SESSION_SECONDS: i64 = 86_400;

/// The scheme with which a request names its session token.
pub const BEARER: &'static str = "Bearer ";

/// One owner account as the store holds it.
#[derive(Debug, Clone, PartialEq, Eq)]
pub struct User {
    pub id: u128,
    pub email: String,
    pub password_hash: String,
    pub created_at: i64,
    pub is_verified: bool,
    pub verification_token: Option<String>,
}

/// What a session token states: whose session it is, as the hyphenated
/// identifier of the user, and the second at which it ends.
#[derive(Debug, Clone, PartialEq, Eq)]
pub struct Claims {
    pub sub: String,
    pub exp: usize,
}

/// How a request about accounts and sessions is answered.
#[derive(Debug, Clone, Copy, PartialEq, Eq)]
pub enum AuthReply {
    /// 401: the request names no session.
    MissingHeader,
    /// 401: the request does not name its session as a bearer token.
    InvalidHeader,
    /// 401: the session token is not a valid one.
    InvalidToken,
    /// 403: the account's address was not confirmed yet.
    NotVerified,
    /// 401: no such account, or not its password.
    InvalidCredentials,
    /// 500: the store failed.
    DatabaseError,
    /// 500: the stored hash of the password cannot be read.
    AuthError,
    /// 500: no token could be made.
    TokenCreationFailed,
    /// 400: the address is taken.
    UserExists,
    /// 201: the account was made.
    Registered,
    /// 200: the address is confirmed.
    Verified,
    /// 400: no account waits for this confirmation.
    UnknownVerification,
}

impl AuthReply {
    /// The status code of the reply.
    pub open spec fn code(self) -> u16 {
        match self {
            AuthReply::MissingHeader => 401,
            AuthReply::InvalidHeader => 401,
            AuthReply::InvalidToken => 401,
            AuthReply::NotVerified => 403,
            AuthReply::InvalidCredentials => 401,
            AuthReply::DatabaseError => 500,
            AuthReply::AuthError => 500,
            AuthReply::TokenCreationFailed => 500,
            AuthReply::UserExists => 400,
            AuthReply::Registered => 201,
            AuthReply::Verified => 200,
            AuthReply::UnknownVerification => 400,
        }
    }

    /// The text that the reply carries.
    pub open spec fn text(self) -> Seq<char> {
        match self {
            AuthReply::MissingHeader => "Missing authorization header"@,
            AuthReply::InvalidHeader => "Invalid authorization header"@,
            AuthReply::InvalidToken => "Invalid token"@,
            AuthReply::NotVerified => "Email not verified"@,
            AuthReply::InvalidCredentials => "Invalid credentials"@,
            AuthReply::DatabaseError => "Database error"@,
            AuthReply::AuthError => "Auth error"@,
            AuthReply::TokenCreationFailed => "Token creation failed"@,
            AuthReply::UserExists => "User already exists"@,
            AuthReply::Registered => "Changes saved. Check backend logs for token."@,
            AuthReply::Verified => "Email verified"@,
            AuthReply::UnknownVerification => "Invalid token"@,
        }
    }

    /// The status code of the reply.
    pub fn status_code(self) -> (code: u16)
        ensures
            code == self.code(),
    {
        match self {
            AuthReply::MissingHeader => 401,
            AuthReply::InvalidHeader => 401,
            AuthReply::InvalidToken => 401,
            AuthReply::NotVerified => 403,
            AuthReply::InvalidCredentials => 401,
            AuthReply::DatabaseError => 500,
            AuthReply::AuthError => 500,
            AuthReply::TokenCreationFailed => 500,
            AuthReply::UserExists => 400,
            AuthReply::Registered => 201,
            AuthReply::Verified => 200,
            AuthReply::UnknownVerification => 400,
        }
    }

    /// The text that the reply carries.
    pub fn message(self) -> (text: &'static str)
        ensures
            text@ == self.text(),
    {
        match self {
            AuthReply::MissingHeader => "Missing authorization header",
            AuthReply::InvalidHeader => "Invalid authorization header",
            AuthReply::InvalidToken => "Invalid token",
            AuthReply::NotVerified => "Email not verified",
            AuthReply::InvalidCredentials => "Invalid credentials",
            AuthReply::DatabaseError => "Database error",
            AuthReply::AuthError => "Auth error",
            AuthReply::TokenCreationFailed => "Token creation failed",
            AuthReply::UserExists => "User already exists",
            AuthReply::Registered => "Changes saved. Check backend logs for token.",
            AuthReply::Verified => "Email verified",
            AuthReply::UnknownVerification => "Invalid token",
        }
    }
}

/// The session token that an authorization header names: what follows
/// the bearer scheme. A request without the header, or with a header of
/// another form, is refused.
pub open spec fn bearer_of(header: Option<Seq<char>>) -> Result<Seq<char>, AuthReply> {
    match header {
        None => Err(AuthReply::MissingHeader),
        Some(text) => if text.len() >= 7 && text.take(7) == BEARER@ {
            Ok(text.skip(7))
        } else {
            Err(AuthReply::InvalidHeader)
        },
    }
}

/// The session token that an authorization header names.
pub fn bearer_token(header: Option<&str>) -> (token: Result<String, AuthReply>)
    ensures
        match bearer_of(opt_str(header)) {
            Ok(expected) => token matches Ok(found) && found@ == expected,
            Err(reply) => token == Err::<String, AuthReply>(reply),
        },
{
    let text = match header {
        Some(text) => text,
        None => {
            return Err(AuthReply::MissingHeader);
        },
    };
    proof {
        reveal_strlit("Bearer ");
    }
    let chars = chars_of(text);
    if chars.len() >= 7 && chars[0] == 'B' && chars[1] == 'e' && chars[2] == 'a' && chars[3] == 'r'
        && chars[4] == 'e' && chars[5] == 'r' && chars[6] == ' ' {
        proof {
            assert(text@.take(7) =~= BEARER@);
            assert(text@.skip(7) =~= chars@.subrange(7, chars@.len() as int));
        }
        Ok(string_of_range(&chars, 7, chars.len()))
    } else {
        proof {
            if text@.len() >= 7 && text@.take(7) == BEARER@ {
                assert(text@.take(7)[0] == 'B');
                assert(text@.take(7)[1] == 'e');
                assert(text@.take(7)[2] == 'a');
                assert(text@.take(7)[3] == 'r');
                assert(text@.take(7)[4] == 'e');
                assert(text@.take(7)[5] == 'r');
                assert(text@.take(7)[6] == ' ');
            }
        }
        Err(AuthReply::InvalidHeader)
    }
}

/// How a password stands to the hash that is stored for an account.
#[derive(Debug, Clone, Copy, PartialEq, Eq)]
pub enum PasswordCheck {
    /// The password is the one that was hashed.
    Matches,
    /// The password is another one.
    Mismatch,
    /// What is stored is no hash in the PHC string format.
    Unreadable,
}

/// How `password` stands to the stored hash `stored`, as Argon2 with its
/// default parameters verifies it.
pub uninterp spec fn password_check(password: Seq<char>, stored: Seq<char>) -> PasswordCheck;

/// `argon2::Argon2::verify_password` on a hash read by
/// `argon2::PasswordHash::new`: whether the password, as UTF-8, hashes to
/// what is stored.
#[verifier::external_body]
fn verify_password(password: &str, stored: &str) -> (check: PasswordCheck)
    ensures
        check == password_check(password@, stored@),
{
    match PasswordHash::new(stored) {
        Ok(parsed) => match Argon2::default().verify_password(password.as_bytes(), &parsed) {
            Ok(()) => PasswordCheck::Matches,
            Err(_) => PasswordCheck::Mismatch,
        },
        Err(_) => PasswordCheck::Unreadable,
    }
}

/// What a login comes to, given what the store found for the address:
/// the user's identifier, or the refusal. The password is looked at only
/// for a confirmed account.
pub open spec fn login_outcome(found: StoreOutcome<User>, password: Seq<char>) -> Result<
    u128,
    AuthReply,
> {
    match found {
        StoreOutcome::Failed => Err(AuthReply::DatabaseError),
        StoreOutcome::Missing => Err(AuthReply::InvalidCredentials),
        StoreOutcome::Row(account) => if !account.is_verified {
            Err(AuthReply::NotVerified)
        } else {
            match password_check(password, account.password_hash@) {
                PasswordCheck::Matches => Ok(account.id),
                PasswordCheck::Mismatch => Err(AuthReply::InvalidCredentials),
                PasswordCheck::Unreadable => Err(AuthReply::AuthError),
            }
        },
    }
}

/// Decides a login once the store was asked for the account: the
/// identifier of the user who may have a session, or the refusal.
pub fn authenticate(found: &StoreOutcome<User>, password: &str) -> (user: Result<u128, AuthReply>)
    ensures
        user == login_outcome(*found, password@),
{
    match found {
        StoreOutcome::Failed => Err(AuthReply::DatabaseError),
        StoreOutcome::Missing => Err(AuthReply::InvalidCredentials),
        StoreOutcome::Row(account) => {
            if !account.is_verified {
                return Err(AuthReply::NotVerified);
            }
            decide_login(account.id, verify_password(password, account.password_hash.as_str()))
        },
    }
}

/// What a login of a confirmed account comes to, from how the password
/// stands to the stored hash.
pub fn decide_login(user_id: u128, check: PasswordCheck) -> (user: Result<u128, AuthReply>)
    ensures
        user == (match check {
            PasswordCheck::Matches => Ok::<u128, AuthReply>(user_id),
            PasswordCheck::Mismatch => Err::<u128, AuthReply>(AuthReply::InvalidCredentials),
            PasswordCheck::Unreadable => Err::<u128, AuthReply>(AuthReply::AuthError),
        }),
{
    match check {
        PasswordCheck::Matches => Ok(user_id),
        PasswordCheck::Mismatch => Err(AuthReply::InvalidCredentials),
        PasswordCheck::Unreadable => Err(AuthReply::AuthError),
    }
}

impl Claims {
    /// The claims of a session that begins at `now`, in seconds since
    /// the epoch: it is the user's and ends a day later. There are none
    /// where that second is before the epoch or beyond what the token
    /// can hold.
    pub fn for_session(user_id: u128, now: i64) -> (claims: Option<Claims>)
        ensures
            claims is Some == (0 <= now + SESSION_SECONDS <= usize::MAX),
            claims matches Some(c) ==> c.sub@ == id_text(user_id) && c.exp == now
                + SESSION_SECONDS,
    {
        let end: i128 = now as i128 + SESSION_SECONDS as i128;
        if end < 0 || end > usize::MAX as i128 {
            return None;
        }
        Some(Claims { sub: hyphenated(user_id), exp: end as usize })
    }

    /// Whether the session is over at `now`, in seconds since the epoch.
    pub fn is_expired(&self, now: i64) -> (over: bool)
        ensures
            over == (self.exp < now),
    {
        now > 0 && (self.exp as u128) < now as u128
    }
}

/// Characters in the token that confirms an address.
pub const VERIFICATION_TOKEN_LENGTH: usize = 32;

/// Where an owner confirms an address; the token follows.
pub const VERIFICATION_LINK: &'static str = "http://localhost:8080/admin/verify?token=";

/// Whether `c` is a letter of the English alphabet or a digit.
pub open spec fn is_alphanumeric(c: char) -> bool {
    ||| 'a' <= c <= 'z'
    ||| 'A' <= c <= 'Z'
    ||| '0' <= c <= '9'
}

/// `rand::distributions::DistString::sample_string` of
/// `rand::distributions::Alphanumeric` on the thread's generator:
/// `length` characters drawn at random, each a letter of the English
/// alphabet or a digit.
#[verifier::external_body]
fn random_alphanumeric(length: usize) -> (text: String)
    ensures
        text@.len() == length,
        forall|i: int| 0 <= i < text@.len() ==> is_alphanumeric(text@[i]),
{
    Alphanumeric.sample_string(&mut rand::thread_rng(), length)
}

/// Whether every password that Argon2 takes can be hashed under `salt`:
/// there is a hash for each password of at most `u32::MAX` bytes.
pub open spec fn always_hashes(salt: Seq<char>) -> bool {
    forall|password: Seq<char>|
        vstd::utf8::encode_utf8(password).len() <= u32::MAX ==> (#[trigger] password_hash(
            password,
            salt,
        )) is Some
}

/// `argon2::password_hash::SaltString::generate` on the operating
/// system's generator: a salt drawn at random, in its text form. It
/// spells sixteen bytes in the alphabet that salts are written in, which
/// is a salt that Argon2 with its default parameters accepts, so every
/// password of at most `u32::MAX` bytes can be hashed under it.
#[verifier::external_body]
fn random_salt() -> (salt: String)
    ensures
        always_hashes(salt@),
{
    SaltString::generate(&mut OsRng).to_string()
}

/// The hash of `password` under `salt` in the PHC string format, as
/// Argon2 with its default parameters computes it; none where the salt
/// is not one or the hash cannot be computed.
pub uninterp spec fn password_hash(password: Seq<char>, salt: Seq<char>) -> Option<Seq<char>>;

/// `argon2::Argon2::hash_password` with a salt read by
/// `argon2::password_hash::SaltString::from_b64`: the hash of the
/// password, as UTF-8, under that salt. The password verifies against
/// its hash.
#[verifier::external_body]
fn hash_password(password: &str, salt: &str) -> (hash: Option<String>)
    ensures
        opt_text(hash) == password_hash(password@, salt@),
        hash matches Some(h) ==> password_check(password@, h@) == PasswordCheck::Matches,
{
    match SaltString::from_b64(salt) {
        Ok(salt) => match Argon2::default().hash_password(password.as_bytes(), &salt) {
            Ok(hash) => Some(hash.to_string()),
            Err(_) => None,
        },
        Err(_) => None,
    }
}

/// An account that is about to be stored.
#[derive(Debug, Clone, PartialEq, Eq)]
pub struct NewAccount {
    pub email: String,
    pub password_hash: String,
    pub verification_token: String,
}

/// The account to store for a registration, from the hash of the
/// password and the token that will confirm the address. Without a hash
/// there is no account.
pub fn account_from(email: &str, hash: Option<String>, token: String) -> (account: Result<
    NewAccount,
    AuthReply,
>)
    ensures
        account is Ok == hash is Some,
        account matches Ok(a) ==> a.email@ == email@ && Some(a.password_hash) == hash
            && a.verification_token == token,
        account matches Err(reply) ==> reply == AuthReply::AuthError,
{
    match hash {
        Some(password_hash) => Ok(
            NewAccount { email: String::from_str(email), password_hash, verification_token: token },
        ),
        None => Err(AuthReply::AuthError),
    }
}

/// Prepares the account for a registration: the password is hashed under
/// a salt drawn at random, and a token of 32 letters and digits is drawn
/// to confirm the address. There is an account for every password of at
/// most `u32::MAX` bytes; a longer one may be refused. The password
/// verifies against the hash.
pub fn new_account(email: &str, password: &str) -> (account: Result<NewAccount, AuthReply>)
    ensures
        vstd::utf8::encode_utf8(password@).len() <= u32::MAX ==> account is Ok,
        account matches Ok(a) ==> {
            &&& a.email@ == email@
            &&& exists|salt: Seq<char>|
                always_hashes(salt) && Some(a.password_hash@) == #[trigger] password_hash(
                    password@,
                    salt,
                )
            &&& password_check(password@, a.password_hash@) == PasswordCheck::Matches
            &&& a.verification_token@.len() == VERIFICATION_TOKEN_LENGTH
            &&& forall|i: int|
                0 <= i < a.verification_token@.len() ==> is_alphanumeric(a.verification_token@[i])
        },
        account matches Err(reply) ==> reply == AuthReply::AuthError,
{
    let salt = random_salt();
    let hash = hash_password(password, salt.as_str());
    let token = random_alphanumeric(VERIFICATION_TOKEN_LENGTH);
    proof {
        if hash is Some {
            assert(Some(hash->0@) == password_hash(password@, salt@));
        }
    }
    account_from(email, hash, token)
}

/// The lines of the mail that asks the owner of `email` to confirm the
/// address with `token`.
pub open spec fn verification_mail_of(email: Seq<char>, token: Seq<char>) -> Seq<Seq<char>> {
    seq![
        ">>> MOCK EMAIL SENT <<<"@,
        "To: "@ + email,
        "Action: Verify Account"@,
        "Token: "@ + token,
        "Link: "@ + VERIFICATION_LINK@ + token,
        ">>> END EMAIL <<<"@,
    ]
}

/// The lines of the mail that asks the owner of `email` to confirm the
/// address with `token`.
pub fn verification_mail(email: &str, token: &str) -> (lines: Vec<String>)
    ensures
        lines@.map_values(|line: String| line@) == verification_mail_of(email@, token@),
{
    let mut to = String::from_str("To: ");
    to.append(email);
    let mut token_line = String::from_str("Token: ");
    token_line.append(token);
    let mut link = String::from_str("Link: ");
    link.append(VERIFICATION_LINK);
    link.append(token);
    let mut lines: Vec<String> = Vec::new();
    lines.push(String::from_str(">>> MOCK EMAIL SENT <<<"));
    lines.push(to);
    lines.push(String::from_str("Action: Verify Account"));
    lines.push(token_line);
    lines.push(link);
    lines.push(String::from_str(">>> END EMAIL <<<"));
    proof {
        assert(lines@.map_values(|line: String| line@) =~= verification_mail_of(email@, token@));
    }
    lines
}

/// What the registration form says where the two passwords differ.
pub const PASSWORDS_DIFFER: &'static str = "Passwords do not match";

/// Whether the registration form may be sent: only where the password
/// was typed the same way twice; else what the form says instead.
pub fn check_confirmation(password: &str, confirmation: &str) -> (go: Result<(), &'static str>)
    ensures
        go is Ok == (password@ == confirmation@),
        go matches Err(notice) ==> notice@ == PASSWORDS_DIFFER@,
{
    if same_text(password, confirmation) {
        Ok(())
    } else {
        Err(PASSWORDS_DIFFER)
    }
}

/// How a registration is answered once the store was asked whether the
/// address is taken: refused where it is, else to be carried out. A store
/// that failed to answer does not stand in the way.
pub fn may_register(taken: &StoreOutcome<()>) -> (go: Result<(), AuthReply>)
    ensures
        go == (if taken is Row {
            Err::<(), AuthReply>(AuthReply::UserExists)
        } else {
            Ok::<(), AuthReply>(())
        }),
{
    match taken {
        StoreOutcome::Row(_) => Err(AuthReply::UserExists),
        _ => Ok(()),
    }
}

/// How a registration is answered once the store was asked to write the
/// account: `stored` tells whether it did.
pub fn reply_to_registration(stored: bool) -> (reply: AuthReply)
    ensures
        reply == (if stored {
            AuthReply::Registered
        } else {
            AuthReply::DatabaseError
        }),
{
    if stored {
        AuthReply::Registered
    } else {
        AuthReply::DatabaseError
    }
}

/// How a confirmation is answered, from the number of accounts that the
/// store confirmed, or `None` where it failed.
pub fn reply_to_verification(rows_affected: Option<u64>) -> (reply: AuthReply)
    ensures
        reply == (match rows_affected {
            Some(n) => if n > 0 {
                AuthReply::Verified
            } else {
                AuthReply::UnknownVerification
            },
            None => AuthReply::DatabaseError,
        }),
{
    match rows_affected {
        Some(n) => if n > 0 {
            AuthReply::Verified
        } else {
            AuthReply::UnknownVerification
        },
        None => AuthReply::DatabaseError,
    }
}

} // verus!
