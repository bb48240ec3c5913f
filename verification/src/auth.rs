use crate::clock::epoch_millis;
use crate::hashing::{bcrypt_hash, bcrypt_verdict, bcrypt_verify};
use crate::token::{
    expiry_from, lemma_token_fields_of_text, read_token, session_expiry, token_fields, token_text,
    write_token,
};
use vstd::prelude::*;

verus! {

/// The name of the private cookie that carries the session token.
pub const AUTH_COOKIE: &'static str = "auth";

/// A user name with the password offered for it.
#[derive(Debug)]
pub struct LoginInfo<'a> {
    pub username: &'a str,
    pub password: &'a str,
}

/// The ways in which enrolling, logging in or presenting a token can fail.
#[derive(Clone, Copy, Debug, PartialEq, Eq, Structural)]
pub enum AuthFailure {
    /// The user name is taken.
    DuplicateUser,
    /// No identity record bears the user name.
    UnknownUser,
    /// The password does not match the stored hash.
    InvalidCredentials,
    /// The token has no space, or its first field is not a number.
    Malformed,
    /// The token's expiry has been reached.
    Expired,
    /// The password could not be hashed, or the stored hash could not be read.
    Hashing,
}

/// A failure, with a message for whoever reads the log.
#[derive(Debug)]
pub struct AuthError {
    pub kind: AuthFailure,
    pub msg: String,
}

/// The message that goes with a failure of `kind` about `subject`: the token
/// that was presented, or the user name that was given.
pub open spec fn failure_text(kind: AuthFailure, subject: Seq<char>) -> Seq<char> {
    match kind {
        AuthFailure::DuplicateUser => "cannot add user: "@ + subject,
        AuthFailure::UnknownUser => "no user: "@ + subject,
        AuthFailure::InvalidCredentials => "invalid password"@,
        AuthFailure::Malformed => "invalid auth cookie: '"@ + subject + "'"@,
        AuthFailure::Expired => "expired auth cookie: '"@ + subject + "'"@,
        AuthFailure::Hashing => "cannot hash for user: "@ + subject,
    }
}

impl AuthError {
    /// Whether this is the failure of `kind` about `subject`.
    pub open spec fn is(self, kind: AuthFailure, subject: Seq<char>) -> bool {
        self.kind == kind && self.msg@ == failure_text(kind, subject)
    }

    /// The failure of `kind` about `subject`.
    pub fn new(kind: AuthFailure, subject: &str) -> (e: AuthError)
        ensures
            e.is(kind, subject@),
    {
        let msg = match kind {
            AuthFailure::DuplicateUser => String::from_str("cannot add user: ").concat(subject),
            AuthFailure::UnknownUser => String::from_str("no user: ").concat(subject),
            AuthFailure::InvalidCredentials => String::from_str("invalid password"),
            AuthFailure::Malformed => String::from_str("invalid auth cookie: '").concat(
                subject,
            ).concat("'"),
            AuthFailure::Expired => String::from_str("expired auth cookie: '").concat(
                subject,
            ).concat("'"),
            AuthFailure::Hashing => String::from_str("cannot hash for user: ").concat(subject),
        };
        AuthError { kind, msg }
    }
}

/// Whether `r` is what `verdict` calls for: the text it grants, or the
/// failure it names, told about `subject`.
pub open spec fn answers(
    r: Result<String, AuthError>,
    verdict: Result<Seq<char>, AuthFailure>,
    subject: Seq<char>,
) -> bool {
    match verdict {
        Ok(text) => r matches Ok(s) && s@ == text,
        Err(kind) => r matches Err(e) && e.is(kind, subject),
    }
}

/// What presenting `cookie` at the moment `now` comes to: the user name it
/// carries while `now` lies before its expiry, `Expired` from the expiry on,
/// `Malformed` when the text is no token.
pub open spec fn cookie_verdict(cookie: Seq<char>, now: u128) -> Result<Seq<char>, AuthFailure> {
    match token_fields(cookie) {
        None => Err(AuthFailure::Malformed),
        Some(f) => if now < f.expiry {
            Ok(f.username)
        } else {
            Err(AuthFailure::Expired)
        },
    }
}

/// What a password check comes to for `username` at the moment `now`: a
/// fresh token when the password matched, `InvalidCredentials` when it did
/// not, `Hashing` when the stored hash could not be read.
pub open spec fn grant_verdict(checked: Option<bool>, username: Seq<char>, now: u128) -> Result<
    Seq<char>,
    AuthFailure,
> {
    match checked {
        Some(true) => Ok(token_text(expiry_from(now), username)),
        Some(false) => Err(AuthFailure::InvalidCredentials),
        None => Err(AuthFailure::Hashing),
    }
}

/// What logging in comes to against the identity records `table`.
pub open spec fn login_verdict(
    table: Map<Seq<char>, Seq<char>>,
    username: Seq<char>,
    password: Seq<char>,
    now: u128,
) -> Result<Seq<char>, AuthFailure> {
    if table.contains_key(username) {
        grant_verdict(bcrypt_verdict(password, table[username]), username, now)
    } else {
        Err(AuthFailure::UnknownUser)
    }
}

/// Checks a session token against the moment `now`, and hands out the user
/// name it carries. The name is taken at face value: the token bears no
/// signature.
pub fn auth_cookie_at(cookie: &str, now: u128) -> (r: Result<String, AuthError>)
    ensures
        answers(r, cookie_verdict(cookie@, now), cookie@),
{
    match read_token(cookie) {
        None => Err(AuthError::new(AuthFailure::Malformed, cookie)),
        Some(pair) => {
            if now < pair.0 {
                Ok(pair.1)
            } else {
                Err(AuthError::new(AuthFailure::Expired, cookie))
            }
        },
    }
}

/// Checks a session token against the system clock.
pub fn auth_cookie(cookie: &str) -> (r: Result<String, AuthError>)
    ensures
        exists|now: u128| answers(r, cookie_verdict(cookie@, now), cookie@),
{
    let now = epoch_millis();
    auth_cookie_at(cookie, now)
}

/// The token that grants `login.username` a session from `now` on.
pub fn get_auth_str_at(login: &LoginInfo, now: u128) -> (token: String)
    ensures
        token@ == token_text(expiry_from(now), login.username@),
{
    write_token(session_expiry(now), login.username)
}

/// The token that grants `login.username` a session from the present moment
/// of the system clock on.
pub fn get_auth_str(login: &LoginInfo) -> (token: String)
    ensures
        exists|now: u128| token@ == token_text(expiry_from(now), login.username@),
{
    let now = epoch_millis();
    get_auth_str_at(login, now)
}

/// Turns the outcome of a password check into a token or a failure.
pub fn grant(login: &LoginInfo, checked: Option<bool>, now: u128) -> (r: Result<String, AuthError>)
    ensures
        answers(r, grant_verdict(checked, login.username@, now), login.username@),
{
    match checked {
        Some(true) => Ok(get_auth_str_at(login, now)),
        Some(false) => Err(AuthError::new(AuthFailure::InvalidCredentials, login.username)),
        None => Err(AuthError::new(AuthFailure::Hashing, login.username)),
    }
}

/// The identity records as a table from user name to stored hash. It is
/// meant for records whose names are distinct.
pub open spec fn table_of(records: Seq<(Seq<char>, Seq<char>)>) -> Map<Seq<char>, Seq<char>> {
    Map::new(
        |name: Seq<char>| exists|i: int| 0 <= i < records.len() && #[trigger] records[i].0 == name,
        |name: Seq<char>|
            records[choose|i: int| 0 <= i < records.len() && #[trigger] records[i].0 == name].1,
    )
}

/// Whether no user name occurs twice among `records`.
pub open spec fn distinct_names(records: Seq<(Seq<char>, Seq<char>)>) -> bool {
    forall|i: int, j: int|
        0 <= i < j < records.len() ==> (#[trigger] records[i]).0 != (#[trigger] records[j]).0
}

/// The texts of the records that `users` holds.
pub open spec fn record_texts(users: Seq<(String, String)>) -> Seq<(Seq<char>, Seq<char>)> {
    Seq::new(users.len(), |i: int| (users[i].0@, users[i].1@))
}

/// Among records with distinct names, a record is what the table holds for
/// its name.
pub proof fn lemma_table_holds_record(records: Seq<(Seq<char>, Seq<char>)>, i: int)
    requires
        distinct_names(records),
        0 <= i < records.len(),
    ensures
        table_of(records).contains_key(records[i].0),
        table_of(records)[records[i].0] == records[i].1,
{
}

/// Adding a record under a new name adds one entry to the table.
pub proof fn lemma_table_after_push(
    records: Seq<(Seq<char>, Seq<char>)>,
    name: Seq<char>,
    secret: Seq<char>,
)
    requires
        distinct_names(records),
        !table_of(records).contains_key(name),
    ensures
        distinct_names(records.push((name, secret))),
        table_of(records.push((name, secret))) == table_of(records).insert(name, secret),
{
    let longer = records.push((name, secret));
    let n = records.len() as int;
    assert forall|key: Seq<char>| #[trigger]
        table_of(longer).contains_key(key) == table_of(records).insert(name, secret).contains_key(
            key,
        ) by {
        if table_of(records).contains_key(key) {
            let i = choose|i: int| 0 <= i < records.len() && #[trigger] records[i].0 == key;
            assert(longer[i].0 == key);
        }
        if key == name {
            assert(longer[n].0 == key);
        }
    }
}

/// What enrolling and logging in mean, over a table of identity records.
pub trait Auth {
    /// The identity records: each user name with the hash of its password.
    spec fn identities(&self) -> Map<Seq<char>, Seq<char>>;

    /// Enrolls `login.username` with a salted hash of `login.password`. A
    /// name that is taken is refused with `DuplicateUser`; a new name is
    /// recorded with a hash that its password matches, unless no hash could
    /// be made.
    fn add_user(&mut self, login: &LoginInfo) -> (r: Result<bool, AuthError>)
        ensures
            old(self).identities().contains_key(login.username@) ==> {
                &&& r matches Err(e) && e.is(AuthFailure::DuplicateUser, login.username@)
                &&& final(self).identities() == old(self).identities()
            },
            !old(self).identities().contains_key(login.username@) ==> match r {
                Ok(added) => {
                    &&& added
                    &&& exists|hash: Seq<char>|
                        {
                            &&& bcrypt_verdict(login.password@, hash) == Some(true)
                            &&& final(self).identities() == old(self).identities().insert(
                                login.username@,
                                hash,
                            )
                        }
                },
                Err(e) => {
                    &&& e.is(AuthFailure::Hashing, login.username@)
                    &&& final(self).identities() == old(self).identities()
                },
            },
    ;

    /// Checks a session token against the system clock.
    fn auth_cookie(&self, cookie: &str) -> (r: Result<String, AuthError>)
        ensures
            exists|now: u128| answers(r, cookie_verdict(cookie@, now), cookie@),
    ;

    /// Logs a user in: a fresh token when the password matches the stored
    /// hash, granted at the present moment of the system clock.
    fn auth_user(&self, login: &LoginInfo) -> (r: Result<String, AuthError>)
        ensures
            exists|now: u128|
                answers(
                    r,
                    login_verdict(self.identities(), login.username@, login.password@, now),
                    login.username@,
                ),
    ;
}

/// The identity records of one backing store, by user name.
pub struct SqliteAuth {
    path: String,
    users: Vec<(String, String)>,
}

impl SqliteAuth {
    #[verifier::type_invariant]
    spec fn names_are_distinct(self) -> bool {
        distinct_names(record_texts(self.users@))
    }

    /// The records in the order in which they were added.
    pub closed spec fn records(self) -> Seq<(Seq<char>, Seq<char>)> {
        record_texts(self.users@)
    }

    /// The name of the backing store that the records belong to.
    pub closed spec fn store_name(self) -> Seq<char> {
        self.path@
    }

    /// An empty table of identity records for the backing store at `path`.
    pub fn new(path: &str) -> (auth: Self)
        ensures
            auth.records() == Seq::<(Seq<char>, Seq<char>)>::empty(),
            auth.identities() == Map::<Seq<char>, Seq<char>>::empty(),
            auth.store_name() == path@,
    {
        SqliteAuth { path: String::from_str(path), users: Vec::new() }
    }

    /// The name of the backing store that the records belong to.
    pub fn path(&self) -> (path: &str)
        ensures
            path@ == self.store_name(),
    {
        self.path.as_str()
    }

    /// Where the record of `name` stands.
    fn position(&self, name: &String) -> (at: Option<usize>)
        ensures
            match at {
                Some(i) => i < self.users.len() && self.users[i as int].0@ == name@,
                None => forall|i: int| 0 <= i < self.users.len() ==> self.users[i].0@ != name@,
            },
    {
        let mut i: usize = 0;
        while i < self.users.len()
            invariant
                i <= self.users.len(),
                forall|k: int| 0 <= k < i ==> self.users[k].0@ != name@,
            decreases self.users.len() - i,
        {
            if self.users[i].0 == *name {
                return Some(i);
            }
            i = i + 1;
        }
        None
    }

    /// The stored hash of `username`, if the name is enrolled.
    pub fn secret(&self, username: &str) -> (found: Option<String>)
        ensures
            match found {
                Some(hash) => self.identities().contains_key(username@) && hash@
                    == self.identities()[username@],
                None => !self.identities().contains_key(username@),
            },
    {
        proof {
            use_type_invariant(self);
        }
        let name = String::from_str(username);
        match self.position(&name) {
            Some(i) => {
                proof {
                    lemma_table_holds_record(self.records(), i as int);
                }
                Some(self.users[i].1.clone())
            },
            None => None,
        }
    }

    /// Records `username` with the hash `secret`, unless the name is taken.
    pub fn add_hashed(&mut self, username: &str, secret: String) -> (r: Result<bool, AuthError>)
        ensures
            match r {
                Ok(added) => {
                    &&& added
                    &&& !old(self).identities().contains_key(username@)
                    &&& final(self).identities() == old(self).identities().insert(
                        username@,
                        secret@,
                    )
                    &&& final(self).records() == old(self).records().push((username@, secret@))
                },
                Err(e) => {
                    &&& old(self).identities().contains_key(username@)
                    &&& e.is(AuthFailure::DuplicateUser, username@)
                    &&& final(self).identities() == old(self).identities()
                    &&& final(self).records() == old(self).records()
                },
            },
            final(self).store_name() == old(self).store_name(),
    {
        proof {
            use_type_invariant(&*self);
        }
        match self.secret(username) {
            Some(_) => Err(AuthError::new(AuthFailure::DuplicateUser, username)),
            None => {
                let name = String::from_str(username);
                proof {
                    lemma_table_after_push(self.records(), username@, secret@);
                    assert(record_texts(self.users@.push((name, secret))) =~= self.records().push(
                        (username@, secret@),
                    ));
                }
                let mut users: Vec<(String, String)> = Vec::new();
                core::mem::swap(&mut self.users, &mut users);
                users.push((name, secret));
                core::mem::swap(&mut self.users, &mut users);
                Ok(true)
            },
        }
    }

    /// Logs a user in at the moment `now`.
    pub fn auth_user_at(&self, login: &LoginInfo, now: u128) -> (r: Result<String, AuthError>)
        ensures
            answers(
                r,
                login_verdict(self.identities(), login.username@, login.password@, now),
                login.username@,
            ),
    {
        match self.secret(login.username) {
            None => Err(AuthError::new(AuthFailure::UnknownUser, login.username)),
            Some(stored) => {
                let checked = match bcrypt_verify(login.password, stored.as_str()) {
                    Ok(matched) => Some(matched),
                    Err(_) => None,
                };
                grant(login, checked, now)
            },
        }
    }
}

impl Auth for SqliteAuth {
    closed spec fn identities(&self) -> Map<Seq<char>, Seq<char>> {
        table_of(self.records())
    }

    fn add_user(&mut self, login: &LoginInfo) -> (r: Result<bool, AuthError>)
        ensures
            final(self).store_name() == old(self).store_name(),
    {
        match self.secret(login.username) {
            Some(_) => Err(AuthError::new(AuthFailure::DuplicateUser, login.username)),
            None => match bcrypt_hash(login.password) {
                Ok(hashed) => self.add_hashed(login.username, hashed),
                Err(_) => Err(AuthError::new(AuthFailure::Hashing, login.username)),
            },
        }
    }

    fn auth_cookie(&self, cookie: &str) -> (r: Result<String, AuthError>) {
        auth_cookie(cookie)
    }

    fn auth_user(&self, login: &LoginInfo) -> (r: Result<String, AuthError>) {
        let now = epoch_millis();
        self.auth_user_at(login, now)
    }
}

/// The user whom a valid session token names.
#[derive(Debug)]
pub struct AuthKey(pub String);

/// The message with which the request guard refuses a token: `Expired` where
/// the expiry has been reached, `InvalidAuth` where the text is no token. The
/// guard refuses with these two kinds only.
pub open spec fn guard_text(kind: AuthFailure) -> Seq<char> {
    match kind {
        AuthFailure::Expired => "Expired"@,
        _ => "InvalidAuth"@,
    }
}

impl AuthKey {
    /// Whether `r` is what `verdict` calls for: the key of the user it
    /// grants, or the failure it names, under the guard's message for it.
    pub open spec fn answers(
        r: Result<AuthKey, AuthError>,
        verdict: Result<Seq<char>, AuthFailure>,
    ) -> bool {
        match verdict {
            Ok(name) => r matches Ok(key) && key.0@ == name,
            Err(kind) => r matches Err(e) && e.kind == kind && e.msg@ == guard_text(kind),
        }
    }

    /// The failure of `kind`, under the guard's message for it.
    fn refusal(kind: AuthFailure) -> (e: AuthError)
        ensures
            e.kind == kind,
            e.msg@ == guard_text(kind),
    {
        let msg = match kind {
            AuthFailure::Expired => String::from_str("Expired"),
            _ => String::from_str("InvalidAuth"),
        };
        AuthError { kind, msg }
    }

    /// The key of the user that `cookie` names, if the token is valid at the
    /// moment `now`. A text that is no token is refused as `Malformed`, a
    /// token whose expiry has been reached as `Expired`.
    pub fn from_cookie_at(cookie: &str, now: u128) -> (r: Result<AuthKey, AuthError>)
        ensures
            AuthKey::answers(r, cookie_verdict(cookie@, now)),
    {
        match auth_cookie_at(cookie, now) {
            Ok(name) => Ok(AuthKey(name)),
            Err(e) => Err(AuthKey::refusal(e.kind)),
        }
    }

    /// The key of the user that `cookie` names, if the token is valid by the
    /// system clock.
    pub fn from_cookie(cookie: &str) -> (r: Result<AuthKey, AuthError>)
        ensures
            exists|now: u128| AuthKey::answers(r, cookie_verdict(cookie@, now)),
    {
        let now = epoch_millis();
        AuthKey::from_cookie_at(cookie, now)
    }
}

/// What the server hands back on a login: the cookie to set, and the body of
/// the reply.
pub struct Welcome {
    pub cookie: &'static str,
    pub token: String,
    pub greeting: String,
}

/// What the server hands back on a logout: the cookie to remove, and the body
/// of the reply.
pub struct Farewell {
    pub cookie: &'static str,
    pub reply: String,
}

/// Whether `r` is the reply to a login that came to `verdict`: on a grant,
/// the token under the session cookie's name with a greeting of the user; on
/// any failure, nothing.
pub open spec fn welcomes(
    r: Option<Welcome>,
    verdict: Result<Seq<char>, AuthFailure>,
    username: Seq<char>,
) -> bool {
    match verdict {
        Ok(token) => {
            &&& r matches Some(w)
            &&& w.cookie@ == AUTH_COOKIE@
            &&& w.token@ == token
            &&& w.greeting@ == "hello "@ + username
        },
        Err(_) => r is None,
    }
}

/// Turns the outcome of a login into the server's reply.
pub fn welcome(granted: Result<String, AuthError>, username: &str) -> (r: Option<Welcome>)
    ensures
        match granted {
            Ok(token) => welcomes(r, Ok(token@), username@),
            Err(e) => r is None,
        },
{
    match granted {
        Ok(token) => Some(
            Welcome {
                cookie: AUTH_COOKIE,
                token,
                greeting: String::from_str("hello ").concat(username),
            },
        ),
        Err(_) => None,
    }
}

/// Logs a user in at the moment `now`, and says what the server replies.
pub fn login_at(auth: &SqliteAuth, login_info: &LoginInfo, now: u128) -> (r: Option<Welcome>)
    ensures
        welcomes(
            r,
            login_verdict(auth.identities(), login_info.username@, login_info.password@, now),
            login_info.username@,
        ),
{
    welcome(auth.auth_user_at(login_info, now), login_info.username)
}

/// Logs a user in at the present moment of the system clock, and says what
/// the server replies.
pub fn login(auth: &SqliteAuth, login_info: &LoginInfo) -> (r: Option<Welcome>)
    ensures
        exists|now: u128|
            welcomes(
                r,
                login_verdict(auth.identities(), login_info.username@, login_info.password@, now),
                login_info.username@,
            ),
{
    let now = epoch_millis();
    login_at(auth, login_info, now)
}

/// Ends a session: the session cookie is to be removed, and the reply is
/// `OK`.
pub fn logout() -> (r: Farewell)
    ensures
        r.cookie@ == AUTH_COOKIE@,
        r.reply@ == "OK"@,
{
    Farewell { cookie: AUTH_COOKIE, reply: String::from_str("OK") }
}

/// Against a record that holds a hash of the password, logging in grants a
/// token; against a record whose hash the password does not match, it fails
/// with `InvalidCredentials`; without a record, with `UnknownUser`.
pub proof fn lemma_login_after_enrolling(
    table: Map<Seq<char>, Seq<char>>,
    username: Seq<char>,
    password: Seq<char>,
    hash: Seq<char>,
    now: u128,
)
    ensures
        bcrypt_verdict(password, hash) == Some(true) ==> login_verdict(
            table.insert(username, hash),
            username,
            password,
            now,
        ) == Ok::<Seq<char>, AuthFailure>(token_text(expiry_from(now), username)),
        bcrypt_verdict(password, hash) == Some(false) ==> login_verdict(
            table.insert(username, hash),
            username,
            password,
            now,
        ) == Err::<Seq<char>, AuthFailure>(AuthFailure::InvalidCredentials),
        !table.contains_key(username) ==> login_verdict(table, username, password, now) == Err::<
            Seq<char>,
            AuthFailure,
        >(AuthFailure::UnknownUser),
{
}

/// A token is valid for the user it was written for at every moment before
/// its expiry, and expired at every moment from the expiry on.
pub proof fn lemma_token_round_trip(username: Seq<char>, expiry: u128, now: u128)
    ensures
        now < expiry ==> cookie_verdict(token_text(expiry, username), now) == Ok::<
            Seq<char>,
            AuthFailure,
        >(username),
        now >= expiry ==> cookie_verdict(token_text(expiry, username), now) == Err::<
            Seq<char>,
            AuthFailure,
        >(AuthFailure::Expired),
{
    lemma_token_fields_of_text(expiry, username);
}

/// The token granted at `granted` is valid for its user at every moment
/// before `granted` plus the length of a session.
pub proof fn lemma_granted_token_is_valid(username: Seq<char>, granted: u128, now: u128)
    requires
        now < expiry_from(granted),
    ensures
        cookie_verdict(token_text(expiry_from(granted), username), now) == Ok::<
            Seq<char>,
            AuthFailure,
        >(username),
{
    lemma_token_round_trip(username, expiry_from(granted), now);
}

} // verus!
