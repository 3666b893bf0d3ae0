//! Users and what they own: sessions, the way they authenticate, and the
//! email addresses associated to them.

use crate::clock::{clock_shows, unix_now};
use crate::error::{clock_text, gone_text, taken_text, Error, ErrorView};
use crate::hashing::{bcrypt_verdict, hash, hash_text, peppered_digest, verify};
use crate::ident::{gen_id, is_alphanumeric_text, ID_LENGTH};
pub use crate::model::AuthenticationMethod;
use crate::model::{SessionView, StoreView, UserView, EMAIL_TOKEN_LIFETIME, SESSION_LIFETIME};
use crate::scope::same_text;
use crate::store::{EmailToken, SessionRecord, Store, UserRecord};
use crate::table::{chosen, lemma_chosen, lemma_chosen_step, Table};
use vstd::prelude::*;

verus! {

/// A user, as read from the store.
#[derive(Debug, Clone)]
pub struct User {
    pub id: String,
    pub name: String,
    pub email: String,
}

/// What is needed to register a user.
pub struct UserBuilder {
    pub name: String,
    pub email: String,
    pub authentication: Authentication,
}

/// The secret that a user authenticates with.
pub enum Authentication {
    Password { password: String, pepper: String },
}

/// A session as it is handed to its owner.
#[derive(Debug, Clone)]
pub struct SessionDescription {
    pub id: String,
    pub expires_at: i64,
    pub last_used: i64,
}

/// The pending verification of an address.
#[derive(Debug, Clone)]
pub struct EmailAssociation {
    pub verification_token: String,
    pub expires_at: i64,
}

/// The prefix that marks a token as a user session.
pub open spec fn session_prefix() -> Seq<char> {
    "US_"@
}

impl AuthenticationMethod {
    /// The name under which a method is stored.
    pub open spec fn name(self) -> Seq<char> {
        match self {
            AuthenticationMethod::Password => "Password"@,
        }
    }

    /// The method that a text names, if it names one.
    pub open spec fn parse(text: Seq<char>) -> Option<AuthenticationMethod> {
        if text == AuthenticationMethod::Password.name() {
            Some(AuthenticationMethod::Password)
        } else {
            None
        }
    }

    /// The method that a secret belongs to.
    pub open spec fn method_of(authentication: &Authentication) -> AuthenticationMethod {
        match authentication {
            Authentication::Password { .. } => AuthenticationMethod::Password,
        }
    }

    /// The name under which the method is stored.
    pub fn to_string(&self) -> (r: String)
        ensures
            r@ == self.name(),
    {
        match self {
            AuthenticationMethod::Password => String::from_str("Password"),
        }
    }

    /// The method that a stored name names. Fails with `UnknownEnumVariant`
    /// exactly where the name is no method.
    pub fn from_stored(name: &str) -> (r: Result<AuthenticationMethod, Error>)
        ensures
            match r {
                Ok(method) => Self::parse(name@) == Some(method),
                Err(e) => Self::parse(name@) is None && e@ == ErrorView::UnknownEnumVariant,
            },
    {
        match AuthenticationMethod::from_str(name) {
            Ok(method) => Ok(method),
            Err(_) => Err(Error::UnknownEnumVariant),
        }
    }

    /// Parses a stored name: exact match.
    pub fn from_str(s: &str) -> (r: Result<AuthenticationMethod, ()>)
        ensures
            r == match Self::parse(s@) {
                Some(m) => Ok::<AuthenticationMethod, ()>(m),
                None => Err::<AuthenticationMethod, ()>(()),
            },
    {
        if same_text(s, "Password") {
            Ok(AuthenticationMethod::Password)
        } else {
            Err(())
        }
    }
}

impl Default for AuthenticationMethod {
    /// The method of a user for whom none is stored: the password.
    fn default() -> (r: Self)
        ensures
            r == AuthenticationMethod::Password,
    {
        AuthenticationMethod::Password
    }
}

impl From<&Authentication> for AuthenticationMethod {
    fn from(x: &Authentication) -> (r: Self) {
        match x {
            Authentication::Password { .. } => AuthenticationMethod::Password,
        }
    }
}

impl vstd::std_specs::convert::FromSpecImpl<&Authentication> for AuthenticationMethod {
    open spec fn obeys_from_spec() -> bool {
        true
    }

    open spec fn from_spec(x: &Authentication) -> Self {
        AuthenticationMethod::method_of(x)
    }
}

impl User {
    /// Whether this handle shows the row stored under `id`.
    pub open spec fn shows(&self, id: Seq<char>, row: UserView) -> bool {
        self.id@ == id && self.name@ == row.name && self.email@ == row.email
    }

    /// The user stored under an id, if there is one.
    pub fn get(store: &Store, id: String) -> (r: Result<Option<User>, Error>)
        ensures
            match r {
                Ok(Some(user)) => store@.users.contains_key(id@) && user.shows(
                    id@,
                    store@.users[id@],
                ),
                Ok(None) => !store@.users.contains_key(id@),
                Err(_) => false,
            },
    {
        match store.users.get(id.as_str()) {
            Some(row) => Ok(Some(User { id, name: row.name.clone(), email: row.email.clone() })),
            None => Ok(None),
        }
    }

    /// Registers a user under a fresh random id, with a fresh random salt
    /// for the password. The password given is then the one that the stored
    /// hash is found to match. Fails with `Conflict`, and changes nothing,
    /// only where the id drawn is taken.
    pub fn create(store: &mut Store, builder: UserBuilder) -> (r: Result<User, Error>)
        ensures
            match r {
                Ok(user) => !old(store)@.users.contains_key(user.id@) && user.id@.len()
                    == ID_LENGTH && is_alphanumeric_text(user.id@) && user.name@ == builder.name@
                    && user.email@ == builder.email@ && accepts(
                    final(store)@,
                    user.id@,
                    &builder.authentication,
                ) && exists|salt: Seq<u8>|
                    final(store)@ == #[trigger] registration(
                        old(store)@,
                        user.id@,
                        &builder,
                        salt,
                    ),
                Err(e) => e@ == ErrorView::Conflict(taken_text()) && final(store)@ == old(store)@
                    && exists|id: Seq<char>|
                    id.len() == ID_LENGTH && is_alphanumeric_text(id)
                        && #[trigger] old(store)@.users.contains_key(id),
            },
    {
        let id = gen_id();
        let salt = crate::ident::random_salt();
        let ghost drawn = id@;
        let r = User::create_with(store, id, salt, builder);
        proof {
            if r is Err {
                assert(old(store)@.users.contains_key(drawn));
            }
            if r is Ok {
                assert(store@ == registration(old(store)@, r->Ok_0.id@, &builder, salt@));
            }
        }
        r
    }

    /// Registers a user under the given id, the password hashed under the
    /// given salt. The password given is then the one that the stored hash is
    /// found to match. Fails with `Conflict`, and changes nothing, exactly
    /// where the id is taken.
    pub fn create_with(store: &mut Store, id: String, salt: [u8; 16], builder: UserBuilder) -> (r:
        Result<User, Error>)
        ensures
            match r {
                Ok(user) => !old(store)@.users.contains_key(id@) && user.id@ == id@ && user.name@
                    == builder.name@ && user.email@ == builder.email@ && final(store)@
                    == registration(old(store)@, id@, &builder, salt@) && accepts(
                    final(store)@,
                    id@,
                    &builder.authentication,
                ),
                Err(e) => old(store)@.users.contains_key(id@) && e@ == ErrorView::Conflict(
                    taken_text(),
                ) && final(store)@ == old(store)@,
            },
    {
        if store.users.contains_key(id.as_str()) {
            return Err(Error::taken());
        }
        let method = AuthenticationMethod::from(&builder.authentication);
        let hashed = match &builder.authentication {
            Authentication::Password { password, pepper } => hash(
                password.as_str(),
                salt,
                pepper.as_str(),
            ),
        };
        let password_hash = match hashed {
            Ok(text) => text,
            Err(e) => {
                return Err(Error::Bcrypt(e));
            },
        };
        let row = UserRecord {
            name: builder.name.clone(),
            email: builder.email.clone(),
            method,
            password_hash: Some(password_hash),
            emails: Table::new(),
        };
        store.users.insert(id.clone(), row);
        Ok(User { id, name: builder.name, email: builder.email })
    }

    /// Deletes the user, with every session and every membership that the
    /// user owns.
    pub fn delete(self, store: &mut Store) -> (r: Result<(), Error>)
        ensures
            r is Ok,
            final(store)@ == old(store)@.without_user(self.id@),
    {
        store.users.remove(self.id.as_str());
        store.drop_sessions_of(self.id.as_str());
        store.drop_memberships_of(self.id.as_str());
        Ok(())
    }

    /// Stores the name and the primary address of this handle in the
    /// user's row. Where the row is gone nothing changes.
    pub fn update(&self, store: &mut Store) -> (r: Result<(), Error>)
        ensures
            r is Ok,
            final(store)@ == old(store)@.with_user_changed(
                self.id@,
                old(store)@.users[self.id@].with_profile(self.name@, self.email@),
            ),
    {
        match store.users.replace(self.id.as_str(), UserRecord::blank()) {
            Some(row) => {
                let changed = UserRecord {
                    name: self.name.clone(),
                    email: self.email.clone(),
                    method: row.method,
                    password_hash: row.password_hash,
                    emails: row.emails,
                };
                let ghost shown = changed@;
                store.users.replace(self.id.as_str(), changed);
                assert(store@.users =~= old(store)@.users.insert(self.id@, shown));
            },
            None => {},
        }
        Ok(())
    }

    /// A user whose primary address is `email`, if there is one.
    pub fn get_by_email(store: &Store, email: &str) -> (r: Result<Option<User>, Error>)
        ensures
            match r {
                Ok(Some(user)) => store@.users.contains_key(user.id@) && user.shows(
                    user.id@,
                    store@.users[user.id@],
                ) && user.email@ == email@,
                Ok(None) => forall|id: Seq<char>|
                    store@.users.contains_key(id) ==> store@.users[id].email != email@,
                Err(_) => false,
            },
    {
        let wanted = email.to_owned();
        let n = store.users.len();
        let mut i: usize = 0;
        while i < n
            invariant
                i <= n,
                n == store.users.keys().len(),
                wanted@ == email@,
                forall|j: int|
                    0 <= j < i ==> store@.users[#[trigger] store.users.keys()[j]].email != email@,
            decreases n - i,
        {
            let row = store.users.value_at(i);
            if row.email == wanted {
                let id = store.users.key_at(i).clone();
                return Ok(Some(User { id, name: row.name.clone(), email: row.email.clone() }));
            }
            i = i + 1;
        }
        proof {
            assert forall|id: Seq<char>| store@.users.contains_key(id) implies store@.users[id].email
                != email@ by {
                assert(store.users.keys().contains(id));
                let j = choose|j: int|
                    0 <= j < store.users.keys().len() && store.users.keys()[j] == id;
                assert(store@.users[store.users.keys()[j]].email != email@);
            }
        }
        Ok(None)
    }

    /// Removes a session, whoever owns it. Removing one that does not exist
    /// is no failure.
    pub fn delete_session(&self, store: &mut Store, session: &str) -> (r: Result<(), Error>)
        ensures
            r is Ok,
            final(store)@ == old(store)@.with_sessions(old(store)@.sessions.remove(session@)),
    {
        store.sessions.remove(session);
        Ok(())
    }

    /// Removes every session of this user.
    pub fn delete_sessions(&self, store: &mut Store) -> (r: Result<(), Error>)
        ensures
            r is Ok,
            final(store)@ == old(store)@.without_sessions_of(self.id@),
    {
        store.drop_sessions_of(self.id.as_str());
        Ok(())
    }

    /// Whether a password is the one that the stored hash was made of.
    /// `false` where the user has no row or no password; the failure of the
    /// hashing crate where the stored text is no well-formed hash.
    pub fn is_password_correct(&self, store: &Store, provided_password: &str, pepper: &str) -> (r:
        Result<bool, Error>)
        ensures
            match r {
                Ok(correct) => correct == password_verdict(
                    store@,
                    self.id@,
                    provided_password@,
                    pepper@,
                ) && password_readable(store@, self.id@, provided_password@, pepper@),
                Err(e) => e@ == ErrorView::Bcrypt && !password_readable(
                    store@,
                    self.id@,
                    provided_password@,
                    pepper@,
                ),
            },
    {
        let stored = match store.users.get(self.id.as_str()) {
            Some(row) => match &row.password_hash {
                Some(text) => text,
                None => {
                    return Ok(false);
                },
            },
            None => {
                return Ok(false);
            },
        };
        match verify(stored.as_str(), provided_password, pepper) {
            Ok(correct) => Ok(correct),
            Err(e) => Err(Error::Bcrypt(e)),
        }
    }

    /// The sessions that this user owns, each once.
    pub fn list_sessions(&self, store: &Store) -> (r: Result<Vec<SessionDescription>, Error>)
        ensures
            match r {
                Ok(list) => lists_sessions_of(list@, store@, self.id@),
                Err(_) => false,
            },
    {
        let mut list: Vec<SessionDescription> = Vec::new();
        let n = store.sessions.len();
        let ghost keys = store.sessions.keys();
        let ghost wanted = store@.sessions_of(self.id@);
        let ghost ids = Seq::<Seq<char>>::empty();
        proof {
            if n > 0 {
                lemma_chosen_step(keys, wanted, 0);
            } else {
                assert(keys.take(0) =~= keys);
            }
        }
        let mut i: usize = 0;
        while i < n
            invariant
                i <= n,
                n == keys.len(),
                keys == store.sessions.keys(),
                wanted == store@.sessions_of(self.id@),
                ids == chosen(keys.take(i as int), wanted),
                ids.len() == list@.len(),
                forall|a: int|
                    0 <= a < list@.len() ==> (#[trigger] list@[a]).id@ == ids[a]
                        && list@[a].describes(store@.sessions[ids[a]]),
            decreases n - i,
        {
            let row = store.sessions.value_at(i);
            proof {
                lemma_chosen_step(keys, wanted, i as int);
            }
            if row.user_id == self.id {
                let id = store.sessions.key_at(i).clone();
                list.push(
                    SessionDescription { id, expires_at: row.expires_at, last_used: row.last_used },
                );
                proof {
                    ids = ids.push(keys[i as int]);
                }
            }
            i = i + 1;
        }
        proof {
            assert(keys.take(n as int) =~= keys);
            lemma_chosen(keys, wanted);
            assert forall|a: int| 0 <= a < list@.len() implies wanted.contains(
                #[trigger] list@[a].id@,
            ) && list@[a].describes(store@.sessions[list@[a].id@]) by {
                assert(ids[a] == list@[a].id@);
                assert(ids.contains(ids[a]));
            }
            assert forall|a: int, b: int| 0 <= a < b < list@.len() implies list@[a].id@
                != list@[b].id@ by {
                assert(ids[a] == list@[a].id@ && ids[b] == list@[b].id@);
            }
            assert forall|token: Seq<char>| wanted.contains(token) implies exists|a: int|
                0 <= a < list@.len() && #[trigger] list@[a].id@ == token by {
                assert(keys.contains(token));
                assert(ids.contains(token));
                let a = choose|a: int| 0 <= a < ids.len() && ids[a] == token;
                assert(list@[a].id@ == token);
            }
            assert(lists_sessions_of(list@, store@, self.id@));
        }
        Ok(list)
    }

    /// Resolves a session token at the current time; see
    /// [`User::get_by_session_at`].
    pub fn get_by_session(store: &mut Store, session: &str) -> (r: Result<Option<User>, Error>)
        ensures
            exists|now: int|
                clock_shows(now) && final(store)@ == #[trigger] old(store)@.after_resolve(
                    session@,
                    now,
                ) && match r {
                    Ok(Some(user)) => old(store)@.resolved(session@, now) == Some(user.id@)
                        && user.shows(user.id@, old(store)@.users[user.id@]),
                    Ok(None) => old(store)@.resolved(session@, now) is None,
                    Err(_) => false,
                },
    {
        let now = unix_now();
        let r = User::get_by_session_at(store, session, now);
        proof {
            assert(store@ == old(store)@.after_resolve(session@, now as int));
        }
        r
    }

    /// Resolves a session token at `now`. An unknown token resolves to
    /// nobody. A session whose expiry has passed is removed and resolves to
    /// nobody. A live session has its last use set to `now` and resolves to
    /// its owner, or to nobody where the owner's row is gone.
    pub fn get_by_session_at(store: &mut Store, session: &str, now: i64) -> (r: Result<
        Option<User>,
        Error,
    >)
        ensures
            final(store)@ == old(store)@.after_resolve(session@, now as int),
            match r {
                Ok(Some(user)) => old(store)@.resolved(session@, now as int) == Some(user.id@)
                    && user.shows(user.id@, old(store)@.users[user.id@]),
                Ok(None) => old(store)@.resolved(session@, now as int) is None,
                Err(_) => false,
            },
    {
        let (user_id, expires_at) = match store.sessions.get(session) {
            Some(row) => (row.user_id.clone(), row.expires_at),
            None => {
                return Ok(None);
            },
        };
        if now > expires_at {
            store.sessions.remove(session);
            return Ok(None);
        }
        store.sessions.replace(
            session,
            SessionRecord { user_id: user_id.clone(), expires_at, last_used: now },
        );
        User::get(store, user_id)
    }

    /// Whether an address is associated to this user and verified.
    pub fn is_email_verified(&self, store: &Store, email: &str) -> (r: Result<bool, Error>)
        ensures
            match r {
                Ok(verified) => verified == store@.email_verified(self.id@, email@),
                Err(_) => false,
            },
    {
        match store.users.get(self.id.as_str()) {
            Some(row) => match row.emails.get(email) {
                Some(verified) => Ok(*verified),
                None => Ok(false),
            },
            None => Ok(false),
        }
    }

    /// Redeems a verification token at the current time; see
    /// [`User::verifiy_email_at`].
    pub fn verifiy_email(&self, store: &mut Store, verification_token: &str) -> (r: Result<
        (),
        Error,
    >)
        ensures
            exists|now: int|
                clock_shows(now) && #[trigger] verification_outcome(
                    old(store)@,
                    final(store)@,
                    self.id@,
                    verification_token@,
                    now,
                    r,
                ),
    {
        let now = unix_now();
        let r = self.verifiy_email_at(store, verification_token, now);
        proof {
            assert(verification_outcome(
                old(store)@,
                store@,
                self.id@,
                verification_token@,
                now as int,
                r,
            ));
        }
        r
    }

    /// Redeems a verification token at `now`. Fails with `UnknownToken`
    /// where the token does not exist or belongs to another user, with
    /// `ExpiredToken` where its expiry has passed; nothing changes then.
    /// Otherwise the address of the token becomes this user's primary
    /// address, is marked verified, and the token is removed.
    pub fn verifiy_email_at(&self, store: &mut Store, verification_token: &str, now: i64) -> (r:
        Result<(), Error>)
        ensures
            verification_outcome(
                old(store)@,
                final(store)@,
                self.id@,
                verification_token@,
                now as int,
                r,
            ),
    {
        let (owner, email, expires_at) = match store.email_tokens.get(verification_token) {
            Some(pending) => (pending.user_id.clone(), pending.email.clone(), pending.expires_at),
            None => {
                return Err(Error::UnknownToken);
            },
        };
        if owner != self.id {
            return Err(Error::UnknownToken);
        }
        if now > expires_at {
            return Err(Error::ExpiredToken);
        }
        match store.users.replace(self.id.as_str(), UserRecord::blank()) {
            Some(row) => {
                let mut emails = row.emails;
                emails.replace(email.as_str(), true);
                let changed = UserRecord {
                    name: row.name,
                    email,
                    method: row.method,
                    password_hash: row.password_hash,
                    emails,
                };
                let ghost shown = changed@;
                store.users.replace(self.id.as_str(), changed);
                assert(store@.users =~= old(store)@.users.insert(self.id@, shown));
                assert(shown.emails =~= old(store)@.users[self.id@].verified(email@).emails);
            },
            None => {},
        }
        store.email_tokens.remove(verification_token);
        Ok(())
    }

    /// Associates an address to this user under a fresh random token, at
    /// the current time; see [`User::associate_email_with`].
    pub fn associate_email(&self, store: &mut Store, email: &str) -> (r: Result<
        EmailAssociation,
        Error,
    >)
        ensures
            exists|token: Seq<char>, now: int|
                token.len() == ID_LENGTH && is_alphanumeric_text(token) && clock_shows(now)
                    && #[trigger] association_outcome(
                    old(store)@,
                    final(store)@,
                    self.id@,
                    email@,
                    token,
                    now,
                    r,
                ),
    {
        let token = gen_id();
        let now = unix_now();
        let ghost shown = token@;
        let r = self.associate_email_with(store, email, token, now);
        proof {
            assert(association_outcome(
                old(store)@,
                store@,
                self.id@,
                email@,
                shown,
                now as int,
                r,
            ));
        }
        r
    }

    /// Associates an address to this user at `now`, to be verified with
    /// `token` within 7 days. Nothing changes on failure.
    pub fn associate_email_with(&self, store: &mut Store, email: &str, token: String, now: i64) -> (r:
        Result<EmailAssociation, Error>)
        ensures
            association_outcome(old(store)@, final(store)@, self.id@, email@, token@, now as int, r),
    {
        if now > i64::MAX - EMAIL_TOKEN_LIFETIME {
            return Err(Error::clock());
        }
        let expires_at = now + EMAIL_TOKEN_LIFETIME;
        if store.email_tokens.contains_key(token.as_str()) {
            return Err(Error::taken());
        }
        let known = match store.users.get(self.id.as_str()) {
            Some(row) => row.emails.contains_key(email),
            None => {
                return Err(Error::gone());
            },
        };
        if known {
            return Err(Error::taken());
        }
        match store.users.replace(self.id.as_str(), UserRecord::blank()) {
            Some(row) => {
                let mut row = row;
                row.emails.insert(email.to_owned(), false);
                let ghost shown = row@;
                store.users.replace(self.id.as_str(), row);
                assert(store@.users =~= old(store)@.users.insert(self.id@, shown));
            },
            None => {},
        }
        store.email_tokens.insert(
            token.clone(),
            EmailToken { user_id: self.id.clone(), email: email.to_owned(), expires_at },
        );
        Ok(EmailAssociation { verification_token: token, expires_at })
    }

    /// Opens a session for this user under a fresh random token, at the
    /// current time; see [`User::create_session_with`]. It fails, with
    /// `Conflict`, only where the token drawn is taken.
    pub fn create_session(&self, store: &mut Store) -> (r: Result<SessionDescription, Error>)
        ensures
            r is Err ==> r->Err_0@ == ErrorView::Conflict(taken_text()),
            exists|secret: Seq<char>, now: int|
                secret.len() == ID_LENGTH && is_alphanumeric_text(secret) && clock_shows(now)
                    && #[trigger] session_outcome(
                    old(store)@,
                    final(store)@,
                    self.id@,
                    secret,
                    now,
                    r,
                ),
    {
        let secret = gen_id();
        let now = unix_now();
        let ghost shown = secret@;
        let r = self.create_session_with(store, secret, now);
        proof {
            assert(session_outcome(old(store)@, store@, self.id@, shown, now as int, r));
        }
        r
    }

    /// Opens a session for this user at `now`. Its token is the prefix
    /// `US_` followed by `secret`; it expires 30 days after `now` and was
    /// last used at `now`. Nothing changes on failure.
    pub fn create_session_with(&self, store: &mut Store, secret: String, now: i64) -> (r: Result<
        SessionDescription,
        Error,
    >)
        ensures
            session_outcome(old(store)@, final(store)@, self.id@, secret@, now as int, r),
    {
        if now > i64::MAX - SESSION_LIFETIME {
            return Err(Error::clock());
        }
        let id = String::from_str("US_").concat(secret.as_str());
        let expires_at = now + SESSION_LIFETIME;
        let last_used = now;
        let added = store.sessions.insert(
            id.clone(),
            SessionRecord { user_id: self.id.clone(), expires_at, last_used },
        );
        if !added {
            return Err(Error::taken());
        }
        Ok(SessionDescription { id, expires_at, last_used })
    }

    /// The way this user authenticates, if the user has a row.
    pub fn get_authentication_method(&self, store: &Store) -> (r: Result<
        Option<AuthenticationMethod>,
        Error,
    >)
        ensures
            match r {
                Ok(Some(method)) => store@.users.contains_key(self.id@) && method
                    == store@.users[self.id@].method,
                Ok(None) => !store@.users.contains_key(self.id@),
                Err(_) => false,
            },
    {
        match store.users.get(self.id.as_str()) {
            Some(row) => Ok(Some(row.method)),
            None => Ok(None),
        }
    }

    /// Changes the way this user authenticates, the password hashed under
    /// a fresh random salt; see [`User::set_authentication_with`].
    pub fn set_authentication(&self, store: &mut Store, auth: Authentication) -> (r: Result<
        (),
        Error,
    >)
        ensures
            r is Ok,
            old(store)@.users.contains_key(self.id@) ==> accepts(final(store)@, self.id@, &auth),
            exists|salt: Seq<u8>|
                final(store)@ == #[trigger] authentication_change(
                    old(store)@,
                    self.id@,
                    &auth,
                    salt,
                ),
    {
        let salt = crate::ident::random_salt();
        let r = self.set_authentication_with(store, auth, salt);
        proof {
            assert(store@ == authentication_change(old(store)@, self.id@, &auth, salt@));
        }
        r
    }

    /// Changes the way this user authenticates, the password hashed under
    /// the given salt; the password given is then the one that the stored
    /// hash is found to match. Where the user's row is gone nothing changes.
    pub fn set_authentication_with(&self, store: &mut Store, auth: Authentication, salt: [u8; 16]) -> (r:
        Result<(), Error>)
        ensures
            r is Ok,
            final(store)@ == authentication_change(old(store)@, self.id@, &auth, salt@),
            old(store)@.users.contains_key(self.id@) ==> accepts(final(store)@, self.id@, &auth),
    {
        let method = AuthenticationMethod::from(&auth);
        let hashed = match &auth {
            Authentication::Password { password, pepper } => hash(
                password.as_str(),
                salt,
                pepper.as_str(),
            ),
        };
        let password_hash = match hashed {
            Ok(text) => text,
            Err(e) => {
                return Err(Error::Bcrypt(e));
            },
        };
        match store.users.replace(self.id.as_str(), UserRecord::blank()) {
            Some(row) => {
                let changed = UserRecord {
                    name: row.name,
                    email: row.email,
                    method,
                    password_hash: Some(password_hash),
                    emails: row.emails,
                };
                let ghost shown = changed@;
                store.users.replace(self.id.as_str(), changed);
                assert(store@.users =~= old(store)@.users.insert(self.id@, shown));
            },
            None => {},
        }
        Ok(())
    }
}

impl SessionDescription {
    /// Whether this description shows a stored session.
    pub open spec fn describes(&self, session: SessionView) -> bool {
        self.expires_at == session.expires_at && self.last_used == session.last_used
    }
}

/// What opening a session for `user` with `secret` at `now` does: the
/// token is `US_` and the secret; the session is stored unless the expiry
/// cannot be represented (`InvalidState`) or the token is taken
/// (`Conflict`).
pub open spec fn session_outcome(
    before: StoreView,
    after: StoreView,
    user: Seq<char>,
    secret: Seq<char>,
    now: int,
    r: Result<SessionDescription, Error>,
) -> bool {
    let token = session_prefix() + secret;
    match r {
        Ok(session) => {
            &&& now + SESSION_LIFETIME <= i64::MAX
            &&& !before.sessions.contains_key(token)
            &&& session.id@ == token
            &&& session.expires_at == now + SESSION_LIFETIME
            &&& session.last_used == now
            &&& after == before.with_session(token, user, now)
        },
        Err(e) => {
            &&& after == before
            &&& if now + SESSION_LIFETIME > i64::MAX {
                e@ == ErrorView::InvalidState(clock_text())
            } else {
                before.sessions.contains_key(token) && e@ == ErrorView::Conflict(taken_text())
            }
        },
    }
}

/// What associating `email` to `user` with `token` at `now` does. It fails,
/// and changes nothing, where the expiry cannot be represented
/// (`InvalidState`), the token is taken (`Conflict`), the user has no row
/// (`InvalidState`), or the address is associated to the user already
/// (`Conflict`), in this order.
pub open spec fn association_outcome(
    before: StoreView,
    after: StoreView,
    user: Seq<char>,
    email: Seq<char>,
    token: Seq<char>,
    now: int,
    r: Result<EmailAssociation, Error>,
) -> bool {
    match r {
        Ok(pending) => {
            &&& now + EMAIL_TOKEN_LIFETIME <= i64::MAX
            &&& !before.email_tokens.contains_key(token)
            &&& before.users.contains_key(user)
            &&& !before.users[user].emails.contains_key(email)
            &&& pending.verification_token@ == token
            &&& pending.expires_at == now + EMAIL_TOKEN_LIFETIME
            &&& after == before.with_association(user, email, token, now)
        },
        Err(e) => {
            &&& after == before
            &&& if now + EMAIL_TOKEN_LIFETIME > i64::MAX {
                e@ == ErrorView::InvalidState(clock_text())
            } else if before.email_tokens.contains_key(token) {
                e@ == ErrorView::Conflict(taken_text())
            } else if !before.users.contains_key(user) {
                e@ == ErrorView::InvalidState(gone_text())
            } else {
                before.users[user].emails.contains_key(email) && e@ == ErrorView::Conflict(
                    taken_text(),
                )
            }
        },
    }
}

/// What redeeming `token` for `user` at `now` does.
pub open spec fn verification_outcome(
    before: StoreView,
    after: StoreView,
    user: Seq<char>,
    token: Seq<char>,
    now: int,
    r: Result<(), Error>,
) -> bool {
    if !before.email_tokens.contains_key(token) || before.email_tokens[token].user_id != user {
        after == before && r is Err && r->Err_0@ == ErrorView::UnknownToken
    } else if now > before.email_tokens[token].expires_at {
        after == before && r is Err && r->Err_0@ == ErrorView::ExpiredToken
    } else {
        after == before.with_verification(token) && r is Ok
    }
}

/// The store after the way a user authenticates was changed, the password
/// hashed under a salt.
pub open spec fn authentication_change(
    before: StoreView,
    user: Seq<char>,
    auth: &Authentication,
    salt: Seq<u8>,
) -> StoreView {
    before.with_user_changed(
        user,
        before.users[user].with_authentication(
            AuthenticationMethod::method_of(auth),
            Some(password_text(auth, salt)),
        ),
    )
}

/// Whether a list shows the sessions of a user: each entry is a session of
/// the user with its times, no session is shown twice, and none is missing.
pub open spec fn lists_sessions_of(
    list: Seq<SessionDescription>,
    store: StoreView,
    user: Seq<char>,
) -> bool {
    &&& forall|i: int|
        0 <= i < list.len() ==> store.sessions_of(user).contains(#[trigger] list[i].id@)
            && list[i].describes(store.sessions[list[i].id@])
    &&& forall|i: int, j: int| 0 <= i < j < list.len() ==> list[i].id@ != list[j].id@
    &&& forall|token: Seq<char>|
        store.sessions_of(user).contains(token) ==> exists|i: int|
            0 <= i < list.len() && #[trigger] list[i].id@ == token
}

/// Whether the stored hash of a user can be held against a password: the
/// user has no row or no hash, or the hash is well formed.
pub open spec fn password_readable(
    store: StoreView,
    user: Seq<char>,
    password: Seq<char>,
    pepper: Seq<char>,
) -> bool {
    store.users.contains_key(user) && store.users[user].password_hash is Some ==> bcrypt_verdict(
        peppered_digest(password, pepper),
        store.users[user].password_hash->Some_0,
    ) is Some
}

/// Whether a password matches the stored hash of a user: `false` without a
/// row or a hash.
pub open spec fn password_verdict(
    store: StoreView,
    user: Seq<char>,
    password: Seq<char>,
    pepper: Seq<char>,
) -> bool {
    store.users.contains_key(user) && store.users[user].password_hash is Some && bcrypt_verdict(
        peppered_digest(password, pepper),
        store.users[user].password_hash->Some_0,
    ) == Some(true)
}

/// The store after a user was registered under an id, the password hashed
/// under a salt.
pub open spec fn registration(
    before: StoreView,
    id: Seq<char>,
    builder: &UserBuilder,
    salt: Seq<u8>,
) -> StoreView {
    before.with_users(
        before.users.insert(
            id,
            UserView::registered(
                builder.name@,
                builder.email@,
                AuthenticationMethod::method_of(&builder.authentication),
                Some(password_text(&builder.authentication, salt)),
            ),
        ),
    )
}

/// The hash text that is stored for a secret under a salt.
pub open spec fn password_text(authentication: &Authentication, salt: Seq<u8>) -> Seq<char> {
    match authentication {
        Authentication::Password { password, pepper } => hash_text(password@, salt, pepper@),
    }
}

/// Whether the stored hash of a user is one that the secret is found to
/// match.
pub open spec fn accepts(store: StoreView, user: Seq<char>, authentication: &Authentication) -> bool {
    match authentication {
        Authentication::Password { password, pepper } => password_readable(
            store,
            user,
            password@,
            pepper@,
        ) && password_verdict(store, user, password@, pepper@),
    }
}

} // verus!
