//! Logging in and registering.

use crate::clock::{clock_shows, unix_now};
use crate::error::{bad_method_text, no_secret_text, Error, ErrorView};
use crate::ident::{gen_id, is_alphanumeric_text, random_salt, ID_LENGTH};
use crate::model::{AuthenticationMethod, StoreView};
use crate::store::Store;
use crate::user::{
    association_outcome, password_readable, password_verdict, registration, session_outcome,
    Authentication, EmailAssociation, SessionDescription, User, UserBuilder,
};
use vstd::prelude::*;

verus! {

impl AuthenticationMethod {
    /// The method that a number on the wire names.
    pub open spec fn numbered(value: i32) -> Option<AuthenticationMethod> {
        if value == 0 {
            Some(AuthenticationMethod::Password)
        } else {
            None
        }
    }

    /// The method that a number on the wire names, if it names one.
    pub fn from_i32(value: i32) -> (r: Option<AuthenticationMethod>)
        ensures
            r == Self::numbered(value),
    {
        if value == 0 {
            Some(AuthenticationMethod::Password)
        } else {
            None
        }
    }
}

/// The text of a password, where one is given.
pub open spec fn text_of(password: Option<&str>) -> Option<Seq<char>> {
    match password {
        Some(p) => Some(p@),
        None => None,
    }
}

/// The session of a login, where there is one.
pub open spec fn session_of(r: Result<(SessionDescription, User), Error>) -> Result<
    SessionDescription,
    Error,
> {
    match r {
        Ok(both) => Ok(both.0),
        Err(e) => Err(e),
    }
}

/// What a login attempt does. The checks come in this order: no user has
/// the address (`Unauthorized`); the method is unknown (`BadRequest`); no
/// password is given (`BadRequest`); then, for a user with the address, what
/// [`login_as`] says. Nothing changes on failure.
pub open spec fn login_outcome(
    before: StoreView,
    after: StoreView,
    pepper: Seq<char>,
    email: Seq<char>,
    method: i32,
    password: Option<Seq<char>>,
    secret: Seq<char>,
    now: int,
    r: Result<(SessionDescription, User), Error>,
) -> bool {
    if forall|id: Seq<char>| before.users.contains_key(id) ==> before.users[id].email != email {
        after == before && r is Err && r->Err_0@ == ErrorView::Unauthorized(Seq::<char>::empty())
    } else if AuthenticationMethod::numbered(method) is None {
        after == before && r is Err && r->Err_0@ == ErrorView::BadRequest(bad_method_text())
    } else if password is None {
        after == before && r is Err && r->Err_0@ == ErrorView::BadRequest(no_secret_text())
    } else {
        exists|user: Seq<char>|
            before.users.contains_key(user) && before.users[user].email == email
                && #[trigger] login_as(before, after, pepper, user, password->Some_0, secret, now, r)
    }
}

/// What a login attempt does once a user with the address is found and the
/// request is well formed: the stored hash cannot be read (the failure of
/// the hashing crate); the password is wrong (`Unauthorized`); otherwise a
/// session is opened for the user as [`session_outcome`] says.
pub open spec fn login_as(
    before: StoreView,
    after: StoreView,
    pepper: Seq<char>,
    user: Seq<char>,
    password: Seq<char>,
    secret: Seq<char>,
    now: int,
    r: Result<(SessionDescription, User), Error>,
) -> bool {
    if !password_readable(before, user, password, pepper) {
        after == before && r is Err && r->Err_0@ == ErrorView::Bcrypt
    } else if !password_verdict(before, user, password, pepper) {
        after == before && r is Err && r->Err_0@ == ErrorView::Unauthorized(Seq::<char>::empty())
    } else {
        session_outcome(before, after, user, secret, now, session_of(r)) && (r is Ok
            ==> r->Ok_0.1.shows(user, before.users[user]))
    }
}

/// Logs a user in by address and password and opens a session under a
/// fresh random token at the current time; see [`login_with`].
pub fn login(store: &mut Store, pepper: &str, email: &str, method: i32, password: Option<&str>) -> (r:
    Result<(SessionDescription, User), Error>)
    ensures
        exists|secret: Seq<char>, now: int|
            secret.len() == ID_LENGTH && is_alphanumeric_text(secret) && clock_shows(now)
                && #[trigger] login_outcome(
                old(store)@,
                final(store)@,
                pepper@,
                email@,
                method,
                text_of(password),
                secret,
                now,
                r,
            ),
{
    let secret = gen_id();
    let now = unix_now();
    let ghost shown = secret@;
    let r = login_with(store, pepper, email, method, password, secret, now);
    proof {
        assert(login_outcome(
            old(store)@,
            store@,
            pepper@,
            email@,
            method,
            text_of(password),
            shown,
            now as int,
            r,
        ));
    }
    r
}

/// Logs a user in by address and password and opens a session with the
/// given secret at `now`.
pub fn login_with(
    store: &mut Store,
    pepper: &str,
    email: &str,
    method: i32,
    password: Option<&str>,
    secret: String,
    now: i64,
) -> (r: Result<(SessionDescription, User), Error>)
    ensures
        login_outcome(
            old(store)@,
            final(store)@,
            pepper@,
            email@,
            method,
            text_of(password),
            secret@,
            now as int,
            r,
        ),
{
    let user = match User::get_by_email(store, email) {
        Ok(Some(user)) => user,
        _ => {
            return Err(Error::unauthorized());
        },
    };
    let kind = match AuthenticationMethod::from_i32(method) {
        Some(kind) => kind,
        None => {
            return Err(Error::bad_method());
        },
    };
    let given = match password {
        Some(given) => given,
        None => {
            return Err(Error::no_secret());
        },
    };
    let correct = match kind {
        AuthenticationMethod::Password => user.is_password_correct(store, given, pepper),
    };
    let r = match correct {
        Ok(true) => match user.create_session_with(store, secret, now) {
            Ok(session) => Ok((session, user)),
            Err(e) => Err(e),
        },
        Ok(false) => Err(Error::unauthorized()),
        Err(e) => Err(e),
    };
    proof {
        let before = old(store)@;
        assert(before.users.contains_key(user.id@) && before.users[user.id@].email == email@);
        assert(text_of(password)->Some_0 == given@);
        assert(login_as(
            before,
            store@,
            pepper@,
            user.id@,
            text_of(password)->Some_0,
            secret@,
            now as int,
            r,
        ));
    }
    r
}

/// What a registration does. The checks come first: the method is unknown
/// (`BadRequest`); no password is given (`BadRequest`); the id is taken
/// (`Conflict`). Then the user is registered and the address associated to
/// the user, to be verified with `token`; where the association fails, with
/// its own failure, the user is not registered either. Nothing changes on
/// failure.
pub open spec fn register_outcome(
    before: StoreView,
    after: StoreView,
    builder: &UserBuilder,
    method: i32,
    has_password: bool,
    id: Seq<char>,
    salt: Seq<u8>,
    token: Seq<char>,
    now: int,
    r: Result<User, Error>,
) -> bool {
    if AuthenticationMethod::numbered(method) is None {
        after == before && r is Err && r->Err_0@ == ErrorView::BadRequest(bad_method_text())
    } else if !has_password {
        after == before && r is Err && r->Err_0@ == ErrorView::BadRequest(no_secret_text())
    } else if before.users.contains_key(id) {
        after == before && r is Err && r->Err_0@ == ErrorView::Conflict(crate::error::taken_text())
    } else {
        let registered = registration(before, id, builder, salt);
        match r {
            Ok(user) => user.id@ == id && user.name@ == builder.name@ && user.email@
                == builder.email@ && exists|pending: EmailAssociation| #[trigger]
                association_outcome(
                    registered,
                    after,
                    id,
                    builder.email@,
                    token,
                    now,
                    Ok(pending),
                ),
            Err(e) => after == before && association_outcome(
                registered,
                registered,
                id,
                builder.email@,
                token,
                now,
                Err(e),
            ),
        }
    }
}

/// Whether a builder holds what a registration request gives: the name,
/// the address, the pepper of the installation, and the password where one
/// is given.
pub open spec fn describes_request(
    builder: &UserBuilder,
    pepper: Seq<char>,
    name: Seq<char>,
    email: Seq<char>,
    password: Option<Seq<char>>,
) -> bool {
    &&& builder.name@ == name
    &&& builder.email@ == email
    &&& match builder.authentication {
        Authentication::Password { password: given, pepper: used } => used@ == pepper && (
        password is Some ==> given@ == password->Some_0),
    }
}

/// Registers a user under a fresh random id and salt and associates the
/// address under a fresh random token at the current time; see
/// [`register_with`].
pub fn register(
    store: &mut Store,
    pepper: &str,
    name: &str,
    email: &str,
    method: i32,
    password: Option<&str>,
) -> (r: Result<User, Error>)
    ensures
        exists|builder: &UserBuilder, id: Seq<char>, salt: Seq<u8>, token: Seq<char>, now: int|
            describes_request(builder, pepper@, name@, email@, text_of(password))
                && id.len() == ID_LENGTH && is_alphanumeric_text(id) && token.len() == ID_LENGTH
                && is_alphanumeric_text(token) && clock_shows(now) && #[trigger] register_outcome(
                old(store)@,
                final(store)@,
                builder,
                method,
                password is Some,
                id,
                salt,
                token,
                now,
                r,
            ),
{
    let id = gen_id();
    let salt = random_salt();
    let token = gen_id();
    let now = unix_now();
    let builder = UserBuilder {
        name: name.to_owned(),
        email: email.to_owned(),
        authentication: Authentication::Password {
            password: match password {
                Some(p) => p.to_owned(),
                None => String::new(),
            },
            pepper: pepper.to_owned(),
        },
    };
    let ghost shown_id = id@;
    let ghost shown_token = token@;
    let r = register_with(store, &builder, method, password.is_some(), id, salt, token, now);
    proof {
        assert(describes_request(&builder, pepper@, name@, email@, text_of(password)));
        assert(register_outcome(
            old(store)@,
            store@,
            &builder,
            method,
            password is Some,
            shown_id,
            salt@,
            shown_token,
            now as int,
            r,
        ));
    }
    r
}

/// Registers the user that the builder describes under the given id, the
/// password hashed under the given salt, and associates the address to the
/// user at `now`, to be verified with `token`.
pub fn register_with(
    store: &mut Store,
    builder: &UserBuilder,
    method: i32,
    has_password: bool,
    id: String,
    salt: [u8; 16],
    token: String,
    now: i64,
) -> (r: Result<User, Error>)
    ensures
        register_outcome(
            old(store)@,
            final(store)@,
            builder,
            method,
            has_password,
            id@,
            salt@,
            token@,
            now as int,
            r,
        ),
{
    if AuthenticationMethod::from_i32(method).is_none() {
        return Err(Error::bad_method());
    }
    if !has_password {
        return Err(Error::no_secret());
    }
    let copy = UserBuilder {
        name: builder.name.clone(),
        email: builder.email.clone(),
        authentication: match &builder.authentication {
            Authentication::Password { password, pepper } => Authentication::Password {
                password: password.clone(),
                pepper: pepper.clone(),
            },
        },
    };
    let user = User::create_with(store, id, salt, copy)?;
    let ghost registered = store@;
    assert(registered == registration(old(store)@, id@, builder, salt@));
    match user.associate_email_with(store, builder.email.as_str(), token, now) {
        Ok(pending) => {
            proof {
                assert(association_outcome(
                    registered,
                    store@,
                    id@,
                    builder.email@,
                    token@,
                    now as int,
                    Ok(pending),
                ));
            }
            Ok(user)
        },
        Err(e) => {
            store.users.remove(user.id.as_str());
            assert(store@.users =~= old(store)@.users);
            Err(e)
        },
    }
}

} // verus!
