//! Requests about the caller's sessions.

use crate::access::Session;
use crate::api::{caller_known, is_no_session};
use crate::error::Error;
use crate::model::StoreView;
use crate::store::Store;
use crate::user::User;
use vstd::prelude::*;

verus! {

/// Which sessions to remove: the one named by `id`; every session of the
/// caller where `all` is set and no `id` is given; the caller's own session
/// otherwise.
pub struct Query {
    pub id: Option<String>,
    pub all: Option<bool>,
}

/// The store after the sessions that a query selects were removed.
pub open spec fn removal(before: StoreView, session: &Session, query: &Query) -> StoreView {
    match (query.id, query.all) {
        (Some(id), _) => before.with_sessions(before.sessions.remove(id@)),
        (None, Some(true)) => before.without_sessions_of(session.user_id@),
        _ => before.with_sessions(before.sessions.remove(session.id@)),
    }
}

/// Removes the sessions that the query selects. Fails with `Unauthorized`,
/// and changes nothing, exactly where the caller's row is gone.
pub fn remove(store: &mut Store, session: &Session, query: &Query) -> (r: Result<(), Error>)
    ensures
        match r {
            Ok(_) => caller_known(old(store)@, session) && final(store)@ == removal(
                old(store)@,
                session,
                query,
            ),
            Err(e) => !caller_known(old(store)@, session) && is_no_session(e) && final(store)@
                == old(store)@,
        },
{
    let user = session.user(store)?;
    match &query.id {
        Some(id) => user.delete_session(store, id.as_str()),
        None => match query.all {
            Some(true) => user.delete_sessions(store),
            _ => user.delete_session(store, session.id.as_str()),
        },
    }
}

/// The user behind the session. Fails with `Unauthorized` exactly where
/// the user's row is gone.
pub fn user(store: &Store, session: &Session) -> (r: Result<User, Error>)
    ensures
        match r {
            Ok(user) => caller_known(store@, session) && user.shows(
                session.user_id@,
                store@.users[session.user_id@],
            ),
            Err(e) => !caller_known(store@, session) && is_no_session(e),
        },
{
    session.user(store)
}

} // verus!
