//! The access decision: whether a user may act under a scope in an
//! organization, and the session that tells who the user is.

use crate::clock::{clock_shows, unix_now};
use crate::error::{no_org_text, no_session_text, Error, ErrorView};
use crate::model::StoreView;
use crate::org::Org;
use crate::scope::OrgScope;
use crate::store::Store;
use crate::user::{session_prefix, User};
use vstd::prelude::*;

verus! {

/// The outcome of an access check: the decision, and the organization that
/// was asked about.
pub struct AccessResult {
    pub accessible: bool,
    pub org: Org,
}

/// Checks if a user can access the requested scope in the requested
/// organization.
///
/// Fails with `Unauthorized` exactly where the organization does not exist,
/// so that a caller cannot tell a missing organization from one it has no
/// access to. Otherwise access is granted exactly where the scope is in the
/// user's effective permission set: every scope for an admin member, the
/// granted scopes for another member, none for a user who is no member.
pub fn can_access(store: &Store, user: &User, org_id: &str, scope: OrgScope) -> (r: Result<
    AccessResult,
    Error,
>)
    ensures
        match r {
            Ok(access) => store@.orgs.contains_key(org_id@) && access.accessible
                == store@.effective(org_id@, user.id@).contains(scope) && access.org.id@ == org_id@
                && access.org.name@ == store@.orgs[org_id@].name,
            Err(e) => !store@.orgs.contains_key(org_id@) && e@ == ErrorView::Unauthorized(
                no_org_text(),
            ),
        },
{
    let org = match Org::get(store, org_id.to_owned()) {
        Ok(Some(org)) => org,
        _ => {
            return Err(Error::no_org());
        },
    };
    let accessible = match store.member(org_id, user.id.as_str()) {
        Some(m) => m.is_admin || m.scopes.contains(scope),
        None => false,
    };
    Ok(AccessResult { accessible, org })
}

/// How a request for a scope in an organization is answered.
pub enum Decision {
    /// The scope is in the user's effective permission set.
    Granted,
    /// The organization exists, and the scope is missing.
    Forbidden,
    /// The organization does not exist.
    Unauthorized,
}

/// The answer to a request of `user` for `scope` in `org`.
pub open spec fn decision(
    store: StoreView,
    org: Seq<char>,
    user: Seq<char>,
    scope: OrgScope,
) -> Decision {
    if !store.orgs.contains_key(org) {
        Decision::Unauthorized
    } else if store.effective(org, user).contains(scope) {
        Decision::Granted
    } else {
        Decision::Forbidden
    }
}

/// Checks access as [`can_access`] does and hands out the organization
/// where access is granted. Fails with `Unauthorized` exactly where the
/// organization does not exist, and with `Forbidden` exactly where it exists
/// and the scope is not in the user's effective permission set.
pub fn require_access(store: &Store, user: &User, org_id: &str, scope: OrgScope) -> (r: Result<
    Org,
    Error,
>)
    ensures
        match decision(store@, org_id@, user.id@, scope) {
            Decision::Granted => r is Ok && r->Ok_0.id@ == org_id@ && r->Ok_0.name@
                == store@.orgs[org_id@].name,
            Decision::Forbidden => r is Err && r->Err_0@ == ErrorView::Forbidden(
                Seq::<char>::empty(),
            ),
            Decision::Unauthorized => r is Err && r->Err_0@ == ErrorView::Unauthorized(
                no_org_text(),
            ),
        },
{
    match can_access(store, user, org_id, scope) {
        Ok(access) => {
            if access.accessible {
                Ok(access.org)
            } else {
                Err(Error::forbidden())
            }
        },
        Err(e) => Err(e),
    }
}

/// Whether a token is marked as a user session: it starts with `US_`.
pub open spec fn is_session_token(token: Seq<char>) -> bool {
    token.len() >= 3 && token.subrange(0, 3) == session_prefix()
}

/// Whether a token is marked as a user session.
pub fn has_session_prefix(token: &str) -> (r: bool)
    ensures
        r == is_session_token(token@),
{
    proof {
        reveal_strlit("US_");
    }
    if token.unicode_len() < 3 {
        return false;
    }
    let r = token.get_char(0) == 'U' && token.get_char(1) == 'S' && token.get_char(2) == '_';
    proof {
        let head = token@.subrange(0, 3);
        if r {
            assert(head =~= session_prefix());
        } else {
            assert(head[0] == token@[0] && head[1] == token@[1] && head[2] == token@[2]);
        }
    }
    r
}

/// A resolved session: the token and the user who owns it.
pub struct Session {
    pub id: String,
    pub user_id: String,
}

/// What resolving a bearer token at `now` gives: the session of its owner
/// where the token is marked as a user session and resolves to a user;
/// `Unauthorized` otherwise. Only a marked token touches the store.
pub open spec fn resolution_outcome(
    before: StoreView,
    after: StoreView,
    authorization: Seq<char>,
    now: int,
    r: Result<Session, Error>,
) -> bool {
    if is_session_token(authorization) {
        &&& after == before.after_resolve(authorization, now)
        &&& match r {
            Ok(session) => session.id@ == authorization && before.resolved(authorization, now)
                == Some(session.user_id@),
            Err(e) => before.resolved(authorization, now) is None && e@
                == ErrorView::Unauthorized(no_session_text()),
        }
    } else {
        after == before && r is Err && r->Err_0@ == ErrorView::Unauthorized(no_session_text())
    }
}

impl Session {
    /// The user who owns the session. Fails with `Unauthorized` exactly
    /// where the user's row is gone.
    pub fn user(&self, store: &Store) -> (r: Result<User, Error>)
        ensures
            match r {
                Ok(user) => store@.users.contains_key(self.user_id@) && user.shows(
                    self.user_id@,
                    store@.users[self.user_id@],
                ),
                Err(e) => !store@.users.contains_key(self.user_id@) && e@
                    == ErrorView::Unauthorized(no_session_text()),
            },
    {
        match User::get(store, self.user_id.clone()) {
            Ok(Some(user)) => Ok(user),
            _ => Err(Error::no_session()),
        }
    }

    /// Resolves the bearer token of a request at the current time; see
    /// [`Session::resolve_at`].
    pub fn resolve(store: &mut Store, authorization: &str) -> (r: Result<Session, Error>)
        ensures
            exists|now: int|
                clock_shows(now) && #[trigger] resolution_outcome(
                    old(store)@,
                    final(store)@,
                    authorization@,
                    now,
                    r,
                ),
    {
        let now = unix_now();
        let r = Session::resolve_at(store, authorization, now);
        proof {
            assert(resolution_outcome(old(store)@, store@, authorization@, now as int, r));
        }
        r
    }

    /// Resolves the bearer token of a request at `now`. A token that is not
    /// marked as a user session, that names no session, whose session has
    /// expired or whose owner is gone fails with `Unauthorized`; an expired
    /// session is removed on the way. Otherwise the session's last use is
    /// set to `now` and the session is returned.
    pub fn resolve_at(store: &mut Store, authorization: &str, now: i64) -> (r: Result<
        Session,
        Error,
    >)
        ensures
            resolution_outcome(old(store)@, final(store)@, authorization@, now as int, r),
    {
        if !has_session_prefix(authorization) {
            return Err(Error::no_session());
        }
        match User::get_by_session_at(store, authorization, now) {
            Ok(Some(user)) => Ok(Session { id: authorization.to_owned(), user_id: user.id }),
            _ => Err(Error::no_session()),
        }
    }
}

} // verus!
