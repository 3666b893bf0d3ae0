//! Requests about the members of an organization.

use crate::access::{decision, require_access, Decision, Session};
use crate::api::org::is_refusal;
use crate::api::{caller_known, is_no_session};
use crate::error::{no_user_text, taken_text, Error, ErrorView};
use crate::model::{MembershipView, StoreView};
use crate::org::{has_dangling_member, lists_members_of, OrgUser};
use crate::scope::OrgScope;
use crate::store::Store;
use crate::user::User;
use vstd::prelude::*;

verus! {

/// Which organization's members to list.
pub struct Query {
    pub org_id: String,
}

/// What adding a user by address does, once the caller is known and holds
/// `AddUser`: it fails with `NotFound` where no user has the address, with
/// `Conflict` where the user found is a member already, and changes nothing
/// then; otherwise a user with the address joins the organization.
pub open spec fn addition_outcome(
    before: StoreView,
    after: StoreView,
    org: Seq<char>,
    email: Seq<char>,
    admin: bool,
    r: Result<(), Error>,
) -> bool {
    if forall|id: Seq<char>| before.users.contains_key(id) ==> before.users[id].email != email {
        after == before && r is Err && r->Err_0@ == ErrorView::NotFound(no_user_text())
    } else {
        exists|user: Seq<char>|
            before.users.contains_key(user) && before.users[user].email == email
                && #[trigger] addition_of(before, after, org, user, admin, r)
    }
}

/// What adding one user does.
pub open spec fn addition_of(
    before: StoreView,
    after: StoreView,
    org: Seq<char>,
    user: Seq<char>,
    admin: bool,
    r: Result<(), Error>,
) -> bool {
    if before.member(org, user) is Some {
        after == before && r is Err && r->Err_0@ == ErrorView::Conflict(taken_text())
    } else {
        r is Ok && after == before.with_member(org, user, MembershipView::joining(admin))
    }
}

/// Adds the user with an address to an organization, for a caller who
/// holds `AddUser` in it. Nothing changes on failure.
pub fn add(store: &mut Store, session: &Session, org_id: &str, user_email: &str, is_org_admin: bool) -> (r:
    Result<(), Error>)
    ensures
        if !caller_known(old(store)@, session) {
            final(store)@ == old(store)@ && r is Err && is_no_session(r->Err_0)
        } else if decision(old(store)@, org_id@, session.user_id@, OrgScope::AddUser)
            != Decision::Granted {
            final(store)@ == old(store)@ && r is Err && is_refusal(
                old(store)@,
                org_id@,
                session.user_id@,
                OrgScope::AddUser,
                r->Err_0,
            )
        } else {
            addition_outcome(old(store)@, final(store)@, org_id@, user_email@, is_org_admin, r)
        },
{
    let caller = session.user(store)?;
    let org = require_access(store, &caller, org_id, OrgScope::AddUser)?;
    let user = match User::get_by_email(store, user_email) {
        Ok(Some(user)) => user,
        _ => {
            return Err(Error::no_user());
        },
    };
    let r = org.add_user(store, &user, is_org_admin);
    proof {
        assert(addition_of(old(store)@, store@, org_id@, user.id@, is_org_admin, r));
    }
    r
}

/// Lists the members of an organization for a caller who holds `GetOrg`
/// in it.
pub fn list(store: &Store, session: &Session, query: &Query) -> (r: Result<Vec<OrgUser>, Error>)
    ensures
        match r {
            Ok(members) => caller_known(store@, session) && decision(
                store@,
                query.org_id@,
                session.user_id@,
                OrgScope::GetOrg,
            ) == Decision::Granted && lists_members_of(members@, store@, query.org_id@),
            Err(e) => if !caller_known(store@, session) {
                is_no_session(e)
            } else if decision(store@, query.org_id@, session.user_id@, OrgScope::GetOrg)
                != Decision::Granted {
                is_refusal(store@, query.org_id@, session.user_id@, OrgScope::GetOrg, e)
            } else {
                has_dangling_member(store@, query.org_id@) && e@ is InvalidState
            },
        },
{
    let caller = session.user(store)?;
    let org = require_access(store, &caller, query.org_id.as_str(), OrgScope::GetOrg)?;
    org.list_users(store)
}

/// Removes a user from an organization, for a caller who holds `AddUser`
/// in it. Fails with `NotFound` where the user does not exist. Nothing
/// changes on failure.
pub fn remove(store: &mut Store, session: &Session, org_id: &str, user_id: &str) -> (r: Result<
    (),
    Error,
>)
    ensures
        match r {
            Ok(_) => caller_known(old(store)@, session) && decision(
                old(store)@,
                org_id@,
                session.user_id@,
                OrgScope::AddUser,
            ) == Decision::Granted && old(store)@.users.contains_key(user_id@) && final(store)@
                == old(store)@.without_member(org_id@, user_id@),
            Err(e) => final(store)@ == old(store)@ && if !caller_known(old(store)@, session) {
                is_no_session(e)
            } else if decision(old(store)@, org_id@, session.user_id@, OrgScope::AddUser)
                != Decision::Granted {
                is_refusal(old(store)@, org_id@, session.user_id@, OrgScope::AddUser, e)
            } else {
                !old(store)@.users.contains_key(user_id@) && e@ == ErrorView::NotFound(
                    no_user_text(),
                )
            },
        },
{
    let caller = session.user(store)?;
    let org = require_access(store, &caller, org_id, OrgScope::AddUser)?;
    let target = match User::get(store, user_id.to_owned()) {
        Ok(Some(user)) => user,
        _ => {
            return Err(Error::no_user());
        },
    };
    org.remove_user(store, &target)
}

} // verus!
