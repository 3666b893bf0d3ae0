//! Requests about the scopes of a member.

use crate::access::{decision, require_access, Decision, Session};
use crate::api::org::is_refusal;
use crate::api::{caller_known, flags_grants_of, get_user_org_scopes, is_no_session, ScopeFlag};
use crate::error::{bad_scope_text, no_member_text, no_user_text, Error, ErrorView};
use crate::model::StoreView;
use crate::scope::OrgScope;
use crate::store::Store;
use crate::user::User;
use vstd::prelude::*;

verus! {

/// Whose scopes to list: those of `user_id`, or the caller's own where
/// none is given.
pub struct Query {
    pub org_id: String,
    pub user_id: Option<String>,
}

/// The user that a query is about.
pub open spec fn target_of(session: &Session, query: &Query) -> Seq<char> {
    match query.user_id {
        Some(id) => id@,
        None => session.user_id@,
    }
}

/// Lists every scope of the catalog, flagged with whether the target user
/// has been granted it, for a caller who holds `GetOrg` in the
/// organization. Fails with `NotFound` where the target user does not exist.
pub fn list(store: &Store, session: &Session, query: &Query) -> (r: Result<Vec<ScopeFlag>, Error>)
    ensures
        match r {
            Ok(flags) => caller_known(store@, session) && decision(
                store@,
                query.org_id@,
                session.user_id@,
                OrgScope::GetOrg,
            ) == Decision::Granted && store@.users.contains_key(target_of(session, query))
                && flags_grants_of(flags@, store@, query.org_id@, target_of(session, query)),
            Err(e) => if !caller_known(store@, session) {
                is_no_session(e)
            } else if decision(store@, query.org_id@, session.user_id@, OrgScope::GetOrg)
                != Decision::Granted {
                is_refusal(store@, query.org_id@, session.user_id@, OrgScope::GetOrg, e)
            } else {
                !store@.users.contains_key(target_of(session, query)) && e@ == ErrorView::NotFound(
                    no_user_text(),
                )
            },
        },
{
    let caller = session.user(store)?;
    let org = require_access(store, &caller, query.org_id.as_str(), OrgScope::GetOrg)?;
    let target = match &query.user_id {
        Some(id) => match User::get(store, id.clone()) {
            Ok(Some(user)) => user,
            _ => {
                return Err(Error::no_user());
            },
        },
        None => caller,
    };
    get_user_org_scopes(store, &target, &org)
}

/// The memberships of a store after the first `count` flags of a list were
/// applied to one member, in order.
pub open spec fn applied(
    before: StoreView,
    org: Seq<char>,
    user: Seq<char>,
    flags: Seq<ScopeFlag>,
    count: int,
) -> StoreView
    decreases count,
{
    if count <= 0 {
        before
    } else {
        match OrgScope::parse(flags[count - 1].name@) {
            Some(scope) => applied(before, org, user, flags, count - 1).with_scope(
                org,
                user,
                scope,
                flags[count - 1].enabled,
            ),
            None => applied(before, org, user, flags, count - 1),
        }
    }
}

/// Whether every flag of a list names a scope of the catalog.
pub open spec fn all_known(flags: Seq<ScopeFlag>) -> bool {
    forall|i: int| 0 <= i < flags.len() ==> OrgScope::parse(#[trigger] flags[i].name@) is Some
}

/// What setting scopes does, once the caller is known and holds `AddUser`:
/// it fails with `NotFound` where the target user does not exist, with
/// `BadRequest` where a flag names no scope of the catalog (the message
/// names the first such text), with `NotFound` where the list is not empty
/// and the target is no member, and changes nothing then; otherwise the
/// flags are applied in order.
pub open spec fn setting_outcome(
    before: StoreView,
    after: StoreView,
    org: Seq<char>,
    user: Seq<char>,
    flags: Seq<ScopeFlag>,
    r: Result<(), Error>,
) -> bool {
    if !before.users.contains_key(user) {
        after == before && r is Err && r->Err_0@ == ErrorView::NotFound(no_user_text())
    } else if !all_known(flags) {
        after == before && r is Err && exists|i: int|
            0 <= i < flags.len() && OrgScope::parse(#[trigger] flags[i].name@) is None && (forall|
                j: int,
            |
                0 <= j < i ==> OrgScope::parse(#[trigger] flags[j].name@) is Some) && r->Err_0@
                == ErrorView::BadRequest(bad_scope_text(flags[i].name@))
    } else if flags.len() > 0 && before.member(org, user) is None {
        after == before && r is Err && r->Err_0@ == ErrorView::NotFound(no_member_text())
    } else {
        r is Ok && after == applied(before, org, user, flags, flags.len() as int)
    }
}

/// Grants and revokes scopes of a member as the flags say, in order, for a
/// caller who holds `AddUser` in the organization. Every name is checked
/// before anything is changed, so nothing changes on failure.
pub fn set(
    store: &mut Store,
    session: &Session,
    org_id: &str,
    user_id: &str,
    flags: &Vec<ScopeFlag>,
) -> (r: Result<(), Error>)
    ensures
        if !caller_known(old(store)@, session) {
            final(store)@ == old(store)@ && r is Err && is_no_session(r->Err_0)
        } else if decision(old(store)@, org_id@, session.user_id@, OrgScope::AddUser)
            != Decision::Granted {
            final(store)@ == old(store)@ && r is Err && is_refusal(
                old(store)@,
                org_id@,
                session.user_id@,
                OrgScope::AddUser,
                r->Err_0,
            )
        } else {
            setting_outcome(old(store)@, final(store)@, org_id@, user_id@, flags@, r)
        },
{
    let caller = session.user(store)?;
    let org = require_access(store, &caller, org_id, OrgScope::AddUser)?;
    let target = match User::get(store, user_id.to_owned()) {
        Ok(Some(user)) => user,
        _ => {
            return Err(Error::no_user());
        },
    };
    let mut scopes: Vec<OrgScope> = Vec::new();
    let mut i: usize = 0;
    while i < flags.len()
        invariant
            i <= flags@.len(),
            scopes@.len() == i,
            store@ == old(store)@,
            caller_known(old(store)@, session),
            decision(old(store)@, org_id@, session.user_id@, OrgScope::AddUser)
                == Decision::Granted,
            old(store)@.users.contains_key(user_id@),
            forall|j: int|
                0 <= j < i ==> OrgScope::parse(#[trigger] flags@[j].name@) == Some(scopes@[j]),
        decreases flags@.len() - i,
    {
        match OrgScope::from_str(flags[i].name.as_str()) {
            Ok(scope) => {
                scopes.push(scope);
            },
            Err(_) => {
                let e = Error::bad_scope(flags[i].name.as_str());
                proof {
                    let at = i as int;
                    assert(OrgScope::parse(flags@[at].name@) is None);
                    assert(!all_known(flags@));
                    assert(0 <= at < flags@.len() && OrgScope::parse(flags@[at].name@) is None && (
                    forall|j: int|
                        0 <= j < at ==> OrgScope::parse(#[trigger] flags@[j].name@) is Some) && e@
                        == ErrorView::BadRequest(bad_scope_text(flags@[at].name@)));
                }
                return Err(e);
            },
        }
        i = i + 1;
    }
    if flags.len() > 0 && store.member(org_id, user_id).is_none() {
        return Err(Error::no_member());
    }
    let mut k: usize = 0;
    while k < flags.len()
        invariant
            k <= flags@.len(),
            scopes@.len() == flags@.len(),
            org.id@ == org_id@,
            target.id@ == user_id@,
            forall|j: int|
                0 <= j < flags@.len() ==> OrgScope::parse(#[trigger] flags@[j].name@) == Some(
                    scopes@[j],
                ),
            flags@.len() > 0 ==> store@.member(org_id@, user_id@) is Some,
            store@ == applied(old(store)@, org_id@, user_id@, flags@, k as int),
        decreases flags@.len() - k,
    {
        let ghost before = store@;
        let _ = org.set_scope(store, &target, &scopes[k], flags[k].enabled);
        proof {
            assert(OrgScope::parse(flags@[k as int].name@) == Some(scopes@[k as int]));
            assert(store@ == before.with_scope(
                org_id@,
                user_id@,
                scopes@[k as int],
                flags@[k as int].enabled,
            ));
        }
        k = k + 1;
    }
    Ok(())
}

} // verus!
