//! The operations behind the HTTP interface: what each request does to the
//! store once its session and its payload have been read.

use crate::access::Session;
use crate::error::{no_session_text, Error, ErrorView};
use crate::model::StoreView;
use crate::org::Org;
use crate::scope::OrgScope;
use crate::store::Store;
use crate::user::User;
use vstd::prelude::*;

pub mod login;
pub mod org;
pub mod org_user;
pub mod org_user_scope;
pub mod product;
pub mod session;

verus! {

/// What the HTTP server needs to run.
#[derive(Debug, Clone)]
pub struct Config {
    pub frontend_host: String,
    pub port: u16,
    pub password_pepper: String,
}

/// One scope of the catalog by name, and whether it is granted.
#[derive(Debug, Clone)]
pub struct ScopeFlag {
    pub name: String,
    pub enabled: bool,
}

/// Whether a list names every scope of the catalog, in catalog order, and
/// flags exactly the scopes of a set.
pub open spec fn flags_show(flags: Seq<ScopeFlag>, granted: Set<OrgScope>) -> bool {
    &&& flags.len() == OrgScope::all().len()
    &&& forall|i: int|
        0 <= i < flags.len() ==> (#[trigger] flags[i]).name@ == OrgScope::all()[i].name()
            && flags[i].enabled == granted.contains(OrgScope::all()[i])
}

/// Whether a list names every scope of the catalog, in catalog order, and
/// flags exactly the scopes granted to `user` in `org`.
pub open spec fn flags_grants_of(
    flags: Seq<ScopeFlag>,
    store: StoreView,
    org: Seq<char>,
    user: Seq<char>,
) -> bool {
    flags_show(flags, store.granted(org, user))
}

/// Whether a scope stands in a list.
pub fn is_listed(scopes: &Vec<OrgScope>, scope: OrgScope) -> (r: bool)
    ensures
        r == scopes@.contains(scope),
{
    let mut i: usize = 0;
    while i < scopes.len()
        invariant
            i <= scopes@.len(),
            forall|j: int| 0 <= j < i ==> scopes@[j] != scope,
        decreases scopes@.len() - i,
    {
        if scopes[i] == scope {
            return true;
        }
        i = i + 1;
    }
    false
}

/// All scopes of the catalog by name, in catalog order, each flagged with
/// whether it stands in a list of granted scopes.
pub fn flags_of(granted: &Vec<OrgScope>) -> (flags: Vec<ScopeFlag>)
    ensures
        flags_show(flags@, granted@.to_set()),
{
    let all = OrgScope::variants();
    let mut flags: Vec<ScopeFlag> = Vec::new();
    let mut i: usize = 0;
    while i < all.len()
        invariant
            i <= all@.len(),
            all@ == OrgScope::all(),
            flags@.len() == i,
            forall|j: int|
                0 <= j < i ==> (#[trigger] flags@[j]).name@ == all@[j].name() && flags@[j].enabled
                    == granted@.to_set().contains(all@[j]),
        decreases all@.len() - i,
    {
        let scope = all[i];
        flags.push(ScopeFlag { name: scope.to_string(), enabled: is_listed(granted, scope) });
        i = i + 1;
    }
    flags
}

/// Retrieve all scopes of the catalog by name, each flagged with whether
/// the user has been granted it in the organization.
pub fn get_user_org_scopes(store: &Store, user: &User, org: &Org) -> (r: Result<
    Vec<ScopeFlag>,
    Error,
>)
    ensures
        match r {
            Ok(flags) => flags_grants_of(flags@, store@, org.id@, user.id@),
            Err(_) => false,
        },
{
    let granted = store.member(org.id.as_str(), user.id.as_str());
    let all = OrgScope::variants();
    let mut flags: Vec<ScopeFlag> = Vec::new();
    let mut i: usize = 0;
    while i < all.len()
        invariant
            i <= all@.len(),
            all@ == OrgScope::all(),
            flags@.len() == i,
            match granted {
                Some(m) => store@.member(org.id@, user.id@) == Some(m@),
                None => store@.member(org.id@, user.id@) is None,
            },
            forall|j: int|
                0 <= j < i ==> (#[trigger] flags@[j]).name@ == all@[j].name() && flags@[j].enabled
                    == store@.granted(org.id@, user.id@).contains(all@[j]),
        decreases all@.len() - i,
    {
        let scope = all[i];
        let enabled = match &granted {
            Some(m) => m.scopes.contains(scope),
            None => false,
        };
        flags.push(ScopeFlag { name: scope.to_string(), enabled });
        i = i + 1;
    }
    Ok(flags)
}

/// Whether the user behind a session has a row. Every operation reads the
/// caller first, and fails with `Unauthorized` where the row is gone.
pub open spec fn caller_known(store: StoreView, session: &Session) -> bool {
    store.users.contains_key(session.user_id@)
}

/// Whether a failure is the one of a session whose user is gone.
pub open spec fn is_no_session(e: Error) -> bool {
    e@ == ErrorView::Unauthorized(no_session_text())
}

} // verus!
