//! Requests about the products of an organization: who may make them, and
//! how an update changes the fields of a product.

use crate::access::{decision, require_access, Decision, Session};
use crate::api::org::is_refusal;
use crate::api::{caller_known, is_no_session};
use crate::error::Error;
use crate::org::Org;
use crate::scope::OrgScope;
use crate::store::Store;
use vstd::prelude::*;

verus! {

/// What a request does to the products of an organization.
#[derive(Debug, Clone, Copy, PartialEq, Eq, Structural)]
pub enum ProductAction {
    Create,
    Get,
    List,
    Remove,
    Update,
}

impl ProductAction {
    /// The scope that an action needs: `GetOrg` to read, `UpdateOrg` to
    /// change.
    pub open spec fn needs(self) -> OrgScope {
        match self {
            ProductAction::Get => OrgScope::GetOrg,
            ProductAction::List => OrgScope::GetOrg,
            ProductAction::Create => OrgScope::UpdateOrg,
            ProductAction::Remove => OrgScope::UpdateOrg,
            ProductAction::Update => OrgScope::UpdateOrg,
        }
    }

    /// The scope that the action needs.
    pub fn required_scope(&self) -> (scope: OrgScope)
        ensures
            scope == self.needs(),
    {
        match self {
            ProductAction::Get => OrgScope::GetOrg,
            ProductAction::List => OrgScope::GetOrg,
            ProductAction::Create => OrgScope::UpdateOrg,
            ProductAction::Remove => OrgScope::UpdateOrg,
            ProductAction::Update => OrgScope::UpdateOrg,
        }
    }
}

/// Hands out the organization of a product to a caller who holds the scope
/// that the action needs. Fails with `Unauthorized` where the caller's row is
/// gone or the organization does not exist, with `Forbidden` where the scope
/// is missing.
pub fn authorize(store: &Store, session: &Session, org_id: &str, action: ProductAction) -> (r:
    Result<Org, Error>)
    ensures
        match r {
            Ok(org) => caller_known(store@, session) && decision(
                store@,
                org_id@,
                session.user_id@,
                action.needs(),
            ) == Decision::Granted && org.id@ == org_id@ && org.name@ == store@.orgs[org_id@].name,
            Err(e) => if !caller_known(store@, session) {
                is_no_session(e)
            } else {
                is_refusal(store@, org_id@, session.user_id@, action.needs(), e)
            },
        },
{
    let user = session.user(store)?;
    require_access(store, &user, org_id, action.required_scope())
}

/// A field that an update may replace: the replacement where one is given,
/// the current value otherwise.
pub open spec fn replaced_by<T>(current: T, replacement: Option<T>) -> T {
    match replacement {
        Some(value) => value,
        None => current,
    }
}

/// An optional field that an update may clear or replace. Where the
/// request says whether to clear, that alone decides: the field is cleared,
/// or stays as it is. Otherwise a replacement, where one is given, is taken.
pub open spec fn merged_with<T>(
    current: Option<T>,
    clear: Option<bool>,
    replacement: Option<T>,
) -> Option<T> {
    match clear {
        Some(true) => None,
        Some(false) => current,
        None => match replacement {
            Some(value) => Some(value),
            None => current,
        },
    }
}

/// The new value of a field that an update may replace.
pub fn replaced<T>(current: T, replacement: Option<T>) -> (r: T)
    ensures
        r == replaced_by(current, replacement),
{
    match replacement {
        Some(value) => value,
        None => current,
    }
}

/// The new value of an optional field that an update may clear or replace.
pub fn merged<T>(current: Option<T>, clear: Option<bool>, replacement: Option<T>) -> (r: Option<T>)
    ensures
        r == merged_with(current, clear, replacement),
{
    match clear {
        Some(true) => None,
        Some(false) => current,
        None => match replacement {
            Some(value) => Some(value),
            None => current,
        },
    }
}

} // verus!
