//! Requests about organizations.

use crate::access::{can_access, decision, require_access, Decision, Session};
use crate::api::{caller_known, is_no_session};
use crate::clock::{clock_shows, unix_now};
use crate::error::{no_org_text, taken_text, Error, ErrorView};
use crate::ident::{gen_id, is_alphanumeric_text, ID_LENGTH};
use crate::model::StoreView;
use crate::org::{has_dangling_member, lists_members_of, Org, OrgBuilder, OrgUser};
use crate::scope::OrgScope;
use crate::store::Store;
use crate::table::{chosen, lemma_chosen, lemma_chosen_step};
use vstd::prelude::*;

verus! {

/// Which organization to show.
pub struct Query {
    pub id: String,
}

/// Whether a failure is the refusal that [`require_access`] gives for a
/// request that is not granted.
pub open spec fn is_refusal(
    store: StoreView,
    org: Seq<char>,
    user: Seq<char>,
    scope: OrgScope,
    e: Error,
) -> bool {
    match decision(store, org, user, scope) {
        Decision::Granted => false,
        Decision::Forbidden => e@ == ErrorView::Forbidden(Seq::<char>::empty()),
        Decision::Unauthorized => e@ == ErrorView::Unauthorized(no_org_text()),
    }
}

/// Creates an organization for the caller under a fresh random id, at the
/// current time; see [`create_with`].
pub fn create(store: &mut Store, session: &Session, name: &str) -> (r: Result<Org, Error>)
    ensures
        exists|id: Seq<char>, created_at: int|
            id.len() == ID_LENGTH && is_alphanumeric_text(id) && clock_shows(created_at)
                && #[trigger] creation_outcome(
                old(store)@,
                final(store)@,
                session,
                name@,
                id,
                created_at,
                r,
            ),
{
    let id = gen_id();
    let created_at = unix_now();
    let ghost shown = id@;
    let r = create_with(store, session, name, id, created_at);
    proof {
        assert(creation_outcome(old(store)@, store@, session, name@, shown, created_at as int, r));
    }
    r
}

/// What creating an organization for the caller does: it fails with
/// `Unauthorized` where the caller's row is gone, with `Conflict` where the
/// id is taken, and changes nothing then; otherwise the organization exists
/// with the caller as its first member and admin.
pub open spec fn creation_outcome(
    before: StoreView,
    after: StoreView,
    session: &Session,
    name: Seq<char>,
    id: Seq<char>,
    created_at: int,
    r: Result<Org, Error>,
) -> bool {
    if !caller_known(before, session) {
        after == before && r is Err && is_no_session(r->Err_0)
    } else if before.orgs.contains_key(id) {
        after == before && r is Err && r->Err_0@ == ErrorView::Conflict(taken_text())
    } else {
        r is Ok && r->Ok_0.id@ == id && r->Ok_0.name@ == name && after == before.with_org(
            id,
            name,
            session.user_id@,
            created_at,
        )
    }
}

/// Creates an organization for the caller under the given id.
pub fn create_with(store: &mut Store, session: &Session, name: &str, id: String, created_at: i64) -> (r:
    Result<Org, Error>)
    ensures
        creation_outcome(old(store)@, final(store)@, session, name@, id@, created_at as int, r),
{
    let user = session.user(store)?;
    Org::create_with(store, id, created_at, OrgBuilder { name: name.to_owned(), creator: &user })
}

/// Shows an organization and its members to a caller who holds `GetOrg`
/// in it. Fails with `Unauthorized` where the caller's row is gone or the
/// organization does not exist, with `Forbidden` where the scope is
/// missing, with `InvalidState` where a member has no user row.
pub fn get(store: &Store, session: &Session, query: &Query) -> (r: Result<
    (Org, Vec<OrgUser>),
    Error,
>)
    ensures
        match r {
            Ok(shown) => caller_known(store@, session) && decision(
                store@,
                query.id@,
                session.user_id@,
                OrgScope::GetOrg,
            ) == Decision::Granted && shown.0.id@ == query.id@ && shown.0.name@
                == store@.orgs[query.id@].name && lists_members_of(shown.1@, store@, query.id@),
            Err(e) => if !caller_known(store@, session) {
                is_no_session(e)
            } else if decision(store@, query.id@, session.user_id@, OrgScope::GetOrg)
                != Decision::Granted {
                is_refusal(store@, query.id@, session.user_id@, OrgScope::GetOrg, e)
            } else {
                has_dangling_member(store@, query.id@) && e@ is InvalidState
            },
        },
{
    let user = session.user(store)?;
    let org = require_access(store, &user, query.id.as_str(), OrgScope::GetOrg)?;
    let members = org.list_users(store)?;
    Ok((org, members))
}

/// The organizations that a user may see: those in which the user's
/// effective permission set holds `GetOrg`.
pub open spec fn visible_to(store: StoreView, user: Seq<char>) -> Set<Seq<char>> {
    Set::new(
        |org: Seq<char>|
            store.orgs.contains_key(org) && store.effective(org, user).contains(OrgScope::GetOrg),
    )
}

/// Whether a list shows the organizations that a user may see, each once.
pub open spec fn lists_visible(list: Seq<Org>, store: StoreView, user: Seq<char>) -> bool {
    &&& forall|i: int|
        0 <= i < list.len() ==> visible_to(store, user).contains(#[trigger] list[i].id@)
            && list[i].name@ == store.orgs[list[i].id@].name
    &&& forall|i: int, j: int| 0 <= i < j < list.len() ==> list[i].id@ != list[j].id@
    &&& forall|org: Seq<char>|
        visible_to(store, user).contains(org) ==> exists|i: int|
            0 <= i < list.len() && #[trigger] list[i].id@ == org
}

/// Lists the organizations that the caller may see. Fails with
/// `Unauthorized` exactly where the caller's row is gone.
pub fn list(store: &Store, session: &Session) -> (r: Result<Vec<Org>, Error>)
    ensures
        match r {
            Ok(list) => caller_known(store@, session) && lists_visible(
                list@,
                store@,
                session.user_id@,
            ),
            Err(e) => !caller_known(store@, session) && is_no_session(e),
        },
{
    let user = session.user(store)?;
    let mut list: Vec<Org> = Vec::new();
    let n = store.orgs.len();
    let ghost keys = store.orgs.keys();
    let ghost wanted = visible_to(store@, user.id@);
    let ghost ids = Seq::<Seq<char>>::empty();
    proof {
        if n > 0 {
            lemma_chosen_step(keys, wanted, 0);
        } else {
            assert(keys.take(0) =~= keys);
        }
    }
    let mut i: usize = 0;
    while i < n
        invariant
            i <= n,
            n == keys.len(),
            keys == store.orgs.keys(),
            wanted == visible_to(store@, user.id@),
            ids == chosen(keys.take(i as int), wanted),
            ids.len() == list@.len(),
            forall|a: int|
                0 <= a < list@.len() ==> (#[trigger] list@[a]).id@ == ids[a] && list@[a].name@
                    == store@.orgs[ids[a]].name,
        decreases n - i,
    {
        let id = store.orgs.key_at(i);
        proof {
            lemma_chosen_step(keys, wanted, i as int);
        }
        let visible = match can_access(store, &user, id.as_str(), OrgScope::GetOrg) {
            Ok(access) => if access.accessible {
                Some(access.org)
            } else {
                None
            },
            Err(_) => None,
        };
        match visible {
            Some(org) => {
                list.push(org);
                proof {
                    ids = ids.push(keys[i as int]);
                }
            },
            None => {},
        }
        i = i + 1;
    }
    proof {
        assert(keys.take(n as int) =~= keys);
        lemma_chosen(keys, wanted);
        assert forall|a: int| 0 <= a < list@.len() implies wanted.contains(#[trigger] list@[a].id@)
            && list@[a].name@ == store@.orgs[list@[a].id@].name by {
            assert(ids[a] == list@[a].id@);
            assert(ids.contains(ids[a]));
        }
        assert forall|a: int, b: int| 0 <= a < b < list@.len() implies list@[a].id@
            != list@[b].id@ by {
            assert(ids[a] == list@[a].id@ && ids[b] == list@[b].id@);
        }
        assert forall|org: Seq<char>| wanted.contains(org) implies exists|a: int|
            0 <= a < list@.len() && #[trigger] list@[a].id@ == org by {
            assert(keys.contains(org));
            assert(ids.contains(org));
            let a = choose|a: int| 0 <= a < ids.len() && ids[a] == org;
            assert(list@[a].id@ == org);
        }
        assert(lists_visible(list@, store@, session.user_id@));
    }
    Ok(list)
}

/// Removes an organization for a caller who holds `RemoveOrg` in it.
/// Nothing changes on failure.
pub fn remove(store: &mut Store, session: &Session, org_id: &str) -> (r: Result<(), Error>)
    ensures
        match r {
            Ok(_) => caller_known(old(store)@, session) && decision(
                old(store)@,
                org_id@,
                session.user_id@,
                OrgScope::RemoveOrg,
            ) == Decision::Granted && final(store)@ == old(store)@.without_org(org_id@),
            Err(e) => final(store)@ == old(store)@ && if !caller_known(old(store)@, session) {
                is_no_session(e)
            } else {
                is_refusal(old(store)@, org_id@, session.user_id@, OrgScope::RemoveOrg, e)
            },
        },
{
    let user = session.user(store)?;
    let org = require_access(store, &user, org_id, OrgScope::RemoveOrg)?;
    org.remove(store)
}

} // verus!
