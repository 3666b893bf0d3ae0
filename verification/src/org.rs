//! Organizations and the memberships they own: who belongs to which
//! organization, who is admin, and which scopes each member was granted.

use crate::clock::{clock_shows, unix_now};
use crate::error::{dangling_text, gone_text, no_member_text, taken_text, Error, ErrorView};
use crate::ident::{gen_id, is_alphanumeric_text, ID_LENGTH};
use crate::model::{MembershipView, StoreView};
use crate::scope::{in_catalog_order, OrgScope};
use crate::store::{Membership, OrgRecord, ScopeSet, Store};
use crate::table::Table;
use crate::user::User;
use vstd::prelude::*;

verus! {

/// An organization, as read from the store.
#[derive(Debug, Clone)]
pub struct Org {
    pub id: String,
    pub name: String,
}

/// What is needed to create an organization.
#[derive(Debug, Clone)]
pub struct OrgBuilder<'a> {
    pub name: String,
    pub creator: &'a User,
}

/// An organization together with one of its users.
#[derive(Debug, Clone)]
pub struct OrgUserLink {
    pub org: Org,
    pub user: User,
}

/// A user who is part of an organization
pub struct OrgUser {
    /// The user itself
    pub user: User,
    /// Whether the user is an organization admin.
    /// When this is `true`, it does not matter which scopes
    /// the user has, they can do anything within the organization.
    pub is_org_admin: bool,
    /// The scopes that have been granted to the user
    pub scopes: Vec<OrgScope>,
}

impl OrgUser {
    /// Whether this entry shows a membership and the user row of the member:
    /// the user's data, the admin flag, and the granted scopes, each once.
    pub open spec fn shows(&self, store: StoreView, org: Seq<char>) -> bool {
        &&& store.member(org, self.user.id@) is Some
        &&& store.users.contains_key(self.user.id@)
        &&& self.user.shows(self.user.id@, store.users[self.user.id@])
        &&& self.is_org_admin == store.is_admin(org, self.user.id@)
        &&& self.scopes@.no_duplicates()
        &&& in_catalog_order(self.scopes@)
        &&& self.scopes@.to_set() == store.granted(org, self.user.id@)
    }
}

/// Whether a list shows the members of an organization: each entry is a
/// member, no member is shown twice, and none is missing.
pub open spec fn lists_members_of(list: Seq<OrgUser>, store: StoreView, org: Seq<char>) -> bool {
    &&& forall|i: int| 0 <= i < list.len() ==> (#[trigger] list[i]).shows(store, org)
    &&& forall|i: int, j: int| 0 <= i < j < list.len() ==> list[i].user.id@ != list[j].user.id@
    &&& forall|user: Seq<char>|
        store.member(org, user) is Some ==> exists|i: int|
            0 <= i < list.len() && #[trigger] list[i].user.id@ == user
}

/// Whether a list shows every organization of the store, each once.
pub open spec fn lists_orgs(list: Seq<Org>, store: StoreView) -> bool {
    &&& forall|i: int|
        0 <= i < list.len() ==> store.orgs.contains_key(#[trigger] list[i].id@) && list[i].name@
            == store.orgs[list[i].id@].name
    &&& forall|i: int, j: int| 0 <= i < j < list.len() ==> list[i].id@ != list[j].id@
    &&& forall|id: Seq<char>|
        store.orgs.contains_key(id) ==> exists|i: int|
            0 <= i < list.len() && #[trigger] list[i].id@ == id
}

/// Whether some member of an organization has no user row.
pub open spec fn has_dangling_member(store: StoreView, org: Seq<char>) -> bool {
    exists|user: Seq<char>| #[trigger]
        store.member(org, user) is Some && !store.users.contains_key(user)
}

impl Org {
    /// Creates an organization under a fresh random id, at the current
    /// time; see [`Org::create_with`]. It fails, with `Conflict`, only where
    /// the id drawn is taken.
    pub fn create(store: &mut Store, builder: OrgBuilder) -> (r: Result<Org, Error>)
        ensures
            match r {
                Ok(org) => org.id@.len() == ID_LENGTH && is_alphanumeric_text(org.id@)
                    && !old(store)@.orgs.contains_key(org.id@) && org.name@ == builder.name@
                    && exists|created_at: int|
                    clock_shows(created_at) && final(store)@ == #[trigger] old(store)@.with_org(
                        org.id@,
                        builder.name@,
                        builder.creator.id@,
                        created_at,
                    ),
                Err(e) => e@ == ErrorView::Conflict(taken_text()) && final(store)@ == old(store)@
                    && exists|id: Seq<char>|
                    id.len() == ID_LENGTH && is_alphanumeric_text(id)
                        && #[trigger] old(store)@.orgs.contains_key(id),
            },
    {
        let id = gen_id();
        let created_at = unix_now();
        let ghost drawn = id@;
        let r = Org::create_with(store, id, created_at, builder);
        proof {
            if r is Err {
                assert(old(store)@.orgs.contains_key(drawn));
            }
            if r is Ok {
                assert(store@ == old(store)@.with_org(
                    r->Ok_0.id@,
                    builder.name@,
                    builder.creator.id@,
                    created_at as int,
                ));
            }
        }
        r
    }

    /// Creates an organization under the given id. Its creator becomes its
    /// first member: admin, with every scope of the catalog granted
    /// explicitly. Fails with `Conflict`, and changes nothing, exactly where
    /// the id is taken.
    pub fn create_with(store: &mut Store, id: String, created_at: i64, builder: OrgBuilder) -> (r:
        Result<Org, Error>)
        ensures
            match r {
                Ok(org) => !old(store)@.orgs.contains_key(id@) && org.id@ == id@ && org.name@
                    == builder.name@ && final(store)@ == old(store)@.with_org(
                    id@,
                    builder.name@,
                    builder.creator.id@,
                    created_at as int,
                ),
                Err(e) => old(store)@.orgs.contains_key(id@) && e@ == ErrorView::Conflict(
                    taken_text(),
                ) && final(store)@ == old(store)@,
            },
    {
        if store.orgs.contains_key(id.as_str()) {
            return Err(Error::taken());
        }
        let mut members: Table<Membership> = Table::new();
        members.insert(builder.creator.id.clone(), Membership { is_admin: true, scopes: ScopeSet::full() });
        store.orgs.insert(id.clone(), OrgRecord { name: builder.name.clone(), created_at, members });
        Ok(Org { id, name: builder.name })
    }

    /// Removes the organization with all its memberships and grants.
    pub fn remove(self, store: &mut Store) -> (r: Result<(), Error>)
        ensures
            r is Ok,
            final(store)@ == old(store)@.without_org(self.id@),
    {
        store.orgs.remove(self.id.as_str());
        Ok(())
    }

    /// Stores the name of this handle in the organization's row. Where the
    /// row is gone nothing changes.
    pub fn update(&self, store: &mut Store) -> (r: Result<(), Error>)
        ensures
            r is Ok,
            final(store)@ == if old(store)@.orgs.contains_key(self.id@) {
                old(store)@.with_orgs(
                    old(store)@.orgs.insert(self.id@, old(store)@.orgs[self.id@].renamed(self.name@)),
                )
            } else {
                old(store)@
            },
    {
        match store.orgs.replace(self.id.as_str(), OrgRecord::blank()) {
            Some(row) => {
                let changed = OrgRecord {
                    name: self.name.clone(),
                    created_at: row.created_at,
                    members: row.members,
                };
                let ghost shown = changed@;
                store.orgs.replace(self.id.as_str(), changed);
                assert(store@.orgs =~= old(store)@.orgs.insert(self.id@, shown));
            },
            None => {},
        }
        Ok(())
    }

    /// The organization stored under an id, if there is one.
    pub fn get(store: &Store, id: String) -> (r: Result<Option<Org>, Error>)
        ensures
            match r {
                Ok(Some(org)) => store@.orgs.contains_key(id@) && org.id@ == id@ && org.name@
                    == store@.orgs[id@].name,
                Ok(None) => !store@.orgs.contains_key(id@),
                Err(_) => false,
            },
    {
        match store.orgs.get(id.as_str()) {
            Some(row) => Ok(Some(Org { id, name: row.name.clone() })),
            None => Ok(None),
        }
    }

    /// List all known orgs
    pub fn list_available(store: &Store) -> (r: Result<Vec<Org>, Error>)
        ensures
            match r {
                Ok(list) => lists_orgs(list@, store@),
                Err(_) => false,
            },
    {
        let mut list: Vec<Org> = Vec::new();
        let n = store.orgs.len();
        let ghost keys = store.orgs.keys();
        let mut i: usize = 0;
        while i < n
            invariant
                i <= n,
                n == keys.len(),
                keys == store.orgs.keys(),
                list@.len() == i,
                forall|a: int|
                    0 <= a < i ==> (#[trigger] list@[a]).id@ == keys[a] && list@[a].name@
                        == store@.orgs[keys[a]].name,
            decreases n - i,
        {
            let id = store.orgs.key_at(i).clone();
            let name = store.orgs.value_at(i).name.clone();
            list.push(Org { id, name });
            i = i + 1;
        }
        proof {
            assert forall|a: int| 0 <= a < list@.len() implies store@.orgs.contains_key(
                #[trigger] list@[a].id@,
            ) && list@[a].name@ == store@.orgs[list@[a].id@].name by {
                assert(keys.contains(keys[a]));
                assert(list@[a].id@ == keys[a]);
            }
            assert forall|a: int, b: int| 0 <= a < b < list@.len() implies list@[a].id@
                != list@[b].id@ by {
                assert(list@[a].id@ == keys[a] && list@[b].id@ == keys[b]);
            }
            assert forall|id: Seq<char>| store@.orgs.contains_key(id) implies exists|a: int|
                0 <= a < list@.len() && #[trigger] list@[a].id@ == id by {
                assert(keys.contains(id));
                let a = choose|a: int| 0 <= a < keys.len() && keys[a] == id;
                assert(list@[a].id@ == id);
            }
            assert(lists_orgs(list@, store@));
        }
        Ok(list)
    }

    /// Add a user to the organization. The member is granted the default
    /// scopes, and the admin-only scopes as well if and only if `admin` is
    /// set. Fails with `Conflict` exactly where the user is a member
    /// already, with `InvalidState` exactly where the organization's row is
    /// gone; nothing changes then.
    pub fn add_user(&self, store: &mut Store, user: &User, admin: bool) -> (r: Result<(), Error>)
        ensures
            match r {
                Ok(_) => old(store)@.orgs.contains_key(self.id@) && old(store)@.member(
                    self.id@,
                    user.id@,
                ) is None && final(store)@ == old(store)@.with_member(
                    self.id@,
                    user.id@,
                    MembershipView::joining(admin),
                ),
                Err(e) => final(store)@ == old(store)@ && if old(store)@.orgs.contains_key(
                    self.id@,
                ) {
                    old(store)@.member(self.id@, user.id@) is Some && e@ == ErrorView::Conflict(
                        taken_text(),
                    )
                } else {
                    e@ == ErrorView::InvalidState(gone_text())
                },
            },
    {
        if !store.orgs.contains_key(self.id.as_str()) {
            return Err(Error::gone());
        }
        if store.member(self.id.as_str(), user.id.as_str()).is_some() {
            return Err(Error::taken());
        }
        let joining = Membership { is_admin: admin, scopes: ScopeSet::initial(admin) };
        store.set_member(self.id.as_str(), user.id.as_str(), joining);
        Ok(())
    }

    /// Remove a user from the organization, with every grant of the
    /// membership. Removing a user who is no member changes nothing and is
    /// no failure. If the user is the last user, the organization is **not**
    /// automatically deleted, this is up to the callee
    pub fn remove_user(&self, store: &mut Store, user: &User) -> (r: Result<(), Error>)
        ensures
            r is Ok,
            final(store)@ == old(store)@.without_member(self.id@, user.id@),
    {
        store.drop_member(self.id.as_str(), user.id.as_str());
        Ok(())
    }

    /// Enable or disable a scope on a user for this organization. Only the
    /// one scope changes, and the admin flag is not touched. Fails with
    /// `NotFound`, and changes nothing, exactly where the user is no member.
    pub fn set_scope(&self, store: &mut Store, user: &User, scope: &OrgScope, enabled: bool) -> (r:
        Result<(), Error>)
        ensures
            final(store)@ == old(store)@.with_scope(self.id@, user.id@, *scope, enabled),
            match r {
                Ok(_) => old(store)@.member(self.id@, user.id@) is Some,
                Err(e) => old(store)@.member(self.id@, user.id@) is None && e@
                    == ErrorView::NotFound(no_member_text()),
            },
    {
        match store.member(self.id.as_str(), user.id.as_str()) {
            Some(m) => {
                let mut m = m;
                m.scopes.set(*scope, enabled);
                store.set_member(self.id.as_str(), user.id.as_str(), m);
                Ok(())
            },
            None => Err(Error::no_member()),
        }
    }

    /// List all users in the organization, each with the admin flag and
    /// the granted scopes. Fails with `InvalidState` exactly where a member
    /// has no user row; the message names such a member.
    pub fn list_users(&self, store: &Store) -> (r: Result<Vec<OrgUser>, Error>)
        ensures
            match r {
                Ok(list) => !has_dangling_member(store@, self.id@) && lists_members_of(
                    list@,
                    store@,
                    self.id@,
                ),
                Err(e) => exists|user: Seq<char>| #[trigger]
                    store@.member(self.id@, user) is Some && !store@.users.contains_key(user) && e@
                        == ErrorView::InvalidState(dangling_text(user, self.id@)),
            },
    {
        let mut list: Vec<OrgUser> = Vec::new();
        let row = match store.orgs.get(self.id.as_str()) {
            Some(row) => row,
            None => {
                proof {
                    assert forall|user: Seq<char>| store@.member(self.id@, user) is None by {}
                    assert(lists_members_of(list@, store@, self.id@));
                }
                return Ok(list);
            },
        };
        let n = row.members.len();
        let ghost keys = row.members.keys();
        let mut i: usize = 0;
        while i < n
            invariant
                i <= n,
                n == keys.len(),
                keys == row.members.keys(),
                store@.orgs.contains_key(self.id@),
                row@ == store@.orgs[self.id@],
                list@.len() == i,
                forall|a: int|
                    0 <= a < i ==> (#[trigger] list@[a]).user.id@ == keys[a] && list@[a].shows(
                        store@,
                        self.id@,
                    ),
            decreases n - i,
        {
            let user_id = row.members.key_at(i);
            let m = row.members.value_at(i);
            assert(store@.member(self.id@, user_id@) == Some(m@));
            let user = match User::get(store, user_id.clone()) {
                Ok(Some(user)) => user,
                _ => {
                    return Err(Error::dangling(user_id.as_str(), self.id.as_str()));
                },
            };
            let scopes = m.scopes.to_vec();
            assert(scopes@.to_set() =~= store@.granted(self.id@, user_id@));
            list.push(OrgUser { user, is_org_admin: m.is_admin, scopes });
            i = i + 1;
        }
        proof {
            assert forall|a: int, b: int| 0 <= a < b < list@.len() implies list@[a].user.id@
                != list@[b].user.id@ by {
                assert(list@[a].user.id@ == keys[a] && list@[b].user.id@ == keys[b]);
            }
            assert forall|user: Seq<char>| #[trigger]
                store@.member(self.id@, user) is Some implies exists|a: int|
                0 <= a < list@.len() && #[trigger] list@[a].user.id@ == user by {
                assert(keys.contains(user));
                let a = choose|a: int| 0 <= a < keys.len() && keys[a] == user;
                assert(list@[a].user.id@ == user);
            }
            assert forall|user: Seq<char>| #[trigger]
                store@.member(self.id@, user) is Some implies store@.users.contains_key(user) by {
                assert(keys.contains(user));
                let a = choose|a: int| 0 <= a < keys.len() && keys[a] == user;
                assert(list@[a].user.id@ == user);
                assert(list@[a].shows(store@, self.id@));
            }
            assert(lists_members_of(list@, store@, self.id@));
        }
        Ok(list)
    }

    /// List all scopes a user has in the organization: the scopes granted
    /// explicitly, each once, in catalog order; none where the user is no
    /// member.
    pub fn list_scopes(&self, store: &Store, user: &User) -> (r: Result<Vec<OrgScope>, Error>)
        ensures
            match r {
                Ok(scopes) => scopes@.no_duplicates() && in_catalog_order(scopes@)
                    && scopes@.to_set() == store@.granted(self.id@, user.id@),
                Err(_) => false,
            },
    {
        match store.member(self.id.as_str(), user.id.as_str()) {
            Some(m) => {
                let scopes = m.scopes.to_vec();
                assert(scopes@.to_set() =~= store@.granted(self.id@, user.id@));
                Ok(scopes)
            },
            None => {
                let scopes: Vec<OrgScope> = Vec::new();
                assert(scopes@.to_set() =~= Set::<OrgScope>::empty());
                Ok(scopes)
            },
        }
    }
}

} // verus!
