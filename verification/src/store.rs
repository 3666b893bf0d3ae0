//! The store in memory: the tables of users, sessions, organizations and
//! pending email verifications, and the rows they hold.

use crate::model::{
    all_grants, initial_grants, AuthenticationMethod, EmailTokenView, MembershipView, OrgView,
    SessionView, StoreView, UserView,
};
use crate::error::{Error, ErrorView};
use crate::scope::{in_catalog_order, OrgScope};
use crate::table::Table;
use vstd::prelude::*;

verus! {

/// The scopes granted explicitly to one member: one flag for each scope of
/// the catalog.
#[derive(Debug, Clone, Copy)]
pub struct ScopeSet {
    pub add_user: bool,
    pub get_org: bool,
    pub remove_org: bool,
    pub update_org: bool,
}

impl View for ScopeSet {
    type V = Set<OrgScope>;

    open spec fn view(&self) -> Set<OrgScope> {
        Set::new(|s: OrgScope| self.holds(s))
    }
}

impl ScopeSet {
    /// Whether the flag of a scope is set.
    pub open spec fn holds(self, scope: OrgScope) -> bool {
        match scope {
            OrgScope::AddUser => self.add_user,
            OrgScope::GetOrg => self.get_org,
            OrgScope::RemoveOrg => self.remove_org,
            OrgScope::UpdateOrg => self.update_org,
        }
    }

    /// No scope.
    pub fn empty() -> (r: ScopeSet)
        ensures
            r@ == Set::<OrgScope>::empty(),
    {
        let r = ScopeSet { add_user: false, get_org: false, remove_org: false, update_org: false };
        assert(r@ =~= Set::<OrgScope>::empty());
        r
    }

    /// Whether a scope is in the set.
    pub fn contains(&self, scope: OrgScope) -> (r: bool)
        ensures
            r == self@.contains(scope),
    {
        match scope {
            OrgScope::AddUser => self.add_user,
            OrgScope::GetOrg => self.get_org,
            OrgScope::RemoveOrg => self.remove_org,
            OrgScope::UpdateOrg => self.update_org,
        }
    }

    /// Puts one scope into the set, or takes it out.
    pub fn set(&mut self, scope: OrgScope, enabled: bool)
        ensures
            final(self)@ == if enabled {
                old(self)@.insert(scope)
            } else {
                old(self)@.remove(scope)
            },
    {
        match scope {
            OrgScope::AddUser => {
                self.add_user = enabled;
            },
            OrgScope::GetOrg => {
                self.get_org = enabled;
            },
            OrgScope::RemoveOrg => {
                self.remove_org = enabled;
            },
            OrgScope::UpdateOrg => {
                self.update_org = enabled;
            },
        }
        assert(self@ =~= if enabled {
            old(self)@.insert(scope)
        } else {
            old(self)@.remove(scope)
        });
    }

    /// The set with every scope of a list added.
    pub fn with_all(self, scopes: &Vec<OrgScope>) -> (r: ScopeSet)
        ensures
            r@ == self@.union(scopes@.to_set()),
    {
        let mut r = self;
        let mut i: usize = 0;
        while i < scopes.len()
            invariant
                i <= scopes@.len(),
                r@ == self@.union(scopes@.take(i as int).to_set()),
            decreases scopes@.len() - i,
        {
            let ghost before = r@;
            r.set(scopes[i], true);
            proof {
                let head = scopes@.take(i as int);
                let next = scopes@.take(i + 1);
                assert(next =~= head.push(scopes@[i as int]));
                assert forall|s: OrgScope| #[trigger]
                    next.to_set().contains(s) <==> head.to_set().contains(s) || s == scopes@[i as int] by {
                    if next.contains(s) {
                        let j = choose|j: int| 0 <= j < next.len() && next[j] == s;
                        if j < i {
                            assert(head[j] == s);
                        }
                    }
                    if head.contains(s) {
                        let j = choose|j: int| 0 <= j < head.len() && head[j] == s;
                        assert(next[j] == s);
                    }
                    assert(next[i as int] == scopes@[i as int]);
                }
                assert(r@ =~= self@.union(next.to_set()));
            }
            i = i + 1;
        }
        proof {
            assert(scopes@.take(scopes@.len() as int) =~= scopes@);
        }
        r
    }

    /// What a member is granted on joining: the default scopes, and the
    /// admin-only scopes too for an admin.
    pub fn initial(admin: bool) -> (r: ScopeSet)
        ensures
            r@ == initial_grants(admin),
    {
        let mut r = ScopeSet::empty().with_all(&OrgScope::default_scopes());
        if admin {
            r = r.with_all(&OrgScope::admin_scopes());
        }
        proof {
            assert forall|s: OrgScope| #[trigger]
                r@.contains(s) <==> initial_grants(admin).contains(s) by {
                crate::scope::lemma_catalog_partition(s);
            }
            assert(r@ =~= initial_grants(admin));
        }
        r
    }

    /// Every scope of the catalog.
    pub fn full() -> (r: ScopeSet)
        ensures
            r@ == all_grants(),
    {
        let r = ScopeSet::empty().with_all(&OrgScope::variants());
        proof {
            assert forall|s: OrgScope| #[trigger] r@.contains(s) by {
                crate::scope::lemma_catalog_partition(s);
            }
            assert(r@ =~= all_grants());
        }
        r
    }

    /// The scopes that a list of stored names names. Fails with
    /// `UnknownEnumVariant` exactly where a name is no scope of the catalog.
    pub fn from_names(names: &Vec<String>) -> (r: Result<ScopeSet, Error>)
        ensures
            match r {
                Ok(set) => all_named(names@) && set@ == named_by(names@),
                Err(e) => !all_named(names@) && e@ == ErrorView::UnknownEnumVariant,
            },
    {
        let mut set = ScopeSet::empty();
        let mut i: usize = 0;
        while i < names.len()
            invariant
                i <= names@.len(),
                forall|j: int| 0 <= j < i ==> OrgScope::parse(#[trigger] names@[j]@) is Some,
                forall|scope: OrgScope|
                    set@.contains(scope) <==> exists|j: int|
                        0 <= j < i && #[trigger] names@[j]@ == scope.name(),
            decreases names@.len() - i,
        {
            let ghost before = set@;
            match OrgScope::from_str(names[i].as_str()) {
                Ok(found) => {
                    set.set(found, true);
                    proof {
                        let at = i as int;
                        crate::scope::lemma_parse_inverts_print(names@[at]@, found);
                        assert forall|scope: OrgScope|
                            set@.contains(scope) <==> exists|j: int|
                                0 <= j < i + 1 && #[trigger] names@[j]@ == scope.name() by {
                            crate::scope::lemma_names_distinct(scope, found);
                            if before.contains(scope) {
                                let j = choose|j: int|
                                    0 <= j < i && #[trigger] names@[j]@ == scope.name();
                                assert(names@[j]@ == scope.name());
                            }
                            if exists|j: int| 0 <= j < i + 1 && #[trigger] names@[j]@ == scope.name() {
                                let j = choose|j: int|
                                    0 <= j < i + 1 && #[trigger] names@[j]@ == scope.name();
                                if j < i {
                                    assert(before.contains(scope));
                                }
                            }
                            if scope == found {
                                assert(names@[at]@ == scope.name());
                            }
                        }
                    }
                },
                Err(_) => {
                    proof {
                        assert(OrgScope::parse(names@[i as int]@) is None);
                    }
                    return Err(Error::UnknownEnumVariant);
                },
            }
            i = i + 1;
        }
        proof {
            assert(set@ =~= named_by(names@));
        }
        Ok(set)
    }

    /// The names of the scopes of the set, in catalog order, each once.
    pub fn names(&self) -> (r: Vec<String>)
        ensures
            all_named(r@),
            named_by(r@) == self@,
            forall|i: int, j: int| 0 <= i < j < r@.len() ==> r@[i]@ != r@[j]@,
            forall|i: int, j: int|
                0 <= i < j < r@.len() ==> OrgScope::parse(r@[i]@)->Some_0.ordinal()
                    < OrgScope::parse(r@[j]@)->Some_0.ordinal(),
    {
        let scopes = self.to_vec();
        let mut names: Vec<String> = Vec::new();
        let mut i: usize = 0;
        while i < scopes.len()
            invariant
                i <= scopes@.len(),
                names@.len() == i,
                forall|j: int| 0 <= j < i ==> (#[trigger] names@[j])@ == scopes@[j].name(),
            decreases scopes@.len() - i,
        {
            names.push(scopes[i].to_string());
            i = i + 1;
        }
        proof {
            assert forall|j: int| 0 <= j < names@.len() implies OrgScope::parse(
                #[trigger] names@[j]@,
            ) is Some by {
                crate::scope::lemma_parse_inverts_print(names@[j]@, scopes@[j]);
            }
            assert forall|scope: OrgScope| named_by(names@).contains(scope) <==> self@.contains(
                scope,
            ) by {
                if named_by(names@).contains(scope) {
                    let j = choose|j: int|
                        0 <= j < names@.len() && #[trigger] names@[j]@ == scope.name();
                    crate::scope::lemma_names_distinct(scope, scopes@[j]);
                    assert(scopes@.contains(scopes@[j]));
                }
                if self@.contains(scope) {
                    assert(scopes@.contains(scope));
                    let j = choose|j: int| 0 <= j < scopes@.len() && scopes@[j] == scope;
                    assert(names@[j]@ == scope.name());
                }
            }
            assert(named_by(names@) =~= self@);
            assert forall|a: int, b: int| 0 <= a < b < names@.len() implies names@[a]@
                != names@[b]@ && OrgScope::parse(names@[a]@)->Some_0.ordinal() < OrgScope::parse(
                names@[b]@,
            )->Some_0.ordinal() by {
                crate::scope::lemma_names_distinct(scopes@[a], scopes@[b]);
                crate::scope::lemma_parse_inverts_print(names@[a]@, scopes@[a]);
                crate::scope::lemma_parse_inverts_print(names@[b]@, scopes@[b]);
            }
        }
        names
    }

    /// The scopes of the set as a list, in catalog order, each once.
    pub fn to_vec(&self) -> (r: Vec<OrgScope>)
        ensures
            r@.no_duplicates(),
            in_catalog_order(r@),
            forall|s: OrgScope| r@.contains(s) <==> self@.contains(s),
    {
        let all = OrgScope::variants();
        let mut out: Vec<OrgScope> = Vec::new();
        let mut i: usize = 0;
        while i < all.len()
            invariant
                i <= all@.len(),
                all@ == OrgScope::all(),
                all@.no_duplicates(),
                out@.no_duplicates(),
                in_catalog_order(out@),
                forall|a: int| 0 <= a < out@.len() ==> (#[trigger] out@[a]).ordinal() < i,
                forall|s: OrgScope|
                    out@.contains(s) <==> (self@.contains(s) && listed_before(all@, i as int, s)),
            decreases all@.len() - i,
        {
            let scope = all[i];
            let ghost before = out@;
            assert(!listed_before(all@, i as int, scope));
            proof {
                crate::scope::lemma_catalog_partition(scope);
                assert(scope.ordinal() == i) by {
                    if scope.ordinal() != i {
                        assert(all@[scope.ordinal()] == all@[i as int]);
                    }
                }
            }
            if self.contains(scope) {
                out.push(scope);
                proof {
                    assert(out@[before.len() as int] == scope);
                    assert forall|s: OrgScope| #[trigger]
                        out@.contains(s) <==> (self@.contains(s) && listed_before(
                            all@,
                            i + 1,
                            s,
                        )) by {
                        if out@.contains(s) {
                            let j = choose|j: int| 0 <= j < out@.len() && out@[j] == s;
                            if j < before.len() {
                                assert(before[j] == s);
                            }
                        }
                        if before.contains(s) {
                            let j = choose|j: int| 0 <= j < before.len() && before[j] == s;
                            assert(out@[j] == s);
                        }
                    }
                }
            }
            i = i + 1;
        }
        proof {
            assert forall|s: OrgScope| out@.contains(s) <==> self@.contains(s) by {
                crate::scope::lemma_catalog_partition(s);
                if self@.contains(s) {
                    let k = choose|k: int| 0 <= k < all@.len() && all@[k] == s;
                    assert(listed_before(all@, all@.len() as int, s));
                }
            }
        }
        out
    }
}

/// Whether every text of a list is the name of a scope of the catalog.
pub open spec fn all_named(names: Seq<String>) -> bool {
    forall|i: int| 0 <= i < names.len() ==> OrgScope::parse(#[trigger] names[i]@) is Some
}

/// The scopes whose names stand in a list.
pub open spec fn named_by(names: Seq<String>) -> Set<OrgScope> {
    Set::new(
        |scope: OrgScope| exists|i: int| 0 <= i < names.len() && #[trigger] names[i]@ == scope.name(),
    )
}

/// Whether a scope stands in a list before a position.
pub open spec fn listed_before(list: Seq<OrgScope>, end: int, scope: OrgScope) -> bool {
    exists|k: int| 0 <= k < end && k < list.len() && #[trigger] list[k] == scope
}

/// One membership row: the admin flag and the granted scopes.
#[derive(Debug, Clone, Copy)]
pub struct Membership {
    pub is_admin: bool,
    pub scopes: ScopeSet,
}

impl View for Membership {
    type V = MembershipView;

    open spec fn view(&self) -> MembershipView {
        MembershipView { is_admin: self.is_admin, scopes: self.scopes@ }
    }
}

/// One organization row, with the memberships it owns keyed by user id.
pub struct OrgRecord {
    pub name: String,
    pub created_at: i64,
    pub members: Table<Membership>,
}

impl View for OrgRecord {
    type V = OrgView;

    open spec fn view(&self) -> OrgView {
        OrgView { name: self.name@, created_at: self.created_at as int, members: self.members@ }
    }
}

/// One session row, without its token.
pub struct SessionRecord {
    pub user_id: String,
    pub expires_at: i64,
    pub last_used: i64,
}

impl View for SessionRecord {
    type V = SessionView;

    open spec fn view(&self) -> SessionView {
        SessionView {
            user_id: self.user_id@,
            expires_at: self.expires_at as int,
            last_used: self.last_used as int,
        }
    }
}

/// One user row, without the id, with the addresses associated to the user.
pub struct UserRecord {
    pub name: String,
    pub email: String,
    pub method: AuthenticationMethod,
    pub password_hash: Option<String>,
    pub emails: Table<bool>,
}

impl View for UserRecord {
    type V = UserView;

    open spec fn view(&self) -> UserView {
        UserView {
            name: self.name@,
            email: self.email@,
            method: self.method,
            password_hash: match self.password_hash {
                Some(h) => Some(h@),
                None => None,
            },
            emails: self.emails@,
        }
    }
}

/// One pending email verification, without its token.
pub struct EmailToken {
    pub user_id: String,
    pub email: String,
    pub expires_at: i64,
}

impl View for EmailToken {
    type V = EmailTokenView;

    open spec fn view(&self) -> EmailTokenView {
        EmailTokenView {
            user_id: self.user_id@,
            email: self.email@,
            expires_at: self.expires_at as int,
        }
    }
}

/// The store: every table of the library in one value.
pub struct Store {
    pub users: Table<UserRecord>,
    pub sessions: Table<SessionRecord>,
    pub orgs: Table<OrgRecord>,
    pub email_tokens: Table<EmailToken>,
}

impl View for Store {
    type V = StoreView;

    open spec fn view(&self) -> StoreView {
        StoreView {
            users: self.users@,
            sessions: self.sessions@,
            orgs: self.orgs@,
            email_tokens: self.email_tokens@,
        }
    }
}

impl OrgRecord {
    /// An organization row without name or members.
    pub fn blank() -> (r: OrgRecord)
        ensures
            r@ == (OrgView {
                name: Seq::<char>::empty(),
                created_at: 0,
                members: Map::<Seq<char>, MembershipView>::empty(),
            }),
    {
        OrgRecord { name: String::new(), created_at: 0, members: Table::new() }
    }
}

impl UserRecord {
    /// A user row with empty texts and no address.
    pub fn blank() -> (r: UserRecord)
        ensures
            r@ == UserView::registered(
                Seq::<char>::empty(),
                Seq::<char>::empty(),
                AuthenticationMethod::Password,
                None,
            ),
    {
        UserRecord {
            name: String::new(),
            email: String::new(),
            method: AuthenticationMethod::Password,
            password_hash: None,
            emails: Table::new(),
        }
    }
}

impl Store {
    /// A store with nothing in it.
    pub fn new() -> (s: Store)
        ensures
            s@ == StoreView::empty(),
    {
        Store {
            users: Table::new(),
            sessions: Table::new(),
            orgs: Table::new(),
            email_tokens: Table::new(),
        }
    }

    /// The membership of a user in an organization, if there is one.
    pub fn member(&self, org: &str, user: &str) -> (r: Option<Membership>)
        ensures
            match r {
                Some(m) => self@.member(org@, user@) == Some(m@),
                None => self@.member(org@, user@) is None,
            },
    {
        match self.orgs.get(org) {
            Some(rec) => match rec.members.get(user) {
                Some(m) => Some(*m),
                None => None,
            },
            None => None,
        }
    }

    /// Sets the membership of a user in an organization, new or not. Where
    /// the organization does not exist nothing changes and `false` is
    /// returned.
    pub fn set_member(&mut self, org: &str, user: &str, m: Membership) -> (done: bool)
        ensures
            done == old(self)@.orgs.contains_key(org@),
            final(self)@ == old(self)@.with_member(org@, user@, m@),
            final(self).orgs.keys() == old(self).orgs.keys(),
    {
        match self.orgs.replace(org, OrgRecord::blank()) {
            Some(rec) => {
                let mut rec = rec;
                if rec.members.replace(user, m).is_none() {
                    rec.members.insert(user.to_owned(), m);
                }
                let ghost changed = rec@;
                self.orgs.replace(org, rec);
                proof {
                    assert(changed == old(self)@.orgs[org@].with_members(
                        old(self)@.orgs[org@].members.insert(user@, m@),
                    ));
                    assert(self@.orgs =~= old(self)@.orgs.insert(org@, changed));
                }
                true
            },
            None => false,
        }
    }

    /// Removes the membership of a user in an organization, with its grants.
    /// Where there is none nothing changes.
    pub fn drop_member(&mut self, org: &str, user: &str)
        ensures
            final(self)@ == old(self)@.without_member(org@, user@),
            final(self).orgs.keys() == old(self).orgs.keys(),
    {
        match self.orgs.replace(org, OrgRecord::blank()) {
            Some(rec) => {
                let mut rec = rec;
                rec.members.remove(user);
                let ghost changed = rec@;
                self.orgs.replace(org, rec);
                proof {
                    assert(changed == old(self)@.orgs[org@].with_members(
                        old(self)@.orgs[org@].members.remove(user@),
                    ));
                    assert(self@.orgs =~= old(self)@.orgs.insert(org@, changed));
                }
            },
            None => {},
        }
    }

    /// Removes every session that a user owns.
    pub fn drop_sessions_of(&mut self, user: &str)
        ensures
            final(self)@ == old(self)@.without_sessions_of(user@),
    {
        let owner = user.to_owned();
        let mut doomed: Vec<String> = Vec::new();
        let n = self.sessions.len();
        let mut i: usize = 0;
        while i < n
            invariant
                i <= n,
                n == self.sessions.keys().len(),
                owner@ == user@,
                forall|k: int|
                    0 <= k < doomed@.len() ==> self@.sessions_of(user@).contains(
                        #[trigger] doomed@[k]@,
                    ),
                forall|j: int|
                    0 <= j < i && self@.sessions_of(user@).contains(
                        #[trigger] self.sessions.keys()[j],
                    ) ==> exists|k: int| 0 <= k < doomed@.len() && doomed@[k]@ == self.sessions.keys()[j],
            decreases n - i,
        {
            let ghost before = doomed@;
            if self.sessions.value_at(i).user_id == owner {
                doomed.push(self.sessions.key_at(i).clone());
                proof {
                    assert(doomed@[before.len() as int]@ == self.sessions.keys()[i as int]);
                    assert forall|j: int|
                        0 <= j < i + 1 && self@.sessions_of(user@).contains(
                            #[trigger] self.sessions.keys()[j],
                        ) implies exists|k: int|
                        0 <= k < doomed@.len() && doomed@[k]@ == self.sessions.keys()[j] by {
                        if j < i {
                            let k = choose|k: int|
                                0 <= k < before.len() && before[k]@ == self.sessions.keys()[j];
                            assert(doomed@[k]@ == self.sessions.keys()[j]);
                        } else {
                            assert(doomed@[before.len() as int]@ == self.sessions.keys()[j]);
                        }
                    }
                }
            }
            i = i + 1;
        }
        let ghost listed = self.sessions.keys();
        let mut j: usize = 0;
        while j < doomed.len()
            invariant
                j <= doomed@.len(),
                self.users == old(self).users,
                self.orgs == old(self).orgs,
                self.email_tokens == old(self).email_tokens,
                forall|t: Seq<char>|
                    self.sessions@.contains_key(t) <==> (old(self)@.sessions.contains_key(t) && !exists|
                        k: int,
                    |
                        0 <= k < j && #[trigger] doomed@[k]@ == t),
                forall|t: Seq<char>|
                    self.sessions@.contains_key(t) ==> self.sessions@[t] == old(self)@.sessions[t],
            decreases doomed@.len() - j,
        {
            let ghost before = self.sessions@;
            self.sessions.remove(doomed[j].as_str());
            proof {
                assert forall|t: Seq<char>|
                    self.sessions@.contains_key(t) <==> (old(self)@.sessions.contains_key(t) && !exists|
                        k: int,
                    |
                        0 <= k < j + 1 && #[trigger] doomed@[k]@ == t) by {
                    if before.contains_key(t) && t != doomed@[j as int]@ {
                        if exists|k: int| 0 <= k < j + 1 && #[trigger] doomed@[k]@ == t {
                            let k = choose|k: int| 0 <= k < j + 1 && #[trigger] doomed@[k]@ == t;
                            assert(k < j);
                        }
                    }
                }
            }
            j = j + 1;
        }
        proof {
            let target = old(self)@.sessions.remove_keys(old(self)@.sessions_of(user@));
            assert forall|t: Seq<char>| self.sessions@.contains_key(t) <==> target.contains_key(
                t,
            ) by {
                if old(self)@.sessions.contains_key(t) {
                    if old(self)@.sessions_of(user@).contains(t) {
                        assert(listed.contains(t));
                        let a = choose|a: int| 0 <= a < listed.len() && listed[a] == t;
                        assert(old(self)@.sessions_of(user@).contains(listed[a]));
                        let k = choose|k: int| 0 <= k < doomed@.len() && doomed@[k]@ == listed[a];
                        assert(doomed@[k]@ == t);
                    } else {
                        if exists|k: int| 0 <= k < doomed@.len() && #[trigger] doomed@[k]@ == t {
                            let k = choose|k: int|
                                0 <= k < doomed@.len() && #[trigger] doomed@[k]@ == t;
                            assert(old(self)@.sessions_of(user@).contains(doomed@[k]@));
                        }
                    }
                }
            }
            assert(self.sessions@ =~= target);
        }
    }

    /// Removes a user from every organization.
    pub fn drop_memberships_of(&mut self, user: &str)
        ensures
            final(self)@ == old(self)@.without_memberships_of(user@),
    {
        let n = self.orgs.len();
        let ghost listed = self.orgs.keys();
        let mut i: usize = 0;
        while i < n
            invariant
                i <= n,
                n == listed.len(),
                listed.no_duplicates(),
                self.orgs.keys() == listed,
                forall|k: Seq<char>| listed.contains(k) <==> old(self)@.orgs.contains_key(k),
                forall|k: Seq<char>| listed.contains(k) <==> self@.orgs.contains_key(k),
                self@.users == old(self)@.users,
                self@.sessions == old(self)@.sessions,
                self@.email_tokens == old(self)@.email_tokens,
                forall|j: int|
                    0 <= j < i ==> self@.orgs[#[trigger] listed[j]] == old(self)@.orgs[listed[j]].with_members(
                        old(self)@.orgs[listed[j]].members.remove(user@),
                    ),
                forall|j: int|
                    i <= j < n ==> self@.orgs[#[trigger] listed[j]] == old(self)@.orgs[listed[j]],
            decreases n - i,
        {
            let key = self.orgs.key_at(i).clone();
            let ghost before = self@;
            assert(listed.contains(key@));
            self.drop_member(key.as_str(), user);
            proof {
                assert(self@.orgs =~= before.orgs.insert(
                    key@,
                    before.orgs[key@].with_members(before.orgs[key@].members.remove(user@)),
                ));
                assert forall|j: int| 0 <= j < i + 1 implies self@.orgs[#[trigger] listed[j]]
                    == old(self)@.orgs[listed[j]].with_members(
                    old(self)@.orgs[listed[j]].members.remove(user@),
                ) by {
                    if j < i {
                        assert(listed[j] != listed[i as int]);
                    }
                }
                assert forall|j: int| i + 1 <= j < n implies self@.orgs[#[trigger] listed[j]]
                    == old(self)@.orgs[listed[j]] by {
                    assert(listed[j] != listed[i as int]);
                }
                assert forall|k: Seq<char>| listed.contains(k) <==> self@.orgs.contains_key(k) by {}
            }
            i = i + 1;
        }
        proof {
            let target = old(self)@.without_memberships_of(user@);
            assert forall|k: Seq<char>| self@.orgs.contains_key(k) implies self@.orgs[k]
                == target.orgs[k] by {
                assert(listed.contains(k));
                let j = choose|j: int| 0 <= j < listed.len() && listed[j] == k;
                assert(old(self)@.orgs.contains_key(listed[j]));
                assert(self@.orgs[listed[j]] == target.orgs[listed[j]]);
            }
            assert forall|k: Seq<char>| self@.orgs.contains_key(k) <==> target.orgs.contains_key(
                k,
            ) by {
                assert(listed.contains(k) <==> self@.orgs.contains_key(k));
                assert(listed.contains(k) <==> old(self)@.orgs.contains_key(k));
            }
            assert(self@.orgs =~= target.orgs);
        }
    }
}

} // verus!
