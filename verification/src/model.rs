//! The mathematical model of the store: users, sessions, organizations and
//! their memberships as maps and sets, and each operation as a function from
//! one state to the next. The contracts of the executable code and the laws
//! of the library are stated over this model.

use crate::scope::OrgScope;
use vstd::prelude::*;

verus! {

/// How a user proves who they are.
#[derive(Debug, Clone, Copy, PartialEq, Eq, Structural)]
pub enum AuthenticationMethod {
    Password,
}

/// Seconds from the creation of a session to its expiry: 30 days.
pub const SESSION_LIFETIME: i64 = 2_592_000;

/// Seconds from the issue of an email verification token to its expiry: 7 days.
pub const EMAIL_TOKEN_LIFETIME: i64 = 604_800;

/// One membership: the admin flag and the scopes granted explicitly.
pub struct MembershipView {
    pub is_admin: bool,
    pub scopes: Set<OrgScope>,
}

/// One organization with its members, keyed by user id.
pub struct OrgView {
    pub name: Seq<char>,
    pub created_at: int,
    pub members: Map<Seq<char>, MembershipView>,
}

/// One session, without its token.
pub struct SessionView {
    pub user_id: Seq<char>,
    pub expires_at: int,
    pub last_used: int,
}

/// One user, without the id. `emails` maps each associated address to
/// whether it has been verified.
pub struct UserView {
    pub name: Seq<char>,
    pub email: Seq<char>,
    pub method: AuthenticationMethod,
    pub password_hash: Option<Seq<char>>,
    pub emails: Map<Seq<char>, bool>,
}

/// One pending email verification, without its token.
pub struct EmailTokenView {
    pub user_id: Seq<char>,
    pub email: Seq<char>,
    pub expires_at: int,
}

/// The whole store: users by id, sessions by token, organizations by id,
/// pending email verifications by token.
pub struct StoreView {
    pub users: Map<Seq<char>, UserView>,
    pub sessions: Map<Seq<char>, SessionView>,
    pub orgs: Map<Seq<char>, OrgView>,
    pub email_tokens: Map<Seq<char>, EmailTokenView>,
}

/// The scopes granted to every member.
pub open spec fn default_grants() -> Set<OrgScope> {
    Set::new(|s: OrgScope| !s.is_admin_only())
}

/// The scopes granted automatically to admins only.
pub open spec fn admin_grants() -> Set<OrgScope> {
    Set::new(|s: OrgScope| s.is_admin_only())
}

/// Every scope of the catalog.
pub open spec fn all_grants() -> Set<OrgScope> {
    Set::new(|s: OrgScope| true)
}

/// What a member is granted on joining: the defaults, and the admin-only
/// scopes as well if and only if the member joins as admin.
pub open spec fn initial_grants(admin: bool) -> Set<OrgScope> {
    Set::new(|s: OrgScope| admin || !s.is_admin_only())
}

impl MembershipView {
    /// The membership that joining creates.
    pub open spec fn joining(admin: bool) -> MembershipView {
        MembershipView { is_admin: admin, scopes: initial_grants(admin) }
    }

    /// The membership of the user who creates an organization: admin, with
    /// every scope recorded explicitly.
    pub open spec fn founding() -> MembershipView {
        MembershipView { is_admin: true, scopes: all_grants() }
    }

    /// This membership with one scope granted or revoked.
    pub open spec fn with_scope(self, scope: OrgScope, enabled: bool) -> MembershipView {
        MembershipView {
            is_admin: self.is_admin,
            scopes: if enabled {
                self.scopes.insert(scope)
            } else {
                self.scopes.remove(scope)
            },
        }
    }

    /// What the member may do: everything for an admin, whatever is granted
    /// explicitly; the granted scopes for anyone else.
    pub open spec fn effective(self) -> Set<OrgScope> {
        if self.is_admin {
            all_grants()
        } else {
            self.scopes
        }
    }
}

impl OrgView {
    /// A new organization whose only member is its creator.
    pub open spec fn founded(name: Seq<char>, creator: Seq<char>, created_at: int) -> OrgView {
        OrgView {
            name,
            created_at,
            members: Map::<Seq<char>, MembershipView>::empty().insert(
                creator,
                MembershipView::founding(),
            ),
        }
    }

    /// This organization with other members.
    pub open spec fn with_members(self, members: Map<Seq<char>, MembershipView>) -> OrgView {
        OrgView { name: self.name, created_at: self.created_at, members }
    }

    /// This organization under another name.
    pub open spec fn renamed(self, name: Seq<char>) -> OrgView {
        OrgView { name, created_at: self.created_at, members: self.members }
    }
}

impl UserView {
    /// A user as registration creates it: no address associated yet.
    pub open spec fn registered(
        name: Seq<char>,
        email: Seq<char>,
        method: AuthenticationMethod,
        password_hash: Option<Seq<char>>,
    ) -> UserView {
        UserView { name, email, method, password_hash, emails: Map::empty() }
    }

    /// This user with another name and primary address.
    pub open spec fn with_profile(self, name: Seq<char>, email: Seq<char>) -> UserView {
        UserView {
            name,
            email,
            method: self.method,
            password_hash: self.password_hash,
            emails: self.emails,
        }
    }

    /// This user with another way to authenticate.
    pub open spec fn with_authentication(
        self,
        method: AuthenticationMethod,
        password_hash: Option<Seq<char>>,
    ) -> UserView {
        UserView { name: self.name, email: self.email, method, password_hash, emails: self.emails }
    }

    /// This user with other associated addresses.
    pub open spec fn with_emails(self, emails: Map<Seq<char>, bool>) -> UserView {
        UserView {
            name: self.name,
            email: self.email,
            method: self.method,
            password_hash: self.password_hash,
            emails,
        }
    }

    /// This user after an address was verified: it becomes the primary
    /// address, and is marked verified where it is associated.
    pub open spec fn verified(self, email: Seq<char>) -> UserView {
        UserView {
            name: self.name,
            email,
            method: self.method,
            password_hash: self.password_hash,
            emails: if self.emails.contains_key(email) {
                self.emails.insert(email, true)
            } else {
                self.emails
            },
        }
    }
}

impl SessionView {
    /// A session created at `now`: it expires 30 days later.
    pub open spec fn opened(user_id: Seq<char>, now: int) -> SessionView {
        SessionView { user_id, expires_at: now + SESSION_LIFETIME, last_used: now }
    }

    /// This session after a use at `now`.
    pub open spec fn used(self, now: int) -> SessionView {
        SessionView { user_id: self.user_id, expires_at: self.expires_at, last_used: now }
    }

    /// A session is expired once the clock has passed `expires_at`.
    pub open spec fn expired(self, now: int) -> bool {
        now > self.expires_at
    }
}

impl StoreView {
    /// The store with nothing in it.
    pub open spec fn empty() -> StoreView {
        StoreView {
            users: Map::empty(),
            sessions: Map::empty(),
            orgs: Map::empty(),
            email_tokens: Map::empty(),
        }
    }

    /// This store with other users.
    pub open spec fn with_users(self, users: Map<Seq<char>, UserView>) -> StoreView {
        StoreView {
            users,
            sessions: self.sessions,
            orgs: self.orgs,
            email_tokens: self.email_tokens,
        }
    }

    /// This store with other sessions.
    pub open spec fn with_sessions(self, sessions: Map<Seq<char>, SessionView>) -> StoreView {
        StoreView {
            users: self.users,
            sessions,
            orgs: self.orgs,
            email_tokens: self.email_tokens,
        }
    }

    /// This store with other organizations.
    pub open spec fn with_orgs(self, orgs: Map<Seq<char>, OrgView>) -> StoreView {
        StoreView {
            users: self.users,
            sessions: self.sessions,
            orgs,
            email_tokens: self.email_tokens,
        }
    }

    /// This store with other pending email verifications.
    pub open spec fn with_email_tokens(
        self,
        email_tokens: Map<Seq<char>, EmailTokenView>,
    ) -> StoreView {
        StoreView { users: self.users, sessions: self.sessions, orgs: self.orgs, email_tokens }
    }

    // ----- memberships -----
    /// The membership of a user in an organization, if both the
    /// organization and the membership exist.
    pub open spec fn member(self, org: Seq<char>, user: Seq<char>) -> Option<MembershipView> {
        if self.orgs.contains_key(org) && self.orgs[org].members.contains_key(user) {
            Some(self.orgs[org].members[user])
        } else {
            None
        }
    }

    /// The scopes granted explicitly to a user in an organization: empty
    /// where there is no membership.
    pub open spec fn granted(self, org: Seq<char>, user: Seq<char>) -> Set<OrgScope> {
        match self.member(org, user) {
            Some(m) => m.scopes,
            None => Set::empty(),
        }
    }

    /// Whether a user is an admin of an organization: `false` where there
    /// is no membership.
    pub open spec fn is_admin(self, org: Seq<char>, user: Seq<char>) -> bool {
        match self.member(org, user) {
            Some(m) => m.is_admin,
            None => false,
        }
    }

    /// The effective permission set of a user in an organization: every
    /// scope for an admin member, the granted scopes for another member,
    /// nothing without a membership.
    pub open spec fn effective(self, org: Seq<char>, user: Seq<char>) -> Set<OrgScope> {
        match self.member(org, user) {
            Some(m) => m.effective(),
            None => Set::empty(),
        }
    }

    /// The store after an organization was created by `creator`.
    pub open spec fn with_org(
        self,
        id: Seq<char>,
        name: Seq<char>,
        creator: Seq<char>,
        created_at: int,
    ) -> StoreView {
        self.with_orgs(self.orgs.insert(id, OrgView::founded(name, creator, created_at)))
    }

    /// The store after an organization was removed, with all its
    /// memberships and grants.
    pub open spec fn without_org(self, id: Seq<char>) -> StoreView {
        self.with_orgs(self.orgs.remove(id))
    }

    /// The store after the membership of `user` in `org` was set to `m`.
    /// Where the organization does not exist, nothing changes.
    pub open spec fn with_member(
        self,
        org: Seq<char>,
        user: Seq<char>,
        m: MembershipView,
    ) -> StoreView {
        if self.orgs.contains_key(org) {
            self.with_orgs(
                self.orgs.insert(
                    org,
                    self.orgs[org].with_members(self.orgs[org].members.insert(user, m)),
                ),
            )
        } else {
            self
        }
    }

    /// The store after `user` left `org`: the membership is gone, and with
    /// it every grant. Where there was none, nothing changes.
    pub open spec fn without_member(self, org: Seq<char>, user: Seq<char>) -> StoreView {
        if self.orgs.contains_key(org) {
            self.with_orgs(
                self.orgs.insert(
                    org,
                    self.orgs[org].with_members(self.orgs[org].members.remove(user)),
                ),
            )
        } else {
            self
        }
    }

    /// The store after one scope of an existing membership was granted or
    /// revoked. Where there is no membership, nothing changes.
    pub open spec fn with_scope(
        self,
        org: Seq<char>,
        user: Seq<char>,
        scope: OrgScope,
        enabled: bool,
    ) -> StoreView {
        match self.member(org, user) {
            Some(m) => self.with_member(org, user, m.with_scope(scope, enabled)),
            None => self,
        }
    }

    /// The store after `user` was removed from every organization.
    pub open spec fn without_memberships_of(self, user: Seq<char>) -> StoreView {
        self.with_orgs(
            Map::new(
                |id: Seq<char>| self.orgs.contains_key(id),
                |id: Seq<char>| self.orgs[id].with_members(self.orgs[id].members.remove(user)),
            ),
        )
    }

    // ----- sessions -----
    /// The tokens of the sessions that a user owns.
    pub open spec fn sessions_of(self, user: Seq<char>) -> Set<Seq<char>> {
        Set::new(
            |token: Seq<char>|
                self.sessions.contains_key(token) && self.sessions[token].user_id == user,
        )
    }

    /// The store after every session of a user was removed.
    pub open spec fn without_sessions_of(self, user: Seq<char>) -> StoreView {
        self.with_sessions(self.sessions.remove_keys(self.sessions_of(user)))
    }

    /// Whether a token names a session that has not expired at `now`.
    pub open spec fn live(self, token: Seq<char>, now: int) -> bool {
        self.sessions.contains_key(token) && !self.sessions[token].expired(now)
    }

    /// The store after an attempt to resolve a token at `now`: an unknown
    /// token changes nothing, an expired session is removed, a live one has
    /// its last use set to `now`.
    pub open spec fn after_resolve(self, token: Seq<char>, now: int) -> StoreView {
        if !self.sessions.contains_key(token) {
            self
        } else if self.sessions[token].expired(now) {
            self.with_sessions(self.sessions.remove(token))
        } else {
            self.with_sessions(self.sessions.insert(token, self.sessions[token].used(now)))
        }
    }

    /// The id of the user that a token resolves to at `now`: the owner of
    /// the session if it is live and the owner exists, nobody otherwise.
    pub open spec fn resolved(self, token: Seq<char>, now: int) -> Option<Seq<char>> {
        if self.live(token, now) && self.users.contains_key(self.sessions[token].user_id) {
            Some(self.sessions[token].user_id)
        } else {
            None
        }
    }

    // ----- users -----
    /// The store after one user row was set, where the user exists; the
    /// store itself otherwise.
    pub open spec fn with_user_changed(self, id: Seq<char>, user: UserView) -> StoreView {
        if self.users.contains_key(id) {
            self.with_users(self.users.insert(id, user))
        } else {
            self
        }
    }

    /// The store after a session was opened for a user at `now`.
    pub open spec fn with_session(self, token: Seq<char>, user: Seq<char>, now: int) -> StoreView {
        self.with_sessions(self.sessions.insert(token, SessionView::opened(user, now)))
    }

    /// The store after an address was associated to a user at `now`, to be
    /// verified with `token` within 7 days.
    pub open spec fn with_association(
        self,
        user: Seq<char>,
        email: Seq<char>,
        token: Seq<char>,
        now: int,
    ) -> StoreView {
        self.with_users(
            self.users.insert(
                user,
                self.users[user].with_emails(self.users[user].emails.insert(email, false)),
            ),
        ).with_email_tokens(
            self.email_tokens.insert(
                token,
                EmailTokenView { user_id: user, email, expires_at: now + EMAIL_TOKEN_LIFETIME },
            ),
        )
    }

    /// The store after a verification token was redeemed: the address is
    /// the user's primary address, marked verified, and the token is gone.
    pub open spec fn with_verification(self, token: Seq<char>) -> StoreView {
        let pending = self.email_tokens[token];
        self.with_user_changed(
            pending.user_id,
            self.users[pending.user_id].verified(pending.email),
        ).with_email_tokens(self.email_tokens.remove(token))
    }

    /// Whether an address is associated to a user and verified.
    pub open spec fn email_verified(self, user: Seq<char>, email: Seq<char>) -> bool {
        self.users.contains_key(user) && self.users[user].emails.contains_key(email)
            && self.users[user].emails[email]
    }

    /// The store after a user was deleted, with every session and every
    /// membership that the user owned.
    pub open spec fn without_user(self, id: Seq<char>) -> StoreView {
        self.with_users(self.users.remove(id)).without_sessions_of(id).without_memberships_of(id)
    }
}

} // verus!
