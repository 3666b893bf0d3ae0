//! What holds of the store for every state and every input, proved over
//! the model that the contracts of the operations are stated in.

use crate::access::{decision, is_session_token, resolution_outcome, Decision, Session};
use crate::error::{no_session_text, Error, ErrorView};
use crate::model::{
    admin_grants, all_grants, default_grants, initial_grants, MembershipView, StoreView,
    SESSION_LIFETIME,
};
use crate::scope::{lemma_catalog_partition, OrgScope};
use crate::user::session_prefix;
use vstd::prelude::*;

verus! {

/// The grant sets are the lists of the catalog: the defaults are the default
/// scopes, the admin grants the admin-only scopes, and all grants every
/// scope; the two classes are disjoint and together make up the catalog.
pub proof fn law_grant_sets_are_the_catalog()
    ensures
        default_grants() == OrgScope::defaults().to_set(),
        admin_grants() == OrgScope::admin_only().to_set(),
        all_grants() == OrgScope::all().to_set(),
        default_grants().disjoint(admin_grants()),
        default_grants().union(admin_grants()) == all_grants(),
{
    assert forall|s: OrgScope|
        (default_grants().contains(s) <==> OrgScope::defaults().to_set().contains(s)) && (
        admin_grants().contains(s) <==> OrgScope::admin_only().to_set().contains(s))
            && OrgScope::all().to_set().contains(s) by {
        lemma_catalog_partition(s);
    }
    assert(default_grants() =~= OrgScope::defaults().to_set());
    assert(admin_grants() =~= OrgScope::admin_only().to_set());
    assert(all_grants() =~= OrgScope::all().to_set());
    assert(default_grants().union(admin_grants()) =~= all_grants());
}

/// The user who creates an organization is a member of it, is admin, holds
/// every scope explicitly, and has the full catalog as effective permission
/// set.
pub proof fn law_creator_is_full_admin(
    before: StoreView,
    id: Seq<char>,
    name: Seq<char>,
    creator: Seq<char>,
    created_at: int,
)
    ensures
        ({
            let after = before.with_org(id, name, creator, created_at);
            &&& after.member(id, creator) is Some
            &&& after.is_admin(id, creator)
            &&& after.granted(id, creator) == all_grants()
            &&& after.effective(id, creator) == all_grants()
            &&& forall|scope: OrgScope| decision(after, id, creator, scope) == Decision::Granted
        }),
{
}

/// A user added without the admin flag is granted exactly the default
/// scopes, and so no admin-only scope.
pub proof fn law_plain_member_gets_defaults(before: StoreView, org: Seq<char>, user: Seq<char>)
    requires
        before.orgs.contains_key(org),
    ensures
        ({
            let after = before.with_member(org, user, MembershipView::joining(false));
            &&& after.granted(org, user) == default_grants()
            &&& after.granted(org, user) == OrgScope::defaults().to_set()
            &&& !after.is_admin(org, user)
            &&& forall|scope: OrgScope|
                scope.is_admin_only() ==> !after.granted(org, user).contains(scope)
        }),
{
    law_grant_sets_are_the_catalog();
    assert(initial_grants(false) =~= default_grants());
}

/// A user added with the admin flag is granted the default scopes and the
/// admin-only scopes.
pub proof fn law_admin_member_gets_all(before: StoreView, org: Seq<char>, user: Seq<char>)
    requires
        before.orgs.contains_key(org),
    ensures
        ({
            let after = before.with_member(org, user, MembershipView::joining(true));
            &&& after.granted(org, user) == default_grants().union(admin_grants())
            &&& after.granted(org, user) == OrgScope::defaults().to_set().union(
                OrgScope::admin_only().to_set(),
            )
            &&& after.is_admin(org, user)
        }),
{
    law_grant_sets_are_the_catalog();
    assert(initial_grants(true) =~= default_grants().union(admin_grants()));
}

/// Setting a scope twice to the same value is the same as setting it once.
/// Revoking a scope after granting it leaves the grants as they were but
/// for that scope, which is gone; no other grant, no other member and no
/// flag changes.
pub proof fn law_set_scope_is_idempotent(
    before: StoreView,
    org: Seq<char>,
    user: Seq<char>,
    scope: OrgScope,
    enabled: bool,
)
    ensures
        before.with_scope(org, user, scope, enabled).with_scope(org, user, scope, enabled)
            == before.with_scope(org, user, scope, enabled),
        before.with_scope(org, user, scope, true).with_scope(org, user, scope, false).granted(
            org,
            user,
        ) == before.granted(org, user).remove(scope),
        before.with_scope(org, user, scope, true).with_scope(org, user, scope, false)
            == before.with_scope(org, user, scope, false),
        before.with_scope(org, user, scope, enabled).is_admin(org, user) == before.is_admin(
            org,
            user,
        ),
{
    let once = before.with_scope(org, user, scope, enabled);
    let twice = once.with_scope(org, user, scope, enabled);
    if before.member(org, user) is Some {
        let m = before.member(org, user)->Some_0;
        let m1 = m.with_scope(scope, enabled);
        assert(once.member(org, user) == Some(m1));
        assert(m1.with_scope(scope, enabled).scopes =~= m1.scopes);
        assert(once.orgs[org].members.insert(user, m1) =~= once.orgs[org].members);
        assert(twice.orgs =~= once.orgs);

        let granted = before.with_scope(org, user, scope, true);
        let g = m.with_scope(scope, true);
        assert(granted.member(org, user) == Some(g));
        let revoked = granted.with_scope(org, user, scope, false);
        assert(g.with_scope(scope, false).scopes =~= m.scopes.remove(scope));
        assert(revoked.granted(org, user) =~= before.granted(org, user).remove(scope));
        let direct = before.with_scope(org, user, scope, false);
        assert(revoked.orgs[org].members =~= direct.orgs[org].members);
        assert(revoked.orgs =~= direct.orgs);
    } else {
        assert(before.granted(org, user).remove(scope) =~= before.granted(org, user));
    }
}

/// After a user was removed from an organization the user has no grant
/// there, and a request of the user for any scope is answered `Forbidden`
/// where the organization exists: the organization is still there, only the
/// membership is gone.
pub proof fn law_removed_member_is_forbidden(
    before: StoreView,
    org: Seq<char>,
    user: Seq<char>,
    scope: OrgScope,
)
    ensures
        ({
            let after = before.without_member(org, user);
            &&& after.member(org, user) is None
            &&& after.granted(org, user) == Set::<OrgScope>::empty()
            &&& after.orgs.contains_key(org) == before.orgs.contains_key(org)
            &&& before.orgs.contains_key(org) ==> decision(after, org, user, scope)
                == Decision::Forbidden
        }),
{
}

/// A request that names an organization which does not exist is answered
/// `Unauthorized`, whatever the scope, the user and the rest of the store.
pub proof fn law_unknown_org_is_unauthorized(
    store: StoreView,
    org: Seq<char>,
    user: Seq<char>,
    scope: OrgScope,
)
    requires
        !store.orgs.contains_key(org),
    ensures
        decision(store, org, user, scope) == Decision::Unauthorized,
{
}

/// An admin member is granted every scope of the catalog whatever the
/// explicit grants are: revoking a scope leaves the member admin, and the
/// answer to a request of the member for any scope stays `Granted`.
pub proof fn law_admin_overrides_grants(
    before: StoreView,
    org: Seq<char>,
    user: Seq<char>,
    revoked: OrgScope,
    scope: OrgScope,
)
    requires
        before.is_admin(org, user),
    ensures
        decision(before, org, user, scope) == Decision::Granted,
        before.with_scope(org, user, revoked, false).is_admin(org, user),
        !before.with_scope(org, user, revoked, false).granted(org, user).contains(revoked),
        decision(before.with_scope(org, user, revoked, false), org, user, scope)
            == Decision::Granted,
{
}

/// A session that was just opened for an existing user resolves to that
/// user until its expiry, 30 days later, and each use only sets its last
/// use.
pub proof fn law_fresh_session_resolves(
    before: StoreView,
    user: Seq<char>,
    secret: Seq<char>,
    now: int,
    later: int,
)
    requires
        before.users.contains_key(user),
        now <= later <= now + SESSION_LIFETIME,
    ensures
        ({
            let token = session_prefix() + secret;
            let opened = before.with_session(token, user, now);
            &&& is_session_token(token)
            &&& opened.resolved(token, now) == Some(user)
            &&& opened.resolved(token, later) == Some(user)
            &&& opened.after_resolve(token, later).resolved(token, later) == Some(user)
            &&& opened.after_resolve(token, later).sessions[token].last_used == later
            &&& opened.after_resolve(token, later).sessions[token].expires_at == now
                + SESSION_LIFETIME
        }),
{
    reveal_strlit("US_");
    let token = session_prefix() + secret;
    assert(token.subrange(0, 3) =~= session_prefix());
}

/// Once the expiry of a session has passed, resolving its token fails with
/// `Unauthorized` and removes the session; resolving the token again, at any
/// time, fails with the same `Unauthorized`.
pub proof fn law_expired_session_is_unauthorized(
    opened: StoreView,
    token: Seq<char>,
    later: int,
    again: int,
    first_state: StoreView,
    first: Result<Session, Error>,
    second_state: StoreView,
    second: Result<Session, Error>,
)
    requires
        opened.sessions.contains_key(token),
        opened.sessions[token].expires_at < later,
        resolution_outcome(opened, first_state, token, later, first),
        resolution_outcome(first_state, second_state, token, again, second),
    ensures
        first is Err,
        first->Err_0@ == ErrorView::Unauthorized(no_session_text()),
        is_session_token(token) ==> !first_state.sessions.contains_key(token),
        second is Err,
        second->Err_0@ == ErrorView::Unauthorized(no_session_text()),
        second_state == first_state,
{
}

/// Removing a session is idempotent, and a removed session resolves to
/// nobody.
pub proof fn law_removed_session_is_gone(store: StoreView, token: Seq<char>, now: int)
    ensures
        ({
            let after = store.with_sessions(store.sessions.remove(token));
            &&& after.with_sessions(after.sessions.remove(token)) == after
            &&& after.resolved(token, now) is None
            &&& after.after_resolve(token, now) == after
        }),
{
    let after = store.with_sessions(store.sessions.remove(token));
    assert(after.sessions.remove(token) =~= after.sessions);
}

/// After every session of a user was removed, none of the user's tokens
/// resolves, and the sessions of every other user are as they were.
pub proof fn law_logout_everywhere(store: StoreView, user: Seq<char>, token: Seq<char>, now: int)
    ensures
        ({
            let after = store.without_sessions_of(user);
            &&& after.sessions_of(user) == Set::<Seq<char>>::empty()
            &&& store.sessions_of(user).contains(token) ==> after.resolved(token, now) is None
            &&& store.sessions.contains_key(token) && store.sessions[token].user_id != user
                ==> after.sessions.contains_key(token) && after.sessions[token]
                == store.sessions[token]
        }),
{
    let after = store.without_sessions_of(user);
    assert(after.sessions_of(user) =~= Set::<Seq<char>>::empty());
}

/// Deleting a user removes every session and every membership that the
/// user owns, in every organization.
pub proof fn law_user_delete_cascades(
    store: StoreView,
    user: Seq<char>,
    token: Seq<char>,
    org: Seq<char>,
)
    ensures
        ({
            let after = store.without_user(user);
            &&& !after.users.contains_key(user)
            &&& after.sessions_of(user) == Set::<Seq<char>>::empty()
            &&& after.member(org, user) is None
            &&& after.orgs.contains_key(org) == store.orgs.contains_key(org)
        }),
{
    let after = store.without_user(user);
    assert(after.sessions_of(user) =~= Set::<Seq<char>>::empty());
}

/// Removing an organization removes every membership in it: a request for
/// it is answered `Unauthorized` afterwards.
pub proof fn law_org_remove_cascades(
    store: StoreView,
    org: Seq<char>,
    user: Seq<char>,
    scope: OrgScope,
)
    ensures
        store.without_org(org).member(org, user) is None,
        decision(store.without_org(org), org, user, scope) == Decision::Unauthorized,
{
}

} // verus!
