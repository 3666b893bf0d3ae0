use invoicex::access::{can_access, require_access};
use invoicex::error::Error;
use invoicex::model::AuthenticationMethod;
use invoicex::org::{Org, OrgBuilder};
use invoicex::scope::OrgScope;
use invoicex::store::{Store, UserRecord};
use invoicex::table::Table;
use invoicex::user::User;

fn plain_user(store: &mut Store, id: &str) -> User {
    let row = UserRecord {
        name: format!("name of {id}"),
        email: format!("{id}@example.com"),
        method: AuthenticationMethod::Password,
        password_hash: None,
        emails: Table::new(),
    };
    assert!(store.users.insert(id.to_string(), row));
    User::get(store, id.to_string()).unwrap().unwrap()
}

fn org_of(store: &mut Store, id: &str, creator: &User) -> Org {
    Org::create_with(store, id.to_string(), 1_700_000_000, OrgBuilder {
        name: format!("{id} inc"),
        creator,
    })
    .unwrap()
}

fn sorted(mut scopes: Vec<OrgScope>) -> Vec<String> {
    let mut names: Vec<String> = scopes.drain(..).map(|s| s.to_string()).collect();
    names.sort();
    names
}

fn accessible(store: &Store, user: &User, org: &str, scope: OrgScope) -> bool {
    can_access(store, user, org, scope).unwrap().accessible
}

#[test]
fn the_creator_is_admin_with_every_scope() {
    let mut store = Store::new();
    let u1 = plain_user(&mut store, "u1");
    let org = org_of(&mut store, "acme", &u1);
    assert_eq!(org.id, "acme");
    assert_eq!(org.name, "acme inc");
    let member = store.member("acme", "u1").unwrap();
    assert!(member.is_admin);
    assert_eq!(sorted(org.list_scopes(&store, &u1).unwrap()), sorted(OrgScope::variants()));
    for scope in OrgScope::variants() {
        assert!(accessible(&store, &u1, "acme", scope));
    }
    assert_eq!(store.orgs.get("acme").unwrap().created_at, 1_700_000_000);
}

#[test]
fn a_plain_member_gets_exactly_the_defaults() {
    let mut store = Store::new();
    let u1 = plain_user(&mut store, "u1");
    let u2 = plain_user(&mut store, "u2");
    let org = org_of(&mut store, "acme", &u1);
    org.add_user(&mut store, &u2, false).unwrap();
    let scopes = org.list_scopes(&store, &u2).unwrap();
    assert_eq!(sorted(scopes.clone()), sorted(OrgScope::default_scopes()));
    for scope in OrgScope::admin_scopes() {
        assert!(!scopes.contains(&scope));
    }
    assert!(!store.member("acme", "u2").unwrap().is_admin);
}

#[test]
fn an_admin_member_gets_defaults_and_admin_scopes() {
    let mut store = Store::new();
    let u1 = plain_user(&mut store, "u1");
    let u2 = plain_user(&mut store, "u2");
    let org = org_of(&mut store, "acme", &u1);
    org.add_user(&mut store, &u2, true).unwrap();
    let mut expected = OrgScope::default_scopes();
    expected.extend(OrgScope::admin_scopes());
    assert_eq!(sorted(org.list_scopes(&store, &u2).unwrap()), sorted(expected));
    assert!(store.member("acme", "u2").unwrap().is_admin);
}

#[test]
fn adding_a_member_twice_is_a_conflict() {
    let mut store = Store::new();
    let u1 = plain_user(&mut store, "u1");
    let u2 = plain_user(&mut store, "u2");
    let org = org_of(&mut store, "acme", &u1);
    org.add_user(&mut store, &u2, false).unwrap();
    let again = org.add_user(&mut store, &u2, true);
    assert!(matches!(again, Err(Error::Conflict(_))));
    assert!(!store.member("acme", "u2").unwrap().is_admin);
    assert_eq!(sorted(org.list_scopes(&store, &u2).unwrap()), sorted(OrgScope::default_scopes()));
    assert!(matches!(org.add_user(&mut store, &u1, false), Err(Error::Conflict(_))));
    assert!(store.member("acme", "u1").unwrap().is_admin);
}

#[test]
fn adding_to_a_removed_organization_is_an_invalid_state() {
    let mut store = Store::new();
    let u1 = plain_user(&mut store, "u1");
    let u2 = plain_user(&mut store, "u2");
    let org = org_of(&mut store, "acme", &u1);
    let stale = org.clone();
    org.remove(&mut store).unwrap();
    match stale.add_user(&mut store, &u2, false) {
        Err(Error::InvalidState(m)) => {
            assert_eq!(m, "The row that the handle names does not exist")
        }
        _ => panic!("expected InvalidState"),
    }
    assert_eq!(store.orgs.len(), 0);
}

#[test]
fn setting_a_scope_is_idempotent() {
    let mut store = Store::new();
    let u1 = plain_user(&mut store, "u1");
    let u2 = plain_user(&mut store, "u2");
    let org = org_of(&mut store, "acme", &u1);
    org.add_user(&mut store, &u2, false).unwrap();
    org.set_scope(&mut store, &u2, &OrgScope::AddUser, true).unwrap();
    let once = sorted(org.list_scopes(&store, &u2).unwrap());
    org.set_scope(&mut store, &u2, &OrgScope::AddUser, true).unwrap();
    let twice = sorted(org.list_scopes(&store, &u2).unwrap());
    assert_eq!(once, twice);
    assert_eq!(once, vec!["AddUser", "GetOrg", "RemoveOrg", "UpdateOrg"]);
    org.set_scope(&mut store, &u2, &OrgScope::AddUser, false).unwrap();
    assert_eq!(sorted(org.list_scopes(&store, &u2).unwrap()), vec![
        "GetOrg",
        "RemoveOrg",
        "UpdateOrg"
    ]);
    org.set_scope(&mut store, &u2, &OrgScope::AddUser, false).unwrap();
    assert_eq!(sorted(org.list_scopes(&store, &u2).unwrap()), vec![
        "GetOrg",
        "RemoveOrg",
        "UpdateOrg"
    ]);
}

#[test]
fn revoking_a_scope_removes_exactly_that_scope() {
    let mut store = Store::new();
    let u1 = plain_user(&mut store, "u1");
    let u2 = plain_user(&mut store, "u2");
    let org = org_of(&mut store, "acme", &u1);
    org.add_user(&mut store, &u2, true).unwrap();
    org.set_scope(&mut store, &u2, &OrgScope::GetOrg, false).unwrap();
    assert_eq!(sorted(org.list_scopes(&store, &u2).unwrap()), vec![
        "AddUser",
        "RemoveOrg",
        "UpdateOrg"
    ]);
    assert!(store.member("acme", "u2").unwrap().is_admin);
    assert_eq!(sorted(org.list_scopes(&store, &u1).unwrap()), sorted(OrgScope::variants()));
}

#[test]
fn setting_a_scope_of_a_stranger_is_not_found() {
    let mut store = Store::new();
    let u1 = plain_user(&mut store, "u1");
    let u2 = plain_user(&mut store, "u2");
    let org = org_of(&mut store, "acme", &u1);
    match org.set_scope(&mut store, &u2, &OrgScope::GetOrg, true) {
        Err(Error::NotFound(m)) => assert_eq!(m, "The user is not a member of the organization"),
        _ => panic!("expected NotFound"),
    }
    assert!(store.member("acme", "u2").is_none());
    assert!(org.list_scopes(&store, &u2).unwrap().is_empty());
    assert!(matches!(
        org.set_scope(&mut store, &u2, &OrgScope::GetOrg, false),
        Err(Error::NotFound(_))
    ));
}

#[test]
fn a_removed_member_has_no_scope_and_is_forbidden() {
    let mut store = Store::new();
    let u1 = plain_user(&mut store, "u1");
    let u2 = plain_user(&mut store, "u2");
    let org = org_of(&mut store, "acme", &u1);
    org.add_user(&mut store, &u2, true).unwrap();
    org.remove_user(&mut store, &u2).unwrap();
    assert!(org.list_scopes(&store, &u2).unwrap().is_empty());
    for scope in OrgScope::variants() {
        assert!(!accessible(&store, &u2, "acme", scope));
        assert!(matches!(require_access(&store, &u2, "acme", scope), Err(Error::Forbidden(_))));
    }
    assert!(org.remove_user(&mut store, &u2).is_ok());
    assert!(store.orgs.contains_key("acme"));
    assert!(store.member("acme", "u1").is_some());
}

#[test]
fn a_user_can_join_again_after_leaving() {
    let mut store = Store::new();
    let u1 = plain_user(&mut store, "u1");
    let u2 = plain_user(&mut store, "u2");
    let org = org_of(&mut store, "acme", &u1);
    org.add_user(&mut store, &u2, true).unwrap();
    org.remove_user(&mut store, &u2).unwrap();
    org.add_user(&mut store, &u2, false).unwrap();
    assert!(!store.member("acme", "u2").unwrap().is_admin);
    assert_eq!(sorted(org.list_scopes(&store, &u2).unwrap()), sorted(OrgScope::default_scopes()));
}

#[test]
fn an_unknown_organization_is_unauthorized_for_every_scope() {
    let mut store = Store::new();
    let u1 = plain_user(&mut store, "u1");
    org_of(&mut store, "acme", &u1);
    for scope in OrgScope::variants() {
        match can_access(&store, &u1, "nowhere", scope) {
            Err(Error::Unauthorized(m)) => assert_eq!(
                m,
                "The requested organization does not exist or the user has no access"
            ),
            _ => panic!("expected Unauthorized"),
        }
        assert!(matches!(
            require_access(&store, &u1, "nowhere", scope),
            Err(Error::Unauthorized(_))
        ));
    }
    assert!(matches!(
        can_access(&Store::new(), &u1, "acme", OrgScope::GetOrg),
        Err(Error::Unauthorized(_))
    ));
}

#[test]
fn an_admin_stays_authorized_without_explicit_grants() {
    let mut store = Store::new();
    let u1 = plain_user(&mut store, "u1");
    let u2 = plain_user(&mut store, "u2");
    let org = org_of(&mut store, "acme", &u1);
    org.add_user(&mut store, &u2, true).unwrap();
    for scope in OrgScope::variants() {
        org.set_scope(&mut store, &u2, &scope, false).unwrap();
    }
    assert!(org.list_scopes(&store, &u2).unwrap().is_empty());
    for scope in OrgScope::variants() {
        assert!(accessible(&store, &u2, "acme", scope));
        assert_eq!(require_access(&store, &u2, "acme", scope).unwrap().id, "acme");
    }
}

#[test]
fn access_follows_the_explicit_grants_of_a_plain_member() {
    let mut store = Store::new();
    let u1 = plain_user(&mut store, "u1");
    let u2 = plain_user(&mut store, "u2");
    let org = org_of(&mut store, "acme", &u1);
    org.add_user(&mut store, &u2, false).unwrap();
    assert!(accessible(&store, &u2, "acme", OrgScope::GetOrg));
    assert!(accessible(&store, &u2, "acme", OrgScope::UpdateOrg));
    assert!(!accessible(&store, &u2, "acme", OrgScope::AddUser));
    org.set_scope(&mut store, &u2, &OrgScope::GetOrg, false).unwrap();
    assert!(!accessible(&store, &u2, "acme", OrgScope::GetOrg));
    let access = can_access(&store, &u2, "acme", OrgScope::GetOrg).unwrap();
    assert_eq!(access.org.id, "acme");
    assert_eq!(access.org.name, "acme inc");
}

#[test]
fn acme_scenario() {
    let mut store = Store::new();
    let u1 = plain_user(&mut store, "U1");
    let u2 = plain_user(&mut store, "U2");
    let acme = org_of(&mut store, "acme", &u1);
    assert!(store.member("acme", "U1").unwrap().is_admin);
    assert_eq!(sorted(acme.list_scopes(&store, &u1).unwrap()), sorted(OrgScope::variants()));

    acme.add_user(&mut store, &u2, false).unwrap();
    assert_eq!(sorted(acme.list_scopes(&store, &u2).unwrap()), sorted(OrgScope::default_scopes()));
    assert!(!can_access(&store, &u2, "acme", OrgScope::AddUser).unwrap().accessible);

    acme.set_scope(&mut store, &u2, &OrgScope::AddUser, true).unwrap();
    assert!(can_access(&store, &u2, "acme", OrgScope::AddUser).unwrap().accessible);

    acme.remove_user(&mut store, &u2).unwrap();
    assert!(!can_access(&store, &u2, "acme", OrgScope::AddUser).unwrap().accessible);
    match require_access(&store, &u2, "acme", OrgScope::AddUser) {
        Err(Error::Forbidden(m)) => assert_eq!(m, ""),
        _ => panic!("expected Forbidden"),
    }
}

#[test]
fn memberships_of_different_organizations_are_independent() {
    let mut store = Store::new();
    let u1 = plain_user(&mut store, "u1");
    let u2 = plain_user(&mut store, "u2");
    let acme = org_of(&mut store, "acme", &u1);
    let beta = org_of(&mut store, "beta", &u2);
    acme.add_user(&mut store, &u2, false).unwrap();
    assert!(accessible(&store, &u2, "beta", OrgScope::AddUser));
    assert!(!accessible(&store, &u2, "acme", OrgScope::AddUser));
    assert!(!accessible(&store, &u1, "beta", OrgScope::GetOrg));
    beta.set_scope(&mut store, &u2, &OrgScope::GetOrg, false).unwrap();
    assert!(acme.list_scopes(&store, &u2).unwrap().contains(&OrgScope::GetOrg));
}

#[test]
fn removing_an_organization_removes_its_memberships() {
    let mut store = Store::new();
    let u1 = plain_user(&mut store, "u1");
    let u2 = plain_user(&mut store, "u2");
    let acme = org_of(&mut store, "acme", &u1);
    org_of(&mut store, "beta", &u1);
    acme.add_user(&mut store, &u2, true).unwrap();
    let handle = acme.clone();
    acme.remove(&mut store).unwrap();
    assert!(Org::get(&store, "acme".to_string()).unwrap().is_none());
    assert!(store.member("acme", "u1").is_none());
    assert!(store.member("acme", "u2").is_none());
    assert!(handle.list_scopes(&store, &u2).unwrap().is_empty());
    assert!(handle.list_users(&store).unwrap().is_empty());
    assert!(matches!(
        can_access(&store, &u1, "acme", OrgScope::GetOrg),
        Err(Error::Unauthorized(_))
    ));
    assert!(store.member("beta", "u1").is_some());
    let again = org_of(&mut store, "acme", &u2);
    assert!(store.member("acme", "u1").is_none());
    assert!(again.remove(&mut store).is_ok());
    assert!(handle.remove(&mut store).is_ok());
}

#[test]
fn a_taken_organization_id_is_a_conflict() {
    let mut store = Store::new();
    let u1 = plain_user(&mut store, "u1");
    let u2 = plain_user(&mut store, "u2");
    org_of(&mut store, "acme", &u1);
    let again = Org::create_with(&mut store, "acme".to_string(), 5, OrgBuilder {
        name: "other".to_string(),
        creator: &u2,
    });
    match again {
        Err(Error::Conflict(m)) => assert_eq!(m, "A row with this key exists already"),
        _ => panic!("expected Conflict"),
    }
    assert_eq!(store.orgs.get("acme").unwrap().name, "acme inc");
    assert!(store.member("acme", "u2").is_none());
}

#[test]
fn a_new_organization_has_a_random_id() {
    let mut store = Store::new();
    let u1 = plain_user(&mut store, "u1");
    let one = Org::create(&mut store, OrgBuilder { name: "one".to_string(), creator: &u1 }).unwrap();
    let two = Org::create(&mut store, OrgBuilder { name: "two".to_string(), creator: &u1 }).unwrap();
    assert_eq!(one.id.len(), 32);
    assert!(one.id.chars().all(|c| c.is_ascii_alphanumeric()));
    assert_ne!(one.id, two.id);
    assert_eq!(one.name, "one");
    assert!(store.member(&one.id, "u1").unwrap().is_admin);
    assert!(store.orgs.get(&two.id).unwrap().created_at > 1_600_000_000);
}

#[test]
fn organizations_can_be_read_renamed_and_listed() {
    let mut store = Store::new();
    let u1 = plain_user(&mut store, "u1");
    let mut acme = org_of(&mut store, "acme", &u1);
    org_of(&mut store, "beta", &u1);
    assert_eq!(Org::get(&store, "acme".to_string()).unwrap().unwrap().name, "acme inc");
    assert!(Org::get(&store, "gamma".to_string()).unwrap().is_none());
    acme.name = "Acme Ltd".to_string();
    acme.update(&mut store).unwrap();
    assert_eq!(Org::get(&store, "acme".to_string()).unwrap().unwrap().name, "Acme Ltd");
    assert!(store.member("acme", "u1").unwrap().is_admin);
    let mut names: Vec<(String, String)> =
        Org::list_available(&store).unwrap().into_iter().map(|o| (o.id, o.name)).collect();
    names.sort();
    assert_eq!(names, vec![
        ("acme".to_string(), "Acme Ltd".to_string()),
        ("beta".to_string(), "beta inc".to_string())
    ]);
    let gone = Org { id: "gamma".to_string(), name: "x".to_string() };
    gone.update(&mut store).unwrap();
    assert_eq!(store.orgs.len(), 2);
    assert!(Org::list_available(&Store::new()).unwrap().is_empty());
}

#[test]
fn listing_users_shows_each_member_once() {
    let mut store = Store::new();
    let u1 = plain_user(&mut store, "u1");
    let u2 = plain_user(&mut store, "u2");
    plain_user(&mut store, "u3");
    let org = org_of(&mut store, "acme", &u1);
    org.add_user(&mut store, &u2, false).unwrap();
    org.set_scope(&mut store, &u2, &OrgScope::RemoveOrg, false).unwrap();
    let mut users = org.list_users(&store).unwrap();
    users.sort_by(|a, b| a.user.id.cmp(&b.user.id));
    assert_eq!(users.len(), 2);
    assert_eq!(users[0].user.id, "u1");
    assert_eq!(users[0].user.email, "u1@example.com");
    assert!(users[0].is_org_admin);
    assert_eq!(sorted(users[0].scopes.clone()), sorted(OrgScope::variants()));
    assert_eq!(users[1].user.id, "u2");
    assert_eq!(users[1].user.name, "name of u2");
    assert!(!users[1].is_org_admin);
    assert_eq!(sorted(users[1].scopes.clone()), vec!["GetOrg", "UpdateOrg"]);
}

#[test]
fn a_member_without_a_user_row_is_an_invalid_state() {
    let mut store = Store::new();
    let u1 = plain_user(&mut store, "u1");
    let u2 = plain_user(&mut store, "u2");
    let org = org_of(&mut store, "acme", &u1);
    org.add_user(&mut store, &u2, false).unwrap();
    store.users.remove("u2");
    match org.list_users(&store) {
        Err(Error::InvalidState(m)) => {
            assert_eq!(m, "User u2 is linked to organization acme, but does not exist")
        }
        _ => panic!("expected InvalidState"),
    }
    assert!(store.member("acme", "u2").is_some());
}
