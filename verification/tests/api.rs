use invoicex::access::Session;
use invoicex::api::{get_user_org_scopes, login, org, org_user, org_user_scope, session, ScopeFlag};
use invoicex::error::Error;
use invoicex::org::Org;
use invoicex::scope::OrgScope;
use invoicex::store::Store;
use invoicex::user::{Authentication, User, UserBuilder};

const SALT: [u8; 16] = *b"0123456789ABCDEF";
const PEPPER: &str = "pepper";

fn registered(store: &mut Store, id: &str) -> Session {
    let user = User::create_with(store, id.to_string(), SALT, UserBuilder {
        name: id.to_string(),
        email: format!("{id}@example.com"),
        authentication: Authentication::Password {
            password: format!("password of {id}"),
            pepper: PEPPER.to_string(),
        },
    })
    .unwrap();
    let opened = user.create_session_with(store, format!("session{id}"), 100).unwrap();
    Session { id: opened.id, user_id: user.id }
}

fn acme(store: &mut Store, owner: &Session) -> Org {
    org::create_with(store, owner, "Acme", "acme".to_string(), 100).unwrap()
}

fn flag(name: &str, enabled: bool) -> ScopeFlag {
    ScopeFlag { name: name.to_string(), enabled }
}

fn enabled(flags: &[ScopeFlag]) -> Vec<String> {
    flags.iter().filter(|f| f.enabled).map(|f| f.name.clone()).collect()
}

#[test]
fn login_opens_a_session_for_the_right_password() {
    let mut store = Store::new();
    registered(&mut store, "u1");
    let (opened, user) = login::login_with(
        &mut store,
        PEPPER,
        "u1@example.com",
        0,
        Some("password of u1"),
        "fresh".to_string(),
        5_000,
    )
    .unwrap();
    assert_eq!(user.id, "u1");
    assert_eq!(opened.id, "US_fresh");
    assert_eq!(opened.last_used, 5_000);
    assert_eq!(opened.expires_at, 5_000 + 2_592_000);
    assert_eq!(store.sessions.get("US_fresh").unwrap().user_id, "u1");
    let (again, _) =
        login::login(&mut store, PEPPER, "u1@example.com", 0, Some("password of u1")).unwrap();
    assert_eq!(again.id.len(), 35);
    assert_eq!(Session::resolve(&mut store, &again.id).unwrap().user_id, "u1");
}

#[test]
fn login_refuses_in_order() {
    let mut store = Store::new();
    registered(&mut store, "u1");
    let sessions = store.sessions.len();
    let nobody = login::login_with(&mut store, PEPPER, "x@example.com", 7, None, "s".to_string(), 1);
    match nobody {
        Err(Error::Unauthorized(m)) => assert_eq!(m, ""),
        _ => panic!("expected Unauthorized"),
    }
    let method = login::login_with(&mut store, PEPPER, "u1@example.com", 7, None, "s".to_string(), 1);
    match method {
        Err(Error::BadRequest(m)) => assert_eq!(m, "Invalid authentication method"),
        _ => panic!("expected BadRequest"),
    }
    let missing =
        login::login_with(&mut store, PEPPER, "u1@example.com", 0, None, "s".to_string(), 1);
    match missing {
        Err(Error::BadRequest(m)) => assert_eq!(m, "Missing authentication"),
        _ => panic!("expected BadRequest"),
    }
    let wrong = login::login_with(
        &mut store,
        PEPPER,
        "u1@example.com",
        0,
        Some("password of u2"),
        "s".to_string(),
        1,
    );
    assert!(matches!(wrong, Err(Error::Unauthorized(_))));
    let pepper = login::login_with(
        &mut store,
        "other",
        "u1@example.com",
        0,
        Some("password of u1"),
        "s".to_string(),
        1,
    );
    assert!(matches!(pepper, Err(Error::Unauthorized(_))));
    let taken = login::login_with(
        &mut store,
        PEPPER,
        "u1@example.com",
        0,
        Some("password of u1"),
        "sessionu1".to_string(),
        1,
    );
    assert!(matches!(taken, Err(Error::Conflict(_))));
    assert_eq!(store.sessions.len(), sessions);
}

#[test]
fn registering_creates_the_user_and_a_pending_address() {
    let mut store = Store::new();
    let builder = UserBuilder {
        name: "Ann".to_string(),
        email: "ann@example.com".to_string(),
        authentication: Authentication::Password {
            password: "pw".to_string(),
            pepper: PEPPER.to_string(),
        },
    };
    let user = login::register_with(
        &mut store,
        &builder,
        0,
        true,
        "ann".to_string(),
        SALT,
        "token".to_string(),
        1_000,
    )
    .unwrap();
    assert_eq!(user.id, "ann");
    assert_eq!(user.name, "Ann");
    assert_eq!(user.email, "ann@example.com");
    assert!(user.is_password_correct(&store, "pw", PEPPER).unwrap());
    assert!(!user.is_email_verified(&store, "ann@example.com").unwrap());
    assert_eq!(store.email_tokens.get("token").unwrap().expires_at, 1_000 + 604_800);
    user.verifiy_email_at(&mut store, "token", 1_001).unwrap();
    assert!(user.is_email_verified(&store, "ann@example.com").unwrap());
}

#[test]
fn a_failed_registration_leaves_nothing_behind() {
    let mut store = Store::new();
    registered(&mut store, "u1");
    let u1 = User::get(&store, "u1".to_string()).unwrap().unwrap();
    u1.associate_email_with(&mut store, "u1@example.com", "token".to_string(), 1).unwrap();
    let builder = UserBuilder {
        name: "Ann".to_string(),
        email: "ann@example.com".to_string(),
        authentication: Authentication::Password {
            password: "pw".to_string(),
            pepper: PEPPER.to_string(),
        },
    };
    let r = login::register_with(&mut store, &builder, 3, true, "ann".to_string(), SALT, "t".to_string(), 1);
    assert!(matches!(r, Err(Error::BadRequest(_))));
    let r = login::register_with(&mut store, &builder, 0, false, "ann".to_string(), SALT, "t".to_string(), 1);
    assert!(matches!(r, Err(Error::BadRequest(_))));
    let r = login::register_with(&mut store, &builder, 0, true, "u1".to_string(), SALT, "t".to_string(), 1);
    assert!(matches!(r, Err(Error::Conflict(_))));
    let r = login::register_with(
        &mut store,
        &builder,
        0,
        true,
        "ann".to_string(),
        SALT,
        "token".to_string(),
        1,
    );
    assert!(matches!(r, Err(Error::Conflict(_))));
    assert!(User::get(&store, "ann".to_string()).unwrap().is_none());
    assert_eq!(store.users.len(), 1);
    assert_eq!(store.email_tokens.len(), 1);
    let r = login::register(&mut store, PEPPER, "Ann", "ann@example.com", 0, Some("pw")).unwrap();
    assert_eq!(r.id.len(), 32);
    assert!(r.is_password_correct(&store, "pw", PEPPER).unwrap());
    assert!(matches!(
        login::register(&mut store, PEPPER, "Bob", "bob@example.com", 0, None),
        Err(Error::BadRequest(_))
    ));
}

#[test]
fn session_removal_follows_the_query() {
    let mut store = Store::new();
    let s1 = registered(&mut store, "u1");
    let s2 = registered(&mut store, "u2");
    let u1 = session::user(&store, &s1).unwrap();
    assert_eq!(u1.id, "u1");
    u1.create_session_with(&mut store, "second".to_string(), 1).unwrap();
    u1.create_session_with(&mut store, "third".to_string(), 1).unwrap();
    let by_id = session::Query { id: Some("US_second".to_string()), all: Some(true) };
    session::remove(&mut store, &s1, &by_id).unwrap();
    assert!(!store.sessions.contains_key("US_second"));
    assert_eq!(store.sessions.len(), 3);
    let own = session::Query { id: None, all: Some(false) };
    session::remove(&mut store, &s1, &own).unwrap();
    assert!(!store.sessions.contains_key(&s1.id));
    assert!(store.sessions.contains_key("US_third"));
    let own = session::Query { id: None, all: None };
    session::remove(&mut store, &s2, &own).unwrap();
    assert!(!store.sessions.contains_key(&s2.id));
    u1.create_session_with(&mut store, "fourth".to_string(), 1).unwrap();
    let all = session::Query { id: None, all: Some(true) };
    session::remove(&mut store, &s1, &all).unwrap();
    assert_eq!(store.sessions.len(), 0);
}

#[test]
fn a_session_without_user_is_unauthorized_everywhere() {
    let mut store = Store::new();
    let s1 = registered(&mut store, "u1");
    acme(&mut store, &s1);
    store.users.remove("u1");
    let q = session::Query { id: None, all: Some(true) };
    assert!(matches!(session::remove(&mut store, &s1, &q), Err(Error::Unauthorized(_))));
    assert_eq!(store.sessions.len(), 1);
    assert!(matches!(session::user(&store, &s1), Err(Error::Unauthorized(_))));
    assert!(matches!(org::list(&store, &s1), Err(Error::Unauthorized(_))));
    assert!(matches!(org::remove(&mut store, &s1, "acme"), Err(Error::Unauthorized(_))));
    assert!(matches!(
        org::create_with(&mut store, &s1, "x", "x".to_string(), 1),
        Err(Error::Unauthorized(_))
    ));
    assert!(store.orgs.contains_key("acme"));
}

#[test]
fn organizations_are_created_shown_listed_and_removed() {
    let mut store = Store::new();
    let s1 = registered(&mut store, "u1");
    let s2 = registered(&mut store, "u2");
    let created = acme(&mut store, &s1);
    assert_eq!(created.id, "acme");
    assert_eq!(created.name, "Acme");
    let random = org::create(&mut store, &s2, "Beta").unwrap();
    assert_eq!(random.id.len(), 32);
    let (shown, members) = org::get(&store, &s1, &org::Query { id: "acme".to_string() }).unwrap();
    assert_eq!(shown.name, "Acme");
    assert_eq!(members.len(), 1);
    assert_eq!(members[0].user.id, "u1");
    assert!(members[0].is_org_admin);
    assert!(matches!(
        org::get(&store, &s2, &org::Query { id: "acme".to_string() }),
        Err(Error::Forbidden(_))
    ));
    assert!(matches!(
        org::get(&store, &s2, &org::Query { id: "none".to_string() }),
        Err(Error::Unauthorized(_))
    ));
    let mine: Vec<String> = org::list(&store, &s1).unwrap().into_iter().map(|o| o.id).collect();
    assert_eq!(mine, vec!["acme"]);
    let theirs: Vec<String> = org::list(&store, &s2).unwrap().into_iter().map(|o| o.id).collect();
    assert_eq!(theirs, vec![random.id.clone()]);
    assert!(matches!(org::remove(&mut store, &s2, "acme"), Err(Error::Forbidden(_))));
    assert!(matches!(org::remove(&mut store, &s2, "none"), Err(Error::Unauthorized(_))));
    assert!(store.orgs.contains_key("acme"));
    org::remove(&mut store, &s1, "acme").unwrap();
    assert!(!store.orgs.contains_key("acme"));
    assert!(org::list(&store, &s1).unwrap().is_empty());
}

#[test]
fn listing_organizations_needs_get_org() {
    let mut store = Store::new();
    let s1 = registered(&mut store, "u1");
    let s2 = registered(&mut store, "u2");
    acme(&mut store, &s1);
    org_user::add(&mut store, &s1, "acme", "u2@example.com", false).unwrap();
    assert_eq!(org::list(&store, &s2).unwrap().len(), 1);
    org_user_scope::set(&mut store, &s1, "acme", "u2", &vec![flag("GetOrg", false)]).unwrap();
    assert!(org::list(&store, &s2).unwrap().is_empty());
    org_user_scope::set(&mut store, &s1, "acme", "u1", &vec![flag("GetOrg", false)]).unwrap();
    assert_eq!(org::list(&store, &s1).unwrap().len(), 1);
}

#[test]
fn members_are_added_listed_and_removed_by_those_who_may() {
    let mut store = Store::new();
    let s1 = registered(&mut store, "u1");
    let s2 = registered(&mut store, "u2");
    let s3 = registered(&mut store, "u3");
    acme(&mut store, &s1);
    org_user::add(&mut store, &s1, "acme", "u2@example.com", false).unwrap();
    assert!(matches!(
        org_user::add(&mut store, &s2, "acme", "u3@example.com", false),
        Err(Error::Forbidden(_))
    ));
    assert!(matches!(
        org_user::add(&mut store, &s3, "acme", "u3@example.com", true),
        Err(Error::Forbidden(_))
    ));
    match org_user::add(&mut store, &s1, "acme", "nobody@example.com", false) {
        Err(Error::NotFound(m)) => assert_eq!(m, "User not found"),
        _ => panic!("expected NotFound"),
    }
    assert!(matches!(
        org_user::add(&mut store, &s1, "acme", "u2@example.com", true),
        Err(Error::Conflict(_))
    ));
    assert!(matches!(
        org_user::add(&mut store, &s1, "none", "u2@example.com", true),
        Err(Error::Unauthorized(_))
    ));
    let query = org_user::Query { org_id: "acme".to_string() };
    let mut ids: Vec<String> =
        org_user::list(&store, &s2, &query).unwrap().into_iter().map(|m| m.user.id).collect();
    ids.sort();
    assert_eq!(ids, vec!["u1", "u2"]);
    assert!(matches!(org_user::list(&store, &s3, &query), Err(Error::Forbidden(_))));
    assert!(matches!(org_user::remove(&mut store, &s2, "acme", "u1"), Err(Error::Forbidden(_))));
    assert!(matches!(org_user::remove(&mut store, &s1, "acme", "u9"), Err(Error::NotFound(_))));
    org_user::remove(&mut store, &s1, "acme", "u2").unwrap();
    assert!(store.member("acme", "u2").is_none());
    org_user::remove(&mut store, &s1, "acme", "u3").unwrap();
    assert!(matches!(org_user::list(&store, &s2, &query), Err(Error::Forbidden(_))));
}

#[test]
fn scopes_are_listed_by_name_in_catalog_order() {
    let mut store = Store::new();
    let s1 = registered(&mut store, "u1");
    let s2 = registered(&mut store, "u2");
    registered(&mut store, "u3");
    let org = acme(&mut store, &s1);
    org_user::add(&mut store, &s1, "acme", "u2@example.com", false).unwrap();
    let own = org_user_scope::Query { org_id: "acme".to_string(), user_id: None };
    let flags = org_user_scope::list(&store, &s2, &own).unwrap();
    let names: Vec<&str> = flags.iter().map(|f| f.name.as_str()).collect();
    assert_eq!(names, vec!["AddUser", "GetOrg", "RemoveOrg", "UpdateOrg"]);
    assert_eq!(enabled(&flags), vec!["GetOrg", "RemoveOrg", "UpdateOrg"]);
    let other = org_user_scope::Query { org_id: "acme".to_string(), user_id: Some("u1".to_string()) };
    assert_eq!(enabled(&org_user_scope::list(&store, &s2, &other).unwrap()).len(), 4);
    let stranger =
        org_user_scope::Query { org_id: "acme".to_string(), user_id: Some("u3".to_string()) };
    assert!(enabled(&org_user_scope::list(&store, &s2, &stranger).unwrap()).is_empty());
    let missing =
        org_user_scope::Query { org_id: "acme".to_string(), user_id: Some("u9".to_string()) };
    assert!(matches!(org_user_scope::list(&store, &s2, &missing), Err(Error::NotFound(_))));
    let u2 = User::get(&store, "u2".to_string()).unwrap().unwrap();
    assert_eq!(enabled(&get_user_org_scopes(&store, &u2, &org).unwrap()).len(), 3);
}

#[test]
fn scopes_are_set_all_or_nothing() {
    let mut store = Store::new();
    let s1 = registered(&mut store, "u1");
    let s2 = registered(&mut store, "u2");
    registered(&mut store, "u3");
    let org = acme(&mut store, &s1);
    org_user::add(&mut store, &s1, "acme", "u2@example.com", false).unwrap();
    let u2 = User::get(&store, "u2".to_string()).unwrap().unwrap();
    let flags = vec![flag("AddUser", true), flag("GetOrg", false), flag("AddUser", true)];
    org_user_scope::set(&mut store, &s1, "acme", "u2", &flags).unwrap();
    let mut names: Vec<String> =
        org.list_scopes(&store, &u2).unwrap().iter().map(|s| s.to_string()).collect();
    names.sort();
    assert_eq!(names, vec!["AddUser", "RemoveOrg", "UpdateOrg"]);
    let later = vec![flag("GetOrg", true), flag("GetOrg", false)];
    org_user_scope::set(&mut store, &s2, "acme", "u2", &later).unwrap();
    assert!(!org.list_scopes(&store, &u2).unwrap().contains(&OrgScope::GetOrg));
    let bad = vec![flag("UpdateOrg", false), flag("DeleteOrg", true), flag("Nope", true)];
    match org_user_scope::set(&mut store, &s1, "acme", "u2", &bad) {
        Err(Error::BadRequest(m)) => assert_eq!(m, "Unknown scope 'DeleteOrg'"),
        _ => panic!("expected BadRequest"),
    }
    assert!(org.list_scopes(&store, &u2).unwrap().contains(&OrgScope::UpdateOrg));
    assert!(matches!(
        org_user_scope::set(&mut store, &s1, "acme", "u9", &flags),
        Err(Error::NotFound(_))
    ));
    match org_user_scope::set(&mut store, &s1, "acme", "u3", &flags) {
        Err(Error::NotFound(m)) => assert_eq!(m, "The user is not a member of the organization"),
        _ => panic!("expected NotFound"),
    }
    org_user_scope::set(&mut store, &s1, "acme", "u3", &vec![]).unwrap();
    org_user_scope::set(&mut store, &s2, "acme", "u2", &vec![flag("AddUser", false)]).unwrap();
    assert!(matches!(
        org_user_scope::set(&mut store, &s2, "acme", "u2", &flags),
        Err(Error::Forbidden(_))
    ));
}

#[test]
fn flags_name_the_catalog_and_mark_what_is_listed() {
    let flags = invoicex::api::flags_of(&vec![OrgScope::UpdateOrg, OrgScope::GetOrg, OrgScope::GetOrg]);
    let names: Vec<&str> = flags.iter().map(|f| f.name.as_str()).collect();
    assert_eq!(names, vec!["AddUser", "GetOrg", "RemoveOrg", "UpdateOrg"]);
    assert_eq!(enabled(&flags), vec!["GetOrg", "UpdateOrg"]);
    assert!(enabled(&invoicex::api::flags_of(&vec![])).is_empty());
    assert_eq!(enabled(&invoicex::api::flags_of(&OrgScope::variants())).len(), 4);
    assert!(invoicex::api::is_listed(&vec![OrgScope::AddUser], OrgScope::AddUser));
    assert!(!invoicex::api::is_listed(&vec![OrgScope::AddUser], OrgScope::GetOrg));
    assert!(!invoicex::api::is_listed(&vec![], OrgScope::GetOrg));
}

#[test]
fn a_registered_user_can_log_in_with_the_password_given() {
    let mut store = Store::new();
    let user = login::register(&mut store, PEPPER, "Ann", "ann@example.com", 0, Some("pw")).unwrap();
    let (opened, found) =
        login::login(&mut store, PEPPER, "ann@example.com", 0, Some("pw")).unwrap();
    assert_eq!(found.id, user.id);
    assert_eq!(Session::resolve(&mut store, &opened.id).unwrap().user_id, user.id);
}
