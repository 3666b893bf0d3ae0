use invoicex::api::Config as ServerConfig;
use invoicex::config::{Config, HttpConfig, MysqlConfig, SecurityConfig};
use invoicex::error::Error;
use invoicex::ident::{gen_id, random_text};
use invoicex::scope::OrgScope;
use invoicex::store::{ScopeSet, Store};
use invoicex::table::Table;

#[test]
fn a_table_holds_each_key_once() {
    let mut table: Table<bool> = Table::new();
    assert_eq!(table.len(), 0);
    assert!(table.insert("a".to_string(), true));
    assert!(table.insert("b".to_string(), false));
    assert!(!table.insert("a".to_string(), false));
    assert_eq!(table.len(), 2);
    assert_eq!(table.get("a"), Some(&true));
    assert_eq!(table.get("b"), Some(&false));
    assert_eq!(table.get("c"), None);
    assert!(table.contains_key("a"));
    assert!(!table.contains_key("A"));
    assert_eq!(table.key_at(0), "a");
    assert_eq!(table.value_at(1), &false);
}

#[test]
fn replacing_keeps_the_position_and_hands_back_the_old_value() {
    let mut table: Table<u8> = Table::new();
    table.insert("a".to_string(), 1);
    table.insert("b".to_string(), 2);
    table.insert("c".to_string(), 3);
    assert_eq!(table.replace("b", 20), Some(2));
    assert_eq!(table.key_at(1), "b");
    assert_eq!(table.value_at(1), &20);
    assert_eq!(table.replace("z", 9), None);
    assert_eq!(table.len(), 3);
    assert!(!table.contains_key("z"));
}

#[test]
fn removing_hands_back_the_value_and_keeps_the_rest() {
    let mut table: Table<u8> = Table::new();
    table.insert("a".to_string(), 1);
    table.insert("b".to_string(), 2);
    table.insert("c".to_string(), 3);
    assert_eq!(table.remove("b"), Some(2));
    assert_eq!(table.remove("b"), None);
    assert_eq!(table.len(), 2);
    assert_eq!(table.key_at(0), "a");
    assert_eq!(table.key_at(1), "c");
    assert_eq!(table.get("c"), Some(&3));
    assert!(table.insert("b".to_string(), 5));
    assert_eq!(table.key_at(2), "b");
}

#[test]
fn a_scope_set_is_a_set() {
    let mut set = ScopeSet::empty();
    assert!(set.to_vec().is_empty());
    set.set(OrgScope::UpdateOrg, true);
    set.set(OrgScope::AddUser, true);
    set.set(OrgScope::UpdateOrg, true);
    assert_eq!(set.to_vec(), vec![OrgScope::AddUser, OrgScope::UpdateOrg]);
    assert!(set.contains(OrgScope::AddUser));
    assert!(!set.contains(OrgScope::GetOrg));
    set.set(OrgScope::AddUser, false);
    set.set(OrgScope::GetOrg, false);
    assert_eq!(set.to_vec(), vec![OrgScope::UpdateOrg]);
    assert_eq!(ScopeSet::full().to_vec(), OrgScope::variants());
    assert_eq!(ScopeSet::initial(false).to_vec(), OrgScope::default_scopes());
    assert_eq!(ScopeSet::initial(true).to_vec(), OrgScope::variants());
    let joined = ScopeSet::empty().with_all(&vec![OrgScope::GetOrg, OrgScope::GetOrg]);
    assert_eq!(joined.to_vec(), vec![OrgScope::GetOrg]);
}

#[test]
fn store_primitives_set_and_drop_memberships() {
    let mut store = Store::new();
    let member = invoicex::store::Membership { is_admin: false, scopes: ScopeSet::empty() };
    assert!(!store.set_member("acme", "u1", member));
    assert!(store.member("acme", "u1").is_none());
    store.orgs.insert("acme".to_string(), invoicex::store::OrgRecord::blank());
    assert!(store.set_member("acme", "u1", member));
    assert!(store.set_member("acme", "u2", member));
    let admin = invoicex::store::Membership { is_admin: true, scopes: ScopeSet::full() };
    assert!(store.set_member("acme", "u1", admin));
    assert!(store.member("acme", "u1").unwrap().is_admin);
    assert!(!store.member("acme", "u2").unwrap().is_admin);
    store.drop_member("acme", "u1");
    store.drop_member("beta", "u2");
    assert!(store.member("acme", "u1").is_none());
    assert!(store.member("acme", "u2").is_some());
    store.drop_memberships_of("u2");
    assert!(store.member("acme", "u2").is_none());
    assert!(store.orgs.contains_key("acme"));
}

#[test]
fn generated_ids_are_32_letters_and_digits() {
    let one = gen_id();
    let two = gen_id();
    assert_eq!(one.len(), 32);
    assert!(one.chars().all(|c| c.is_ascii_alphanumeric()));
    assert_ne!(one, two);
    assert_eq!(random_text(0), "");
    let long = random_text(500);
    assert_eq!(long.len(), 500);
    assert!(long.chars().all(|c| c.is_ascii_alphanumeric()));
    assert!(long.chars().any(|c| c != long.chars().next().unwrap()));
}

#[test]
fn the_default_configuration_listens_on_8080_with_a_fresh_pepper() {
    let http = HttpConfig::default();
    assert_eq!(http.port, 8080);
    assert_eq!(http.frontend_host, "");
    let mysql = MysqlConfig::default();
    assert_eq!(mysql.host, "");
    assert_eq!(mysql.database, "");
    assert_eq!(mysql.username, "");
    assert_eq!(mysql.password, "");
    let security = SecurityConfig::default();
    assert_eq!(security.password_pepper.len(), 64);
    assert!(security.password_pepper.chars().all(|c| c.is_ascii_alphanumeric()));
    assert_ne!(security.password_pepper, SecurityConfig::default().password_pepper);
    let config = Config::default();
    assert_eq!(config.http.port, 8080);
    assert_eq!(config.security.password_pepper.len(), 64);
}

#[test]
fn the_configuration_is_split_for_driver_and_server() {
    let config = Config {
        mysql: MysqlConfig {
            host: "db".to_string(),
            database: "invoicex".to_string(),
            username: "root".to_string(),
            password: "secret".to_string(),
        },
        http: HttpConfig { port: 9000, frontend_host: "front".to_string() },
        security: SecurityConfig { password_pepper: "pep".to_string() },
    };
    let driver = config.driver_config();
    assert_eq!(driver.host, "db");
    assert_eq!(driver.database, "invoicex");
    assert_eq!(driver.username, "root");
    assert_eq!(driver.password, "secret");
    let server: ServerConfig = config.server_config();
    assert_eq!(server.port, 9000);
    assert_eq!(server.frontend_host, "front");
    assert_eq!(server.password_pepper, "pep");
}

#[test]
fn every_failure_has_its_status() {
    assert_eq!(Error::Unauthorized(String::new()).status_code(), 401);
    assert_eq!(Error::Forbidden(String::new()).status_code(), 403);
    assert_eq!(Error::NotFound(String::new()).status_code(), 404);
    assert_eq!(Error::BadRequest(String::new()).status_code(), 400);
    assert_eq!(Error::Conflict(String::new()).status_code(), 409);
    assert_eq!(Error::InvalidState(String::new()).status_code(), 500);
    assert_eq!(Error::UnknownEnumVariant.status_code(), 500);
    assert_eq!(Error::UnknownToken.status_code(), 500);
    assert_eq!(Error::ExpiredToken.status_code(), 500);
    assert_eq!(Error::no_session().status_code(), 401);
    assert_eq!(Error::forbidden().status_code(), 403);
    match Error::dangling("u", "o") {
        Error::InvalidState(m) => assert_eq!(m, "User u is linked to organization o, but does not exist"),
        _ => panic!("expected InvalidState"),
    }
    match Error::bad_scope("Nope") {
        Error::BadRequest(m) => assert_eq!(m, "Unknown scope 'Nope'"),
        _ => panic!("expected BadRequest"),
    }
}

#[test]
fn every_failure_describes_itself() {
    assert_eq!(Error::no_session().message(), "Unauthorized: Session does not exist or has expired");
    assert_eq!(Error::forbidden().message(), "Forbidden: ");
    assert_eq!(Error::no_user().message(), "Not found: User not found");
    assert_eq!(Error::bad_method().message(), "Bad request: Invalid authentication method");
    assert_eq!(Error::no_secret().message(), "Bad request: Missing authentication");
    assert_eq!(Error::taken().message(), "Conflict: A row with this key exists already");
    assert_eq!(Error::clock().message(), "Invalid state: The clock is out of range");
    assert_eq!(Error::UnknownEnumVariant.message(), "Unknown enum variant");
    assert_eq!(Error::UnknownToken.message(), "Unknown token");
    assert_eq!(Error::ExpiredToken.message(), "Token has expired");
    let failed = invoicex::hashing::verify("no hash", "a", "b").unwrap_err();
    let text = Error::Bcrypt(failed).message();
    assert!(text.contains("no hash"));
}

#[test]
fn stored_scope_names_are_read_and_written() {
    let names = vec!["UpdateOrg".to_string(), "AddUser".to_string(), "UpdateOrg".to_string()];
    let set = ScopeSet::from_names(&names).unwrap();
    assert_eq!(set.to_vec(), vec![OrgScope::AddUser, OrgScope::UpdateOrg]);
    assert_eq!(set.names(), vec!["AddUser", "UpdateOrg"]);
    assert!(ScopeSet::from_names(&vec![]).unwrap().to_vec().is_empty());
    assert!(ScopeSet::empty().names().is_empty());
    assert_eq!(ScopeSet::full().names(), vec!["AddUser", "GetOrg", "RemoveOrg", "UpdateOrg"]);
    let bad = vec!["GetOrg".to_string(), "DeleteOrg".to_string()];
    assert!(matches!(ScopeSet::from_names(&bad), Err(Error::UnknownEnumVariant)));
    assert!(matches!(
        ScopeSet::from_names(&vec!["getorg".to_string()]),
        Err(Error::UnknownEnumVariant)
    ));
}

#[test]
fn stored_method_names_are_read() {
    let method = invoicex::model::AuthenticationMethod::from_stored("Password").unwrap();
    assert_eq!(method, invoicex::model::AuthenticationMethod::Password);
    assert!(matches!(
        invoicex::model::AuthenticationMethod::from_stored("Token"),
        Err(Error::UnknownEnumVariant)
    ));
    assert!(matches!(
        invoicex::model::AuthenticationMethod::from_stored(""),
        Err(Error::UnknownEnumVariant)
    ));
}
