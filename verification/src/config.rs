//! The configuration of the program: where the database is, how the HTTP
//! server listens, and the secrets of the installation.

use crate::ident::{is_alphanumeric_text, random_text};
use vstd::prelude::*;

verus! {

/// The port that the HTTP server listens on unless told otherwise.
pub const DEFAULT_PORT: u16 = 8080;

/// The number of characters of a generated password pepper.
pub const PEPPER_LENGTH: usize = 64;

/// The whole configuration file.
#[derive(Debug)]
pub struct Config {
    pub mysql: MysqlConfig,
    pub http: HttpConfig,
    pub security: SecurityConfig,
}

/// Where the database is and how to log in to it.
#[derive(Debug)]
pub struct MysqlConfig {
    pub host: String,
    pub database: String,
    pub username: String,
    pub password: String,
}

/// How the HTTP server listens.
#[derive(Debug)]
pub struct HttpConfig {
    pub port: u16,
    pub frontend_host: String,
}

/// The secrets of the installation.
#[derive(Debug)]
pub struct SecurityConfig {
    pub password_pepper: String,
}

/// What the database driver needs to connect.
pub struct DriverConfig {
    pub host: String,
    pub database: String,
    pub username: String,
    pub password: String,
}

impl Default for MysqlConfig {
    /// Every text empty.
    fn default() -> (r: Self)
        ensures
            r.host@.len() == 0,
            r.database@.len() == 0,
            r.username@.len() == 0,
            r.password@.len() == 0,
    {
        MysqlConfig {
            host: String::new(),
            database: String::new(),
            username: String::new(),
            password: String::new(),
        }
    }
}

impl Default for HttpConfig {
    /// Port 8080 and no frontend host.
    fn default() -> (r: Self)
        ensures
            r.port == DEFAULT_PORT,
            r.frontend_host@.len() == 0,
    {
        HttpConfig { port: DEFAULT_PORT, frontend_host: String::new() }
    }
}

impl Default for SecurityConfig {
    /// A fresh random pepper of 64 ASCII letters and digits.
    fn default() -> (r: Self)
        ensures
            r.password_pepper@.len() == PEPPER_LENGTH,
            is_alphanumeric_text(r.password_pepper@),
    {
        SecurityConfig { password_pepper: random_text(PEPPER_LENGTH) }
    }
}

impl Default for Config {
    /// The default of each part.
    fn default() -> (r: Self)
        ensures
            r.mysql.host@.len() == 0,
            r.mysql.database@.len() == 0,
            r.mysql.username@.len() == 0,
            r.mysql.password@.len() == 0,
            r.http.port == DEFAULT_PORT,
            r.http.frontend_host@.len() == 0,
            r.security.password_pepper@.len() == PEPPER_LENGTH,
            is_alphanumeric_text(r.security.password_pepper@),
    {
        Config {
            mysql: MysqlConfig::default(),
            http: HttpConfig::default(),
            security: SecurityConfig::default(),
        }
    }
}

impl Config {
    /// The part of the configuration that the database driver needs.
    pub fn driver_config(&self) -> (r: DriverConfig)
        ensures
            r.host@ == self.mysql.host@,
            r.database@ == self.mysql.database@,
            r.username@ == self.mysql.username@,
            r.password@ == self.mysql.password@,
    {
        DriverConfig {
            host: self.mysql.host.clone(),
            database: self.mysql.database.clone(),
            username: self.mysql.username.clone(),
            password: self.mysql.password.clone(),
        }
    }

    /// The part of the configuration that the HTTP server needs.
    pub fn server_config(&self) -> (r: crate::api::Config)
        ensures
            r.frontend_host@ == self.http.frontend_host@,
            r.port == self.http.port,
            r.password_pepper@ == self.security.password_pepper@,
    {
        crate::api::Config {
            frontend_host: self.http.frontend_host.clone(),
            port: self.http.port,
            password_pepper: self.security.password_pepper.clone(),
        }
    }
}

} // verus!
