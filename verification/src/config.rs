//! The settings the service starts from.

use vstd::prelude::*;

verus! {

/// Where the database is reached, and the secret that signs tokens.
#[derive(Debug, PartialEq, Eq)]
pub struct Config {
    pub database_url: String,
    pub jwt_secret: String,
}

impl Config {
    /// The settings for the given values, each as the environment holds it
    /// or `None` where it is not set. The database address is required; the
    /// secret falls back to `secret`.
    pub fn from_values(database_url: Option<String>, jwt_secret: Option<String>) -> (r: Option<
        Config,
    >)
        ensures
            r is Some == database_url is Some,
            r is Some ==> r->0.database_url == database_url->0,
            r is Some ==> r->0.jwt_secret@ == (match jwt_secret {
                Some(given) => given@,
                None => "secret"@,
            }),
    {
        let database_url = match database_url {
            Some(url) => url,
            None => {
                return None;
            },
        };
        let jwt_secret = match jwt_secret {
            Some(given) => given,
            None => "secret".to_owned(),
        };
        Some(Config { database_url, jwt_secret })
    }
}

} // verus!
