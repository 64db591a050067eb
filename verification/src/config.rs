//! Service configuration, from settings the environment supplies.
use vstd::prelude::*;
use vstd::string::*;

use crate::text::same_text;

verus! {

#[derive(Debug, Clone)]
pub struct Config {
    pub database_url: String,
    pub base_url: String,
    pub app_env: String,
    pub bind_addr: String,
}

/// A required setting that was not supplied.
#[derive(Debug, Clone, Copy, PartialEq, Eq, Structural)]
pub enum ConfigError {
    MissingDatabaseUrl,
    MissingBaseUrl,
}

impl ConfigError {
    /// What to tell the operator.
    pub fn message(&self) -> (r: &'static str)
        ensures
            r@ == (match self {
                ConfigError::MissingDatabaseUrl => "DATABASE_URL is required"@,
                ConfigError::MissingBaseUrl => "BASE_URL is required"@,
            }),
    {
        match self {
            ConfigError::MissingDatabaseUrl => "DATABASE_URL is required",
            ConfigError::MissingBaseUrl => "BASE_URL is required",
        }
    }
}

impl Config {
    /// The configuration from the `DATABASE_URL`, `BASE_URL`, `APP_ENV` and
    /// `BIND_ADDR` settings, each `None` when unset. The first two are
    /// required; the environment defaults to development and the listening
    /// address to every interface on port 8080.
    pub fn from_settings(
        database_url: Option<String>,
        base_url: Option<String>,
        app_env: Option<String>,
        bind_addr: Option<String>,
    ) -> (r: Result<Config, ConfigError>)
        ensures
            match r {
                Ok(c) => {
                    &&& database_url == Some(c.database_url)
                    &&& base_url == Some(c.base_url)
                    &&& c.app_env@ == (match app_env {
                        Some(e) => e@,
                        None => "development"@,
                    })
                    &&& c.bind_addr@ == (match bind_addr {
                        Some(a) => a@,
                        None => "0.0.0.0:8080"@,
                    })
                },
                Err(ConfigError::MissingDatabaseUrl) => database_url is None,
                Err(ConfigError::MissingBaseUrl) => database_url is Some && base_url is None,
            },
    {
        let database_url = match database_url {
            Some(u) => u,
            None => {
                return Err(ConfigError::MissingDatabaseUrl);
            },
        };
        let base_url = match base_url {
            Some(u) => u,
            None => {
                return Err(ConfigError::MissingBaseUrl);
            },
        };
        let app_env = match app_env {
            Some(e) => e,
            None => String::from_str("development"),
        };
        let bind_addr = match bind_addr {
            Some(a) => a,
            None => String::from_str("0.0.0.0:8080"),
        };
        Ok(Config { database_url, base_url, app_env, bind_addr })
    }

    pub fn is_development(&self) -> (r: bool)
        ensures
            r == (self.app_env@ == "development"@),
    {
        same_text(self.app_env.as_str(), "development")
    }
}

} // verus!
