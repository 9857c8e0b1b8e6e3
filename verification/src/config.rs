//! Deployment settings of the two front ends and the database.

use vstd::prelude::*;

verus! {

/// Root of the configuration file.
#[derive(Debug, Clone)]
pub struct ServerConfig {
    pub api: ApiConfig,
    pub telegram: TelegramConfig,
    pub postgres: PostgresConfig,
}

/// Where the HTTP surface listens.
#[derive(Debug, Clone)]
pub struct ApiConfig {
    pub host: String,
    pub port: u64,
    pub record_dev_data: bool,
}

/// Credentials of the chat bot.
#[derive(Debug, Clone)]
pub struct TelegramConfig {
    pub api_key: String,
}

/// Connection settings of the relational store.
#[derive(Debug, Clone)]
pub struct PostgresConfig {
    pub table: String,
    pub host: String,
    pub username: String,
    pub password: String,
}

impl Default for ServerConfig {
    /// The template written out when no configuration file exists
    /// yet, with placeholders where the operator must fill in
    /// credentials.
    fn default() -> (r: Self)
        ensures
            r.api.host@ == "127.0.0.1"@,
            r.api.port == 4040,
            r.api.record_dev_data == true,
            r.telegram.api_key@ == "<ENTER KEY HERE>"@,
            r.postgres.table@ == "cardquest"@,
            r.postgres.host@ == "localhost"@,
            r.postgres.username@ == "<USERNAME>"@,
            r.postgres.password@ == "<PASSWORD>"@,
    {
        ServerConfig {
            api: ApiConfig {
                host: "127.0.0.1".to_owned(),
                port: 4040,
                record_dev_data: true,
            },
            telegram: TelegramConfig { api_key: "<ENTER KEY HERE>".to_owned() },
            postgres: PostgresConfig {
                table: "cardquest".to_owned(),
                host: "localhost".to_owned(),
                username: "<USERNAME>".to_owned(),
                password: "<PASSWORD>".to_owned(),
            },
        }
    }
}

} // verus!
