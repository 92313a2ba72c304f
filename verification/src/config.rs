use vstd::prelude::*;
use crate::decimal::{all_digits, decimal, digits_value, lemma_decimal, push_decimal};
use crate::text::{owned, push_str};

verus! {

/// The whole configuration of the forum, as read from its TOML file.
#[derive(Debug, Clone)]
pub struct Config {
    pub database: DbConfig,
    pub server: ServerConfig,
    pub site: SiteConfig,
}

/// Where the PostgreSQL database is and how to log in to it.
#[derive(Debug, Clone)]
pub struct DbConfig {
    pub db: String,
    pub user: String,
    pub password: String,
    pub host: String,
    pub port: u16,
}

/// Where the application server listens, and the admin password.
#[derive(Debug, Clone)]
pub struct ServerConfig {
    pub admin_pwd: String,
    pub host: String,
    pub port: u16,
}

/// The site's name and how many posts and threads make up one page.
#[derive(Debug, Clone)]
pub struct SiteConfig {
    pub name: String,
    pub posts_per_page: u64,
    pub threads_per_page: u64,
}

impl Default for SiteConfig {
    fn default() -> (r: Self)
        ensures
            r.name@ == "MySite"@,
            r.posts_per_page == 10,
            r.threads_per_page == 20,
    {
        SiteConfig { name: owned("MySite"), posts_per_page: 10, threads_per_page: 20 }
    }
}

impl Default for ServerConfig {
    fn default() -> (r: Self)
        ensures
            r.admin_pwd@ == "asa9310"@,
            r.host@ == "localhost"@,
            r.port == 80,
    {
        ServerConfig { admin_pwd: owned("asa9310"), host: owned("localhost"), port: 80 }
    }
}

impl Default for DbConfig {
    fn default() -> (r: Self)
        ensures
            r.user@ == "postgres"@,
            r.host@ == "localhost"@,
            r.port == 5432,
            r.password@ == ""@,
            r.db@ == "postgres"@,
    {
        DbConfig {
            user: owned("postgres"),
            host: owned("localhost"),
            port: 5432,
            password: owned(""),
            db: owned("postgres"),
        }
    }
}

impl Default for Config {
    fn default() -> (r: Self)
        ensures
            r.server.admin_pwd@ == "asa9310"@,
            r.server.host@ == "localhost"@,
            r.server.port == 80,
            r.site.name@ == "MySite"@,
            r.site.posts_per_page == 10,
            r.site.threads_per_page == 20,
            r.database.user@ == "postgres"@,
            r.database.host@ == "localhost"@,
            r.database.port == 5432,
            r.database.password@ == ""@,
            r.database.db@ == "postgres"@,
    {
        Config {
            server: ServerConfig::default(),
            site: SiteConfig::default(),
            database: DbConfig::default(),
        }
    }
}

/// `host:port`, the address the server listens on.
pub open spec fn listen_address_spec(conf: ServerConfig) -> Seq<char> {
    conf.host@ + ":"@ + decimal(conf.port as nat)
}

/// The address the server listens on, `host:port`.
pub fn listen_address(conf: &ServerConfig) -> (s: String)
    ensures
        s@ == listen_address_spec(*conf),
        // The host, a `:`, then the decimal digits of the whole port.
        s@ == conf.host@ + ":"@ + decimal(conf.port as nat),
        exists|d: Seq<char>|
            d.len() > 0 && all_digits(d) && #[trigger] digits_value(d) == conf.port && s@
                == conf.host@ + ":"@ + d,
{
    let mut s = owned(conf.host.as_str());
    push_str(&mut s, ":");
    push_decimal(&mut s, conf.port as u64);
    proof {
        lemma_decimal(conf.port as nat);
        assert(digits_value(decimal(conf.port as nat)) == conf.port);
    }
    s
}

/// The listen address is the host, a `:`, and digits that read back as
/// the whole configured port, for every port.
pub proof fn lemma_listen_address_port(conf: ServerConfig)
    ensures
        exists|d: Seq<char>|
            d.len() > 0 && all_digits(d) && #[trigger] digits_value(d) == conf.port
                && listen_address_spec(conf) == conf.host@ + ":"@ + d,
{
    lemma_decimal(conf.port as nat);
    assert(digits_value(decimal(conf.port as nat)) == conf.port);
}

} // verus!
