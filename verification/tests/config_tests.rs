use std::collections::HashMap;
use topic::config::{listen_address, Config, DbConfig, ServerConfig, SiteConfig};
use topic::db::{connection_url, POOL_SIZE};
use topic::sessions::SessionStore;

#[test]
fn defaults() {
    let c = Config::default();
    assert_eq!(c.site.name, "MySite");
    assert_eq!(c.site.posts_per_page, 10);
    assert_eq!(c.site.threads_per_page, 20);
    assert_eq!(c.server.admin_pwd, "asa9310");
    assert_eq!(c.server.host, "localhost");
    assert_eq!(c.server.port, 80);
    assert_eq!(c.database.user, "postgres");
    assert_eq!(c.database.host, "localhost");
    assert_eq!(c.database.port, 5432);
    assert_eq!(c.database.password, "");
    assert_eq!(c.database.db, "postgres");
    assert_eq!(SiteConfig::default().name, "MySite");
    assert_eq!(ServerConfig::default().port, 80);
    assert_eq!(DbConfig::default().port, 5432);
}

#[test]
fn addresses() {
    assert_eq!(listen_address(&ServerConfig::default()), "localhost:80");
    let db = DbConfig {
        db: "forum".to_string(),
        user: "u".to_string(),
        password: "p".to_string(),
        host: "h".to_string(),
        port: 6543,
    };
    assert_eq!(connection_url(&db), "postgres://u:p@h:6543/forum");
    assert_eq!(connection_url(&DbConfig::default()), "postgres://postgres:@localhost:5432/postgres");
    assert_eq!(POOL_SIZE, 10);
}

#[test]
fn sessions_start_empty() {
    let s: SessionStore<String, String> = SessionStore::new();
    assert!(s.store.is_empty());
    let mut store: HashMap<String, String> = s.store;
    store.insert("ip".to_string(), "mod".to_string());
    assert_eq!(store.get("ip").map(|s| s.as_str()), Some("mod"));
}
