use arachne::config::{check_cli_site, AppConfig};
use arachne::error::ArachneError;

fn s(v: &str) -> Option<String> {
    Some(v.to_string())
}

#[test]
fn config_defaults() {
    let c = AppConfig::from_settings(None, None, None, None, None, None, None, None);
    assert_eq!(c.chrome_ws_url, "ws://localhost:9222");
    assert_eq!(c.s3_bucket, "arachne-photos");
    assert_eq!(c.s3_region, "us-east-1");
    assert!(c.database_url.is_none() && c.redis_url.is_none() && c.s3_endpoint.is_none());
    let c = AppConfig::from_settings(s("ws://chrome:9222"), s("postgres://db"), None, None, s("b"), None, None, s("sa-east-1"));
    assert_eq!(c.chrome_ws_url, "ws://chrome:9222");
    assert_eq!(c.database_url.as_deref(), Some("postgres://db"));
    assert_eq!(c.s3_bucket, "b");
    assert_eq!(c.s3_region, "sa-east-1");
}

fn config_msg(e: ArachneError) -> String {
    match e {
        ArachneError::Config(m) => m,
        other => panic!("unexpected {:?}", other),
    }
}

#[test]
fn scrape_requirements() {
    let c = AppConfig::from_settings(None, None, None, s("http://s3"), None, s("ak"), None, None);
    assert!(c.database_url_for(false).unwrap().is_none());
    assert_eq!(config_msg(c.database_url_for(true).unwrap_err()), "DATABASE_URL required when --persist is set");
    assert!(c.photo_store_for(false).unwrap().is_none());
    assert_eq!(config_msg(c.photo_store_for(true).unwrap_err()), "S3_SECRET_KEY required when --photos is set");
    let c = AppConfig::from_settings(None, s("pg"), None, None, None, s("ak"), s("sk"), None);
    assert_eq!(c.database_url_for(true).unwrap().as_deref(), Some("pg"));
    assert_eq!(config_msg(c.photo_store_for(true).unwrap_err()), "S3_ENDPOINT required when --photos is set");
    let c = AppConfig::from_settings(None, None, None, s("e"), None, None, s("sk"), None);
    assert_eq!(config_msg(c.photo_store_for(true).unwrap_err()), "S3_ACCESS_KEY required when --photos is set");
    let c = AppConfig::from_settings(None, None, None, s("e"), None, s("ak"), s("sk"), None);
    let p = c.photo_store_for(true).unwrap().unwrap();
    assert_eq!((p.endpoint.as_str(), p.bucket.as_str(), p.access_key.as_str(), p.secret_key.as_str(), p.region.as_str()),
        ("e", "arachne-photos", "ak", "sk", "us-east-1"));
}

#[test]
fn unknown_site_names_registered_sites() {
    let e = arachne::config::unknown_site_error("skokka", &vec!["fatal_model".to_string(), "other".to_string()]);
    assert_eq!(config_msg(e), "unknown site: skokka. Registered: fatal_model, other");
    let e = arachne::config::unknown_site_error("x", &vec![]);
    assert_eq!(config_msg(e), "unknown site: x. Registered: ");
}

#[test]
fn error_messages() {
    assert_eq!(ArachneError::Config("bad".into()).message(), "config error: bad");
    assert_eq!(ArachneError::NavigationTimeout { url: "u".into() }.message(), "navigation timeout: u");
    assert_eq!(
        ArachneError::Scrape { site: "s".into(), city: "c".into(), message: "m".into() }.message(),
        "scrape error on s/c: m"
    );
    assert_eq!(ArachneError::Other("plain".into()).message(), "plain");
    assert_eq!(ArachneError::S3("x".into()).message(), "s3 error: x");
}

#[test]
fn cli_site_is_checked() {
    assert_eq!(check_cli_site("fatal_model"), Ok(()));
    assert_eq!(
        check_cli_site("other_site"),
        Err("unknown site: other_site. Supported: fatal_model".to_string())
    );
}
