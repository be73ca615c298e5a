//! Command line and settings, and what a scrape needs of them.

use vstd::prelude::*;

use crate::error::ArachneError;
use crate::models::opt_view;
use crate::text::{chars_of, concat, join, join_chars, seq_eq_exec, string_of, views};

verus! {

/// The parsed command line.
#[derive(Debug)]
pub struct Cli {
    pub command: Command,
}

#[derive(Debug)]
pub enum Command {
    /// Scrape profiles from a classifieds site.
    Scrape {
        /// Site to scrape (fatal_model, skokka).
        site: String,
        /// City slug (e.g., sao-paulo).
        city: String,
        /// Number of listing pages to scrape (default 1).
        pages: u32,
        /// Save to database (requires DATABASE_URL).
        persist: bool,
        /// Download and store photos (requires S3 config).
        photos: bool,
    },
    /// Run as a long-lived service with health endpoint.
    Serve {
        /// HTTP port for health/metrics (default 8080).
        port: u16,
    },
}

#[derive(Debug)]
pub struct AppConfig {
    pub chrome_ws_url: String,
    pub database_url: Option<String>,
    pub redis_url: Option<String>,
    pub s3_endpoint: Option<String>,
    pub s3_bucket: String,
    pub s3_access_key: Option<String>,
    pub s3_secret_key: Option<String>,
    pub s3_region: String,
}

/// The value of a setting, or its default where it is not set.
pub open spec fn or_default(v: Option<String>, default: Seq<char>) -> Seq<char> {
    match v {
        Some(s) => s@,
        None => default,
    }
}

fn value_or(v: Option<String>, default: &str) -> (r: String)
    ensures
        r@ == or_default(v, default@),
{
    match v {
        Some(s) => s,
        None => default.to_string(),
    }
}

/// What is needed to reach the photo store.
#[derive(Debug)]
pub struct PhotoStoreSettings {
    pub endpoint: String,
    pub bucket: String,
    pub access_key: String,
    pub secret_key: String,
    pub region: String,
}

impl AppConfig {
    /// The configuration that the settings give (each `None` where the variable is not
    /// set): `CHROME_WS_URL` defaults to `ws://localhost:9222`, `S3_BUCKET` to
    /// `arachne-photos`, `S3_REGION` to `us-east-1`; the others stay optional.
    pub fn from_settings(
        chrome_ws_url: Option<String>,
        database_url: Option<String>,
        redis_url: Option<String>,
        s3_endpoint: Option<String>,
        s3_bucket: Option<String>,
        s3_access_key: Option<String>,
        s3_secret_key: Option<String>,
        s3_region: Option<String>,
    ) -> (r: AppConfig)
        ensures
            r.chrome_ws_url@ == or_default(chrome_ws_url, "ws://localhost:9222"@),
            r.database_url == database_url,
            r.redis_url == redis_url,
            r.s3_endpoint == s3_endpoint,
            r.s3_bucket@ == or_default(s3_bucket, "arachne-photos"@),
            r.s3_access_key == s3_access_key,
            r.s3_secret_key == s3_secret_key,
            r.s3_region@ == or_default(s3_region, "us-east-1"@),
    {
        AppConfig {
            chrome_ws_url: value_or(chrome_ws_url, "ws://localhost:9222"),
            database_url,
            redis_url,
            s3_endpoint,
            s3_bucket: value_or(s3_bucket, "arachne-photos"),
            s3_access_key,
            s3_secret_key,
            s3_region: value_or(s3_region, "us-east-1"),
        }
    }

    /// The database URL that a scrape needs: none without `--persist`, else the
    /// configured one, which must be there.
    pub fn database_url_for(&self, persist: bool) -> (r: Result<Option<String>, ArachneError>)
        ensures
            !persist ==> (r matches Ok(None)),
            persist && self.database_url is None ==> (r matches Err(ArachneError::Config(m))
                && m@ == "DATABASE_URL required when --persist is set"@),
            persist && self.database_url is Some ==> (r matches Ok(Some(u)) && u@
                == self.database_url->0@),
    {
        if !persist {
            return Ok(None);
        }
        match &self.database_url {
            Some(u) => Ok(Some(u.clone())),
            None => Err(
                ArachneError::Config("DATABASE_URL required when --persist is set".to_string()),
            ),
        }
    }

    /// The photo store settings that a scrape needs: none without `--photos`, else the
    /// configured ones, of which the endpoint, access key and secret key must be there
    /// (checked in that order).
    pub fn photo_store_for(&self, photos: bool) -> (r: Result<
        Option<PhotoStoreSettings>,
        ArachneError,
    >)
        ensures
            !photos ==> (r matches Ok(None)),
            photos && self.s3_endpoint is None ==> (r matches Err(ArachneError::Config(m)) && m@
                == "S3_ENDPOINT required when --photos is set"@),
            photos && self.s3_endpoint is Some && self.s3_access_key is None ==> (r matches Err(
                ArachneError::Config(m),
            ) && m@ == "S3_ACCESS_KEY required when --photos is set"@),
            photos && self.s3_endpoint is Some && self.s3_access_key is Some
                && self.s3_secret_key is None ==> (r matches Err(ArachneError::Config(m)) && m@
                == "S3_SECRET_KEY required when --photos is set"@),
            photos && self.s3_endpoint is Some && self.s3_access_key is Some
                && self.s3_secret_key is Some ==> (r matches Ok(Some(p)) && p.endpoint@
                == self.s3_endpoint->0@ && p.access_key@ == self.s3_access_key->0@
                && p.secret_key@ == self.s3_secret_key->0@ && p.bucket@ == self.s3_bucket@
                && p.region@ == self.s3_region@),
    {
        if !photos {
            return Ok(None);
        }
        let endpoint = match &self.s3_endpoint {
            Some(e) => e.clone(),
            None => {
                return Err(
                    ArachneError::Config("S3_ENDPOINT required when --photos is set".to_string()),
                )
            },
        };
        let access_key = match &self.s3_access_key {
            Some(k) => k.clone(),
            None => {
                return Err(
                    ArachneError::Config(
                        "S3_ACCESS_KEY required when --photos is set".to_string(),
                    ),
                )
            },
        };
        let secret_key = match &self.s3_secret_key {
            Some(k) => k.clone(),
            None => {
                return Err(
                    ArachneError::Config(
                        "S3_SECRET_KEY required when --photos is set".to_string(),
                    ),
                )
            },
        };
        Ok(
            Some(
                PhotoStoreSettings {
                    endpoint,
                    bucket: self.s3_bucket.clone(),
                    access_key,
                    secret_key,
                    region: self.s3_region.clone(),
                },
            ),
        )
    }
}

pub open spec fn names_view(v: Seq<String>) -> Seq<Seq<char>> {
    v.map_values(|s: String| s@)
}

/// The error for a site with no registered crawler, naming the registered ones.
pub fn unknown_site_error(site: &str, registered: &Vec<String>) -> (r: ArachneError)
    ensures
        r matches ArachneError::Config(m) && m@ == "unknown site: "@ + site@ + ". Registered: "@
            + join(names_view(registered@), ", "@),
{
    let mut names: Vec<Vec<char>> = Vec::new();
    for i in 0..registered.len()
        invariant
            views(names@) == names_view(registered@).take(i as int),
    {
        let ghost before = names@;
        let n = chars_of(registered[i].as_str());
        names.push(n);
        assert(views(names@) == views(before).push(n@));
        assert(names_view(registered@).take(i + 1) == names_view(registered@).take(i as int).push(
            registered@[i as int]@,
        ));
    }
    assert(names_view(registered@).take(registered.len() as int) == names_view(registered@));
    let sep = chars_of(", ");
    let list = join_chars(&names, &sep);
    let a = chars_of("unknown site: ");
    let b = chars_of(site);
    let c = chars_of(". Registered: ");
    let ab = concat(&a, &b);
    let abc = concat(&ab, &c);
    ArachneError::Config(string_of(&concat(&abc, &list)))
}

/// Whether the one-shot command line can scrape `site`: only `fatal_model`; for any
/// other site, the message that says so.
pub fn check_cli_site(site: &str) -> (r: Result<(), String>)
    ensures
        site@ == "fatal_model"@ ==> r is Ok,
        site@ != "fatal_model"@ ==> (r matches Err(m) && m@ == "unknown site: "@ + site@
            + ". Supported: fatal_model"@),
{
    let name = chars_of(site);
    let supported = chars_of("fatal_model");
    if seq_eq_exec(&name, &supported) {
        Ok(())
    } else {
        let a = chars_of("unknown site: ");
        let c = chars_of(". Supported: fatal_model");
        let ab = concat(&a, &name);
        Err(string_of(&concat(&ab, &c)))
    }
}

} // verus!
