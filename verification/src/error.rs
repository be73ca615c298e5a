//! The library's error, with the message that each kind of failure is reported with.
//!
//! Failures that come from an outside service (database, Redis, HTTP, image decoding)
//! carry that service's own message as text.

use vstd::prelude::*;

use crate::text::{chars_of, concat, string_of};

verus! {

#[derive(Debug)]
pub enum ArachneError {
    Browser(String),
    NavigationTimeout { url: String },
    SelectorNotFound { selector: String },
    Scrape { site: String, city: String, message: String },
    Database(String),
    Redis(String),
    S3(String),
    Http(String),
    Image(String),
    PhoneParse(String),
    Config(String),
    Other(String),
}

/// The message that an error is reported with.
pub open spec fn error_message(e: ArachneError) -> Seq<char> {
    match e {
        ArachneError::Browser(m) => "browser error: "@ + m@,
        ArachneError::NavigationTimeout { url } => "navigation timeout: "@ + url@,
        ArachneError::SelectorNotFound { selector } => "selector not found: "@ + selector@,
        ArachneError::Scrape { site, city, message } => "scrape error on "@ + site@ + "/"@ + city@
            + ": "@ + message@,
        ArachneError::Database(m) => "database error: "@ + m@,
        ArachneError::Redis(m) => "redis error: "@ + m@,
        ArachneError::S3(m) => "s3 error: "@ + m@,
        ArachneError::Http(m) => "http error: "@ + m@,
        ArachneError::Image(m) => "image error: "@ + m@,
        ArachneError::PhoneParse(m) => "phone parse error: "@ + m@,
        ArachneError::Config(m) => "config error: "@ + m@,
        ArachneError::Other(m) => m@,
    }
}

fn prefixed(prefix: &str, m: &String) -> (r: String)
    ensures
        r@ == prefix@ + m@,
{
    let p = chars_of(prefix);
    let b = chars_of(m.as_str());
    string_of(&concat(&p, &b))
}

impl ArachneError {
    /// The message that this error is reported with.
    pub fn message(&self) -> (r: String)
        ensures
            r@ == error_message(*self),
    {
        match self {
            ArachneError::Browser(m) => prefixed("browser error: ", m),
            ArachneError::NavigationTimeout { url } => prefixed("navigation timeout: ", url),
            ArachneError::SelectorNotFound { selector } => prefixed(
                "selector not found: ",
                selector,
            ),
            ArachneError::Scrape { site, city, message } => {
                let a = chars_of("scrape error on ");
                let b = chars_of(site.as_str());
                let c = chars_of("/");
                let d = chars_of(city.as_str());
                let e = chars_of(": ");
                let f = chars_of(message.as_str());
                let ab = concat(&a, &b);
                let abc = concat(&ab, &c);
                let abcd = concat(&abc, &d);
                let abcde = concat(&abcd, &e);
                string_of(&concat(&abcde, &f))
            },
            ArachneError::Database(m) => prefixed("database error: ", m),
            ArachneError::Redis(m) => prefixed("redis error: ", m),
            ArachneError::S3(m) => prefixed("s3 error: ", m),
            ArachneError::Http(m) => prefixed("http error: ", m),
            ArachneError::Image(m) => prefixed("image error: ", m),
            ArachneError::PhoneParse(m) => prefixed("phone parse error: ", m),
            ArachneError::Config(m) => prefixed("config error: ", m),
            ArachneError::Other(m) => m.clone(),
        }
    }
}

} // verus!
