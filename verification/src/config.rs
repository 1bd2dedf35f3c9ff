//! Effective configuration of one invocation.
//!
//! Values are resolved with the priority command line, then environment,
//! then configuration file, then built-in default. The application crate
//! reads the environment and the configuration file and hands the raw
//! values in; directories come in as plain path strings.

use vstd::prelude::*;
use vstd::string::StringExecFns;

use crate::error::IherbError;
use crate::text::str_eq;

verus! {

#[derive(Debug, Clone, PartialEq, Eq)]
pub struct AppConfig {
    pub country: String,
    pub currency: String,
    pub no_cache: bool,
    pub delay_ms: u64,
    pub debug: bool,
    pub browser_path: Option<String>,
    pub cache_dir: String,
    pub data_dir: String,
}

/// Optional settings read from the configuration file.
#[derive(Debug, Clone, PartialEq, Eq)]
pub struct ConfigDefaults {
    pub country: Option<String>,
    pub currency: Option<String>,
    pub browser_path: Option<String>,
    pub delay_ms: Option<u64>,
}

/// Optional settings read from the environment.
#[derive(Debug, Clone, PartialEq, Eq)]
pub struct EnvOverrides {
    pub browser_path: Option<String>,
    pub country: Option<String>,
    pub currency: Option<String>,
}

fn first_some_string(a: Option<String>, b: Option<String>, c: Option<String>, d: &str) -> (r:
    String)
    ensures
        r@ == if a is Some {
            a->0@
        } else if b is Some {
            b->0@
        } else if c is Some {
            c->0@
        } else {
            d@
        },
{
    match a {
        Some(v) => v,
        None => match b {
            Some(v) => v,
            None => match c {
                Some(v) => v,
                None => String::from_str(d),
            },
        },
    }
}

/// The country subdomains the site serves.
pub open spec fn is_known_country(c: Seq<char>) -> bool {
    ||| c == "us"@
    ||| c == "ca"@
    ||| c == "au"@
    ||| c == "nz"@
    ||| c == "sg"@
    ||| c == "hk"@
    ||| c == "tw"@
    ||| c == "kr"@
    ||| c == "jp"@
    ||| c == "sa"@
    ||| c == "ae"@
    ||| c == "kw"@
    ||| c == "il"@
    ||| c == "de"@
    ||| c == "fr"@
    ||| c == "es"@
    ||| c == "it"@
    ||| c == "nl"@
    ||| c == "be"@
    ||| c == "at"@
    ||| c == "ch"@
    ||| c == "se"@
    ||| c == "no"@
    ||| c == "dk"@
    ||| c == "fi"@
    ||| c == "pl"@
    ||| c == "cz"@
    ||| c == "ie"@
    ||| c == "pt"@
    ||| c == "gr"@
    ||| c == "ru"@
    ||| c == "tr"@
    ||| c == "in"@
    ||| c == "th"@
    ||| c == "my"@
    ||| c == "ph"@
    ||| c == "id"@
    ||| c == "vn"@
    ||| c == "br"@
    ||| c == "mx"@
    ||| c == "cl"@
    ||| c == "co"@
    ||| c == "ar"@
    ||| c == "za"@
    ||| c == "eg"@
    ||| c == "ng"@
    ||| c == "ke"@
    ||| c == "cn"@
}

impl AppConfig {
    /// Resolve the effective configuration. `Err` exactly when the resolved
    /// country code is not a known subdomain.
    pub fn load(
        country: Option<String>,
        currency: Option<String>,
        no_cache: bool,
        delay: Option<u64>,
        debug: bool,
        env: EnvOverrides,
        file: ConfigDefaults,
        cache_dir: String,
        data_dir: String,
    ) -> (r: Result<AppConfig, IherbError>)
        ensures
            ({
                let want_country = if country is Some {
                    country->0@
                } else if env.country is Some {
                    env.country->0@
                } else if file.country is Some {
                    file.country->0@
                } else {
                    "us"@
                };
                match r {
                    Result::Ok(cfg) => {
                        &&& is_known_country(want_country)
                        &&& cfg.country@ == want_country
                        &&& cfg.currency@ == (if currency is Some {
                            currency->0@
                        } else if env.currency is Some {
                            env.currency->0@
                        } else if file.currency is Some {
                            file.currency->0@
                        } else {
                            "USD"@
                        })
                        &&& cfg.no_cache == no_cache
                        &&& cfg.debug == debug
                        &&& cfg.delay_ms == (if delay is Some {
                            delay->0
                        } else if file.delay_ms is Some {
                            file.delay_ms->0
                        } else {
                            2000u64
                        })
                        &&& cfg.cache_dir == cache_dir
                        &&& cfg.data_dir == data_dir
                        &&& (cfg.browser_path is Some <==> (env.browser_path is Some
                            || file.browser_path is Some))
                    },
                    Result::Err(e) => !is_known_country(want_country) && e is Navigation,
                }
            }),
    {
        let browser_path = match env.browser_path {
            Some(p) => Some(p),
            None => file.browser_path,
        };
        let country = first_some_string(country, env.country, file.country, "us");
        let currency = first_some_string(currency, env.currency, file.currency, "USD");
        let delay_ms = match delay {
            Some(d) => d,
            None => match file.delay_ms {
                Some(d) => d,
                None => 2000,
            },
        };
        if let Err(e) = Self::validate_country(country.as_str()) {
            return Err(e);
        }
        Ok(
            AppConfig {
                country,
                currency,
                no_cache,
                delay_ms,
                debug,
                browser_path,
                cache_dir,
                data_dir,
            },
        )
    }

    /// `Ok` exactly when `country` is a subdomain the site serves.
    pub fn validate_country(country: &str) -> (r: Result<(), IherbError>)
        ensures
            r is Ok <==> is_known_country(country@),
            r matches Err(e) ==> e is Navigation,
    {
        if Self::is_known(country) {
            Ok(())
        } else {
            let mut m = String::from_str("Unknown country code '");
            m.append(country);
            m.append(
                "'. The site may not serve this subdomain. Known codes include: us, ca, de, fr, ch, au, jp, kr, etc.",
            );
            Err(IherbError::Navigation(m))
        }
    }

    fn is_known(country: &str) -> (r: bool)
        ensures
            r == is_known_country(country@),
    {
        str_eq(country, "us") || str_eq(country, "ca") || str_eq(country, "au") || str_eq(
            country,
            "nz",
        ) || str_eq(country, "sg") || str_eq(country, "hk") || str_eq(country, "tw") || str_eq(
            country,
            "kr",
        ) || str_eq(country, "jp") || str_eq(country, "sa") || str_eq(country, "ae") || str_eq(
            country,
            "kw",
        ) || str_eq(country, "il") || str_eq(country, "de") || str_eq(country, "fr") || str_eq(
            country,
            "es",
        ) || str_eq(country, "it") || str_eq(country, "nl") || str_eq(country, "be") || str_eq(
            country,
            "at",
        ) || str_eq(country, "ch") || str_eq(country, "se") || str_eq(country, "no") || str_eq(
            country,
            "dk",
        ) || str_eq(country, "fi") || str_eq(country, "pl") || str_eq(country, "cz") || str_eq(
            country,
            "ie",
        ) || str_eq(country, "pt") || str_eq(country, "gr") || str_eq(country, "ru") || str_eq(
            country,
            "tr",
        ) || str_eq(country, "in") || str_eq(country, "th") || str_eq(country, "my") || str_eq(
            country,
            "ph",
        ) || str_eq(country, "id") || str_eq(country, "vn") || str_eq(country, "br") || str_eq(
            country,
            "mx",
        ) || str_eq(country, "cl") || str_eq(country, "co") || str_eq(country, "ar") || str_eq(
            country,
            "za",
        ) || str_eq(country, "eg") || str_eq(country, "ng") || str_eq(country, "ke") || str_eq(
            country,
            "cn",
        )
    }

    /// The site origin for the configured country: the bare host for "us",
    /// else the country subdomain.
    pub fn base_url(&self) -> (r: String)
        ensures
            self.country@ == "us"@ ==> r@ == "https://www.iherb.com"@,
            self.country@ != "us"@ ==> r@ == "https://"@ + self.country@ + ".iherb.com"@,
    {
        if str_eq(self.country.as_str(), "us") {
            String::from_str("https://www.iherb.com")
        } else {
            let mut r = String::from_str("https://");
            r.append(self.country.as_str());
            r.append(".iherb.com");
            r
        }
    }
}

} // verus!
