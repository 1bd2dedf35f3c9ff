//! Error kinds surfaced by the library. Payloads are plain strings so that
//! callers can render them; `message` gives the canonical human-readable
//! form of each.

use vstd::prelude::*;
use vstd::string::StringExecFns;

use crate::text::{dec_chars, u32_to_string};

verus! {

#[derive(Debug, Clone, PartialEq, Eq)]
pub enum IherbError {
    /// The browser executable could not be started.
    BrowserLaunch(String),
    /// Navigation failed at the page level (network, timeout).
    Navigation(String),
    /// The anti-bot challenge did not clear within the allowed rounds;
    /// carries the round count.
    CloudflareBlocked(u32),
    /// The requested product does not exist on the site.
    ProductNotFound(String),
    /// Fetching or unpacking a browser executable failed.
    ChromeDownload(String),
    /// A cache artifact could not be read or written.
    Cache(String),
    /// The underlying network transport failed.
    Network(String),
    /// A filesystem operation failed.
    Io(String),
    /// A structured payload could not be parsed.
    Json(String),
}

/// The rendered message of each error kind.
pub open spec fn spec_message(e: IherbError) -> Seq<char> {
    match e {
        IherbError::BrowserLaunch(m) => "Failed to launch browser: "@ + m@,
        IherbError::Navigation(m) => "Browser navigation failed: "@ + m@,
        IherbError::CloudflareBlocked(n) => "Cloudflare challenge could not be solved after "@
            + dec_chars(n as int) + " attempts"@,
        IherbError::ProductNotFound(m) => "Product not found: "@ + m@,
        IherbError::ChromeDownload(m) => "Chrome download failed: "@ + m@,
        IherbError::Cache(m) => "Cache error: "@ + m@,
        IherbError::Network(m) => "Network error: "@ + m@,
        IherbError::Io(m) => "IO error: "@ + m@,
        IherbError::Json(m) => "JSON error: "@ + m@,
    }
}

impl IherbError {
    /// One human-readable line describing the error.
    pub fn message(&self) -> (r: String)
        ensures
            r@ == spec_message(*self),
    {
        match self {
            IherbError::BrowserLaunch(m) => prefixed("Failed to launch browser: ", m),
            IherbError::Navigation(m) => prefixed("Browser navigation failed: ", m),
            IherbError::CloudflareBlocked(n) => {
                let mut r = String::from_str("Cloudflare challenge could not be solved after ");
                let digits = u32_to_string(*n);
                r.append(digits.as_str());
                r.append(" attempts");
                r
            },
            IherbError::ProductNotFound(m) => prefixed("Product not found: ", m),
            IherbError::ChromeDownload(m) => prefixed("Chrome download failed: ", m),
            IherbError::Cache(m) => prefixed("Cache error: ", m),
            IherbError::Network(m) => prefixed("Network error: ", m),
            IherbError::Io(m) => prefixed("IO error: ", m),
            IherbError::Json(m) => prefixed("JSON error: ", m),
        }
    }
}

fn prefixed(prefix: &str, m: &String) -> (r: String)
    ensures
        r@ == prefix@ + m@,
{
    let mut r = String::from_str(prefix);
    r.append(m.as_str());
    r
}

} // verus!
