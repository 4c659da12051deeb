//! Runtime configuration fetched from a gist whose URL is fixed at build time.

use vstd::prelude::*;
use crate::text::{str_eq, trim, trim_seq};

verus! {

/// The promotional banner settings.
pub struct BannersConfig {
    pub enabled: bool,
    pub interval_hours: u64,
    pub title: String,
    pub body: String,
    pub cta_url: String,
    pub dismiss_duration_hours: u64,
}

impl Default for BannersConfig {
    fn default() -> (r: Self)
        ensures
            !r.enabled,
            r.interval_hours == 0,
            r.title@.len() == 0,
            r.body@.len() == 0,
            r.cta_url@.len() == 0,
            r.dismiss_duration_hours == 0,
    {
        BannersConfig {
            enabled: false,
            interval_hours: 0,
            title: String::new(),
            body: String::new(),
            cta_url: String::new(),
            dismiss_duration_hours: 0,
        }
    }
}

/// The whole runtime configuration.
pub struct RuntimeConfig {
    pub banners: BannersConfig,
}

impl Default for RuntimeConfig {
    fn default() -> (r: Self)
        ensures
            !r.banners.enabled,
            r.banners.interval_hours == 0,
            r.banners.title@.len() == 0,
            r.banners.body@.len() == 0,
            r.banners.cta_url@.len() == 0,
            r.banners.dismiss_duration_hours == 0,
    {
        RuntimeConfig { banners: BannersConfig::default() }
    }
}

/// The gist URL the build was configured with, or `unset`.
pub fn gist_url(configured: Option<&'static str>) -> (r: &'static str)
    ensures
        r@ == match configured {
            Some(url) => url@,
            None => "unset"@,
        },
{
    match configured {
        Some(url) => url,
        None => "unset",
    }
}

/// A usable gist URL is neither blank nor the `unset` placeholder.
pub open spec fn config_url_usable(url: Seq<char>) -> bool {
    trim_seq(url).len() > 0 && url != "unset"@
}

/// Refuse to fetch the runtime configuration without a usable URL.
pub fn check_config_url(url: &str) -> (r: Result<(), String>)
    ensures
        r is Ok <==> config_url_usable(url@),
        r matches Err(m) ==> m@ == "TOKENGUARD_CONFIG_GIST_URL is not set; a runtime config gist is required"@,
{
    let t = trim(url);
    if crate::text::char_count(t.as_str()) == 0 || str_eq(url, "unset") {
        Err("TOKENGUARD_CONFIG_GIST_URL is not set; a runtime config gist is required".to_owned())
    } else {
        Ok(())
    }
}

} // verus!
