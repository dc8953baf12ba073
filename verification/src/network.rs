//! The download proxy that every Mosaic-managed download goes through.
use vstd::prelude::*;

use crate::text;
use crate::urls::ov;

verus! {

/// The local download proxy used unless `MOSAIC_DOWNLOAD_PROXY` names one.
pub const DEFAULT_DOWNLOAD_PROXY: &'static str = "http://127.0.0.1:61193";

/// The proxy for downloads: the configured one where it is not blank,
/// else the default. `configured` is the `MOSAIC_DOWNLOAD_PROXY` setting.
pub fn proxy_url(configured: Option<String>) -> (res: String)
    ensures
        match ov(configured) {
            Some(v) => if text::trim(v).len() > 0 {
                res@ == v
            } else {
                res@ == DEFAULT_DOWNLOAD_PROXY@
            },
            None => res@ == DEFAULT_DOWNLOAD_PROXY@,
        },
{
    match configured {
        Some(v) => if text::trim_str(v.as_str()).len() > 0 {
            v
        } else {
            text::string_from(DEFAULT_DOWNLOAD_PROXY)
        },
        None => text::string_from(DEFAULT_DOWNLOAD_PROXY),
    }
}

pub open spec fn proxy_url_spec(configured: Option<Seq<char>>) -> Seq<char> {
    match configured {
        Some(v) => if text::trim(v).len() > 0 {
            v
        } else {
            DEFAULT_DOWNLOAD_PROXY@
        },
        None => DEFAULT_DOWNLOAD_PROXY@,
    }
}

/// Whether `ureq::Proxy::new` accepts a proxy URL.
pub uninterp spec fn proxy_accepted(url: Seq<char>) -> bool;

/// Calls `ureq::Proxy::new` and reports whether it accepted the URL.
/// Claimed: the answer depends on the text only (the call only parses it).
#[verifier::external_body]
fn proxy_parses(url: &str) -> (res: bool)
    ensures
        res == proxy_accepted(url@),
{
    ureq::Proxy::new(url).is_ok()
}

/// The proxy downloads go through: the configured one (see `proxy_url`)
/// where `ureq` accepts it, else the default.
pub fn download_proxy(configured: Option<String>) -> (res: String)
    ensures
        res@ == (if proxy_accepted(proxy_url_spec(ov(configured))) {
            proxy_url_spec(ov(configured))
        } else {
            DEFAULT_DOWNLOAD_PROXY@
        }),
{
    let url = proxy_url(configured);
    if proxy_parses(url.as_str()) {
        url
    } else {
        text::string_from(DEFAULT_DOWNLOAD_PROXY)
    }
}

} // verus!
