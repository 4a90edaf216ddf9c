//! HTTP monitoring: the URL of each site.

use vstd::prelude::*;
use crate::errors::concat_str;

verus! {

/// The URL a site is checked at: `https://` followed by the site.
pub fn site_url(site: &str) -> (r: String)
    ensures
        r@ == "https://"@ + site@,
{
    concat_str("https://", site)
}

} // verus!
