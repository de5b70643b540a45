//! The monitored sites and the checks made on them before monitoring starts.
use vstd::prelude::*;
use vstd::string::StringExecFns;
use crate::text::{decimal, push_decimal};

verus! {

/// A monitored endpoint.
pub struct Site {
    pub url: String,
    /// Seconds between two checks.
    pub interval: u64,
}

/// Why a list of sites cannot be monitored.
#[derive(PartialEq, Eq, Structural, Clone, Copy, Debug)]
pub enum ConfigError {
    /// No site is listed.
    NoSites,
    /// The site at this index has an interval of zero seconds.
    ZeroInterval(usize),
}

/// Accepts a non-empty list of sites whose intervals are all positive;
/// otherwise reports an empty list, or the first site with a zero interval.
pub fn validate_sites(sites: &Vec<Site>) -> (r: Result<(), ConfigError>)
    ensures
        r is Ok <==> sites@.len() > 0 && forall|i: int| 0 <= i < sites@.len() ==> sites@[i].interval > 0,
        r == Err::<(), ConfigError>(ConfigError::NoSites) <==> sites@.len() == 0,
        forall|k: usize| r == Err::<(), ConfigError>(ConfigError::ZeroInterval(k)) <==> (
            k < sites@.len() && sites@[k as int].interval == 0
                && forall|j: int| 0 <= j < k ==> sites@[j].interval > 0),
{
    if sites.len() == 0 {
        return Err(ConfigError::NoSites);
    }
    let mut i: usize = 0;
    while i < sites.len()
        invariant
            i <= sites@.len(),
            forall|j: int| 0 <= j < i ==> sites@[j].interval > 0,
        decreases sites@.len() - i,
    {
        if sites[i].interval == 0 {
            return Err(ConfigError::ZeroInterval(i));
        }
        i = i + 1;
    }
    Ok(())
}

/// The startup line that describes one site.
pub open spec fn site_summary(url: Seq<char>, interval: nat) -> Seq<char> {
    "  - "@ + url + " (check every "@ + decimal(interval) + "s)"@
}

/// The startup line that describes `site`.
pub fn site_summary_line(site: &Site) -> (r: String)
    ensures
        r@ == site_summary(site.url@, site.interval as nat),
{
    let mut r = String::from_str("  - ");
    r.append(site.url.as_str());
    r.append(" (check every ");
    push_decimal(&mut r, site.interval as u128);
    r.append("s)");
    r
}

} // verus!
