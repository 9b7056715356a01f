//! The shape of the blocking crawler's configuration file. Reading the
//! file and decoding it happen outside the library; the values live here.

use vstd::prelude::*;

verus! {

/// Client limits: depth, pacing, timeout, redirections, and how many
/// failing children one page may accumulate.
#[derive(Debug, PartialEq, Eq)]
pub struct Client {
    pub max_depth: u32,
    pub min_sleep: u32,
    pub max_sleep: u32,
    pub max_timeout: u32,
    pub max_redirections: u32,
    pub max_failures: u32,
}

/// The blacklists the configuration starts from.
#[derive(Debug, PartialEq, Eq)]
pub struct BlacklistUrls {
    pub childs: Vec<String>,
    pub hrefs: Vec<String>,
    pub types: Vec<String>,
}

/// The seed URLs and their blacklists.
#[derive(Debug, PartialEq, Eq)]
pub struct Urls {
    pub roots: Vec<String>,
    pub blacklist: BlacklistUrls,
}

/// The user agent configuration: a fixed string, or none.
#[derive(Debug, PartialEq, Eq)]
pub struct UserAgent {
    pub generate: bool,
    pub current: Option<String>,
}

/// Where the machine-local configuration lives.
#[derive(Debug, PartialEq, Eq)]
pub struct MachineConfig {
    pub name: String,
}

/// The whole configuration of the blocking crawler.
#[derive(Debug, PartialEq, Eq)]
pub struct Config {
    pub client: Client,
    pub urls: Urls,
    pub user_agent: UserAgent,
    pub machine_config: MachineConfig,
}

} // verus!
