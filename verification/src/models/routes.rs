pub mod follow_robots_exclusion_protocol;
pub mod host;
pub mod hosts;
pub mod method;
pub mod methods;
pub mod path;
pub mod paths;
pub mod permission;
pub mod port;
pub mod root_url;
pub mod root_urls;
pub mod ports;
pub mod scheme;
pub mod schemes;
