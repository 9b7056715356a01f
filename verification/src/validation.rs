pub mod robots_rules;
pub mod route;
