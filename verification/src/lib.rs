//! A domain-query dispatcher: it loads a configuration declaring domain
//! names, resolves glob-style patterns against them, plans probes (host,
//! dig, ssl, whois) over the resolved set, and renders the outcomes.

pub mod config;
pub mod dispatch;
pub mod paths;
pub mod pattern;
pub mod report;
pub mod resolve;
