//! Verified core of a feed reader and a security-scan manager: URL
//! normalisation, OPML and report parsing, command-line assembly for the
//! scan container, and the bookkeeping around scans.

pub mod text;
pub mod scan;
pub mod article;
pub mod docker;
pub mod feed;
pub mod json;
pub mod opml;
pub mod patterns;
pub mod xmlread;
pub mod query;
pub mod report;
pub mod paths;
pub mod python;
pub mod server;
pub mod store;
