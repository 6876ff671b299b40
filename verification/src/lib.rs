//! Parsing and formatting of the default `User-Agent` header value that the
//! Alamofire HTTP client sends:
//!
//! ```text
//! <executable>/<appVersion> (<bundle>; build:<appBuild>; <osName> <osVersion>) Alamofire/<version>
//! ```
//!
//! The functions of this crate are verified with Verus against the
//! specification functions that stand beside them. Two calls are trusted:
//! the one into the `semver` crate that reads a version, and the one into
//! `std` that decodes UTF-8.

pub mod app_build;
pub mod default_user_agent;
pub mod error;
pub mod grammar;
pub mod laws;
pub mod os_name;
pub mod scan;
pub mod text;
pub mod version;
