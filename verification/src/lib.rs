//! Cryptographic bill of materials: detection of cryptographic usage in
//! source code, dependency lockfiles and certificates, a policy engine that
//! grades each finding, and the comparison of two inventories.

pub mod certs;
pub mod dependencies;
pub mod detection;
pub mod files;
pub mod history;
pub mod diff;
pub mod display;
pub mod json;
pub mod line_rules;
pub mod match_rules;
pub mod models;
pub mod policy;
pub mod queries;
pub mod report;
pub mod scanner;
pub mod setup;
pub mod source_scan;
pub mod syntax;
pub mod text;
pub mod viewer;
