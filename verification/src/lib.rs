//! An asset-tracking registry: companies, the physical assets they own, and
//! the inventory-check records taken against those assets.
//!
//! The registry is a single in-memory aggregate. Companies are appended and
//! never removed; assets are appended to every company whose name matches and
//! may later be edited in place; inventory records are appended on each check
//! and never change afterwards. Lookups are linear scans by company name and
//! asset serial, and an operation that matches nothing is a no-op.

mod clock;
pub mod laws;
pub mod model;
pub mod registry;
