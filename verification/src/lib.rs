//! Fingerprint scanner toolkit: image processing, template handling, matching
//! decisions, a schema/SQL layer for the local store and sync scheduling.

pub mod text;
pub mod template;
pub mod db_error;
pub mod schema;
pub mod value;
pub mod query;
pub mod store;
pub mod sync;
pub mod image;
pub mod usb;
pub mod matching;
pub mod capi;
pub mod nbis;
pub mod diagnostic;
