//! Message types of Google APIs that the library's requests carry.
pub mod google_type;
