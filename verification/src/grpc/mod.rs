//! Items and functionality specific to gRPC services
mod status;
mod status_code_set;

pub use status::{code_from_number, code_number, metadata_lookup, Code, Status};
pub use status_code_set::{bit_set, code_from_i32, StatusCodeSet};
