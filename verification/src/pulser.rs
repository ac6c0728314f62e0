//! The wire-format vocabulary shared with the external serialization layer.

pub mod device_schema;
pub mod error;
pub mod register_schema;
pub mod sequence_schema;
