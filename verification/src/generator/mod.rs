//! The packet builders, one per protocol version, and what they share.

pub mod field_serializer;
pub mod flowset;
pub mod ipfix;
pub mod samples;
pub mod v5;
pub mod v7;
pub mod v9;
pub mod validation;
