//! Packet classification and traffic accounting: header decoding with
//! bounds checks, connection keys and TCP state tracking, and the
//! fixed-capacity statistics tables filled by the two packet pipelines.

pub mod classifier;
pub mod conntrack;
pub mod device;
pub mod ingress;
pub mod laws;
pub mod packet;
pub mod report;
pub mod stats;
pub mod table;
