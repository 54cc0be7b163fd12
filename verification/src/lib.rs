//! Synthetic NetFlow exporter core: byte-exact packet assembly for NetFlow v5, v7, v9
//! and IPFIX, per-exporter sequence tracking, template refresh timing and the
//! Ethernet/IPv4/UDP framing used for capture files.
//!
//! Every function states its result over mathematical models (`Seq<u8>` for wire
//! bytes, spec functions for the layouts), and the proofs are checked by Verus.
//!
//! A tick runs like this: [`exporter::group_flows`] sorts the flow entries by exporter,
//! [`tick::build_exporter_group`] builds each group from the sequence number the
//! [`sequence::SequenceStore`] holds for it, and [`tick::merge_group_results`] collects
//! the packets and writes the new numbers back.
//! [`tick::generate_packets_from_config_at`] does all of it in one call.

pub mod cli;
pub mod clock;
pub mod config;
pub mod error;
pub mod exporter;
pub mod generator;
pub mod ipv4;
pub mod ipv6;
pub mod refresh;
pub mod run_loop;
pub mod sequence;
pub mod template_cache;
pub mod text;
pub mod tick;
pub mod transmitter;
pub mod wire;
