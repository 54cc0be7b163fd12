//! The data model of a configuration: flow entries of four protocol versions and the
//! destination they are exported to.

use vstd::prelude::*;
use vstd::string::StringExecFns;

verus! {

/// Root of a configuration.
#[derive(Debug, Clone)]
pub struct Config {
    /// Flow entries, in the order in which they are exported.
    pub flows: Vec<FlowConfig>,
    /// Where the packets go.
    pub destination: Destination,
}

/// One flow entry, tagged by protocol version.
#[derive(Debug, Clone)]
pub enum FlowConfig {
    V5(V5Config),
    V7(V7Config),
    V9(V9Config),
    IPFix(IPFixConfig),
}

/// A NetFlow v5 flow entry.
#[derive(Debug, Clone)]
pub struct V5Config {
    /// Header overrides; absent fields take their defaults.
    pub header: Option<V5Header>,
    /// Flow records, one per exported flow.
    pub flowsets: Vec<V5FlowSet>,
}

/// Overrides for the NetFlow v5 header.
#[derive(Debug, Clone, Copy)]
pub struct V5Header {
    pub unix_secs: Option<u32>,
    pub unix_nsecs: Option<u32>,
    pub sys_up_time: Option<u32>,
    pub flow_sequence: Option<u32>,
    pub engine_type: Option<u8>,
    pub engine_id: Option<u8>,
    pub sampling_interval: Option<u16>,
}

/// One NetFlow v5 flow record. Addresses are the four octets in network order.
#[derive(Debug, Clone, Copy)]
pub struct V5FlowSet {
    pub src_addr: [u8; 4],
    pub dst_addr: [u8; 4],
    pub next_hop: [u8; 4],
    pub input: u16,
    pub output: u16,
    pub d_pkts: u32,
    pub d_octets: u32,
    pub first: u32,
    pub last: u32,
    pub src_port: u16,
    pub dst_port: u16,
    pub tcp_flags: u8,
    pub protocol: u8,
    pub tos: u8,
    pub src_as: u16,
    pub dst_as: u16,
    pub src_mask: u8,
    pub dst_mask: u8,
}

/// A NetFlow v7 flow entry.
#[derive(Debug, Clone)]
pub struct V7Config {
    /// Header overrides; absent fields take their defaults.
    pub header: Option<V7Header>,
    /// Flow records, one per exported flow.
    pub flowsets: Vec<V7FlowSet>,
}

/// Overrides for the NetFlow v7 header.
#[derive(Debug, Clone, Copy)]
pub struct V7Header {
    pub unix_secs: Option<u32>,
    pub unix_nsecs: Option<u32>,
    pub sys_up_time: Option<u32>,
    pub flow_sequence: Option<u32>,
    pub reserved: Option<u32>,
}

/// One NetFlow v7 flow record. Addresses are the four octets in network order.
#[derive(Debug, Clone, Copy)]
pub struct V7FlowSet {
    pub src_addr: [u8; 4],
    pub dst_addr: [u8; 4],
    pub next_hop: [u8; 4],
    pub input: u16,
    pub output: u16,
    pub d_pkts: u32,
    pub d_octets: u32,
    pub first: u32,
    pub last: u32,
    pub src_port: u16,
    pub dst_port: u16,
    /// Flags saying which fields are valid.
    pub flags: u8,
    pub tcp_flags: u8,
    pub protocol: u8,
    pub tos: u8,
    pub src_as: u16,
    pub dst_as: u16,
    pub src_mask: u8,
    pub dst_mask: u8,
    /// Flags saying which flows are invalid.
    pub flags2: u16,
    /// Address of the router that the switch bypasses.
    pub router_src: [u8; 4],
}

/// A value of one field of a data record.
#[derive(Debug, Clone)]
pub enum FieldValue {
    /// A text scalar; encoded when it is a dotted-quad IPv4 address.
    Text(String),
    /// A non-negative integer scalar.
    Unsigned(u64),
    /// Anything else: absent, boolean, negative, fractional or nested.
    Other,
}

/// One key of a data record with its value.
#[derive(Debug, Clone)]
pub struct RecordEntry {
    pub key: String,
    pub value: FieldValue,
}

/// One data record: a mapping from field keys to values, in document order.
#[derive(Debug, Clone)]
pub struct Record {
    pub entries: Vec<RecordEntry>,
}

/// A NetFlow v9 flow entry.
#[derive(Debug, Clone)]
pub struct V9Config {
    /// Header overrides; absent fields take their defaults.
    pub header: Option<V9Header>,
    /// Template and data flowsets, in document order.
    pub flowsets: Vec<V9FlowSet>,
}

/// Overrides for the NetFlow v9 header.
#[derive(Debug, Clone, Copy)]
pub struct V9Header {
    pub sys_up_time: Option<u32>,
    pub unix_secs: Option<u32>,
    pub sequence_number: Option<u32>,
    pub source_id: Option<u32>,
}

/// A NetFlow v9 flowset: the definition of a template, or records laid out by one.
#[derive(Debug, Clone)]
pub enum V9FlowSet {
    Template { template_id: u16, fields: Vec<V9TemplateField> },
    Data { template_id: u16, records: Vec<Record> },
}

/// One field of a NetFlow v9 template: its registry name and its length in bytes.
#[derive(Debug, Clone)]
pub struct V9TemplateField {
    pub field_type: String,
    pub field_length: u16,
}

/// An IPFIX flow entry.
#[derive(Debug, Clone)]
pub struct IPFixConfig {
    /// Header overrides; absent fields take their defaults.
    pub header: Option<IPFixHeader>,
    /// Template and data sets, in document order.
    pub flowsets: Vec<IPFixFlowSet>,
}

/// Overrides for the IPFIX message header.
#[derive(Debug, Clone, Copy)]
pub struct IPFixHeader {
    pub export_time: Option<u32>,
    pub sequence_number: Option<u32>,
    pub observation_domain_id: Option<u32>,
}

/// An IPFIX set: the definition of a template, or records laid out by one.
#[derive(Debug, Clone)]
pub enum IPFixFlowSet {
    Template { template_id: u16, fields: Vec<IPFixTemplateField> },
    Data { template_id: u16, records: Vec<Record> },
}

/// One field of an IPFIX template: its information-element name and its length in bytes.
#[derive(Debug, Clone)]
pub struct IPFixTemplateField {
    pub field_type: String,
    pub field_length: u16,
}

/// Where packets are sent: an IPv4 or IPv6 address in text form and a UDP port.
#[derive(Debug, Clone)]
pub struct Destination {
    pub ip: String,
    pub port: u16,
}

/// The address used when a configuration names none.
pub fn default_ip() -> (ip: String)
    ensures
        ip@ == "127.0.0.1"@,
{
    String::from_str("127.0.0.1")
}

/// The port used when a configuration names none.
pub fn default_port() -> (port: u16)
    ensures
        port == 2055,
{
    2055
}

impl Default for Destination {
    fn default() -> (d: Destination)
        ensures
            d.ip@ == "127.0.0.1"@,
            d.port == 2055,
    {
        Destination { ip: default_ip(), port: default_port() }
    }
}

} // verus!
