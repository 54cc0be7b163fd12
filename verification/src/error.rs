//! The error type shared by every fallible operation of the exporter.

use vstd::prelude::*;
use vstd::string::StringExecFns;

verus! {

/// What can go wrong while loading a configuration, building packets or emitting them.
///
/// Each variant carries a human-readable message.
#[derive(Debug)]
pub enum NetflowError {
    /// The configuration text could not be parsed.
    YamlParse(String),
    /// A file could not be created, written or read.
    Io(String),
    /// A datagram could not be sent.
    Network(String),
    /// The configuration is structurally valid but unusable.
    Validation(String),
    /// A packet could not be assembled from its description.
    Generation(String),
    /// The destination address cannot be used.
    InvalidDestination(String),
    /// Templates of one exporter contradict each other or are missing.
    Configuration(String),
    /// A frame or a computed length does not fit its wire field.
    InvalidPacket(String),
    /// A packet did not decode as expected.
    ParserError(String),
}

impl NetflowError {
    /// The message carried by the error, whatever its kind.
    pub open spec fn text(&self) -> Seq<char> {
        match self {
            NetflowError::YamlParse(m) => m@,
            NetflowError::Io(m) => m@,
            NetflowError::Network(m) => m@,
            NetflowError::Validation(m) => m@,
            NetflowError::Generation(m) => m@,
            NetflowError::InvalidDestination(m) => m@,
            NetflowError::Configuration(m) => m@,
            NetflowError::InvalidPacket(m) => m@,
            NetflowError::ParserError(m) => m@,
        }
    }

    /// A copy of the message carried by the error.
    pub fn message(&self) -> (out: String)
        ensures
            out@ == self.text(),
    {
        match self {
            NetflowError::YamlParse(m) => m.clone(),
            NetflowError::Io(m) => m.clone(),
            NetflowError::Network(m) => m.clone(),
            NetflowError::Validation(m) => m.clone(),
            NetflowError::Generation(m) => m.clone(),
            NetflowError::InvalidDestination(m) => m.clone(),
            NetflowError::Configuration(m) => m.clone(),
            NetflowError::InvalidPacket(m) => m.clone(),
            NetflowError::ParserError(m) => m.clone(),
        }
    }

    /// A packet-assembly failure with the given message.
    pub fn generation(msg: &str) -> (e: NetflowError)
        ensures
            e is Generation,
            e.text() == msg@,
    {
        NetflowError::Generation(String::from_str(msg))
    }

    /// A configuration-validation failure with the given message.
    pub fn validation(msg: &str) -> (e: NetflowError)
        ensures
            e is Validation,
            e.text() == msg@,
    {
        NetflowError::Validation(String::from_str(msg))
    }

    /// A template-consistency failure with the given message.
    pub fn configuration(msg: &str) -> (e: NetflowError)
        ensures
            e is Configuration,
            e.text() == msg@,
    {
        NetflowError::Configuration(String::from_str(msg))
    }

    /// A framing failure with the given message.
    pub fn invalid_packet(msg: &str) -> (e: NetflowError)
        ensures
            e is InvalidPacket,
            e.text() == msg@,
    {
        NetflowError::InvalidPacket(String::from_str(msg))
    }

    /// A destination failure with the given message.
    pub fn invalid_destination(msg: &str) -> (e: NetflowError)
        ensures
            e is InvalidDestination,
            e.text() == msg@,
    {
        NetflowError::InvalidDestination(String::from_str(msg))
    }
}

} // verus!
