//! Errors reported by the library.

use vstd::prelude::*;

verus! {

/// `std::io::Error`, carried through by `QtmError::Io`.
#[verifier::external_type_specification]
#[verifier::external_body]
pub struct ExIoError(std::io::Error);

/// `std::string::FromUtf8Error`, carried through by `QtmError::Utf8`.
#[verifier::external_type_specification]
#[verifier::external_body]
pub struct ExFromUtf8Error(std::string::FromUtf8Error);

/// `roxmltree::Error`, carried through by `QtmError::Xml`.
#[verifier::external_type_specification]
#[verifier::external_body]
pub struct ExXmlError(roxmltree::Error);

/// Every failure the library reports.
#[derive(Debug)]
pub enum QtmError {
    Io(std::io::Error),
    Utf8(std::string::FromUtf8Error),
    Xml(roxmltree::Error),
    InvalidPacket(String),
    InvalidParametersXml(String),
    UnexpectedPacketType { expected: crate::protocol::PacketType, actual: crate::protocol::PacketType },
    UnsupportedPacketType(u32),
    UnsupportedEvent(u8),
    CommandFailed(String),
    Timeout,
    UdpStreamNotActive,
}

impl QtmError {
    /// An `InvalidPacket` error with the given message.
    pub fn invalid_packet(message: &str) -> (e: QtmError)
        ensures
            e matches QtmError::InvalidPacket(m) && m@ == message@,
    {
        QtmError::InvalidPacket(message.to_owned())
    }

    /// An `InvalidParametersXml` error with the given message.
    pub fn invalid_parameters_xml(message: &str) -> (e: QtmError)
        ensures
            e matches QtmError::InvalidParametersXml(m) && m@ == message@,
    {
        QtmError::InvalidParametersXml(message.to_owned())
    }
}

} // verus!
