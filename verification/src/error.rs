//! What can go wrong, and how it is told.

use vstd::prelude::*;
use vstd::string::*;

use crate::text::{append_decimal, decimal};

verus! {

/// A field of a tunnel's configuration.
#[derive(Clone, Copy, Debug, PartialEq, Eq, Structural)]
pub enum Field {
    PrivateKey,
    PeerPublicKey,
    PresharedKey,
    EndpointPort,
    PersistentKeepalive,
}

/// Why a text is not Base64.
#[derive(Clone, Copy, Debug, PartialEq, Eq, Structural)]
pub enum Base64Fault {
    /// A byte outside the alphabet, or padding in the wrong place: its offset and the byte.
    InvalidByte(usize, u8),
    /// A number of symbols that no input encodes to.
    InvalidLength(usize),
    /// A last symbol with bits that would be lost: its offset and the byte.
    InvalidLastSymbol(usize, u8),
    /// Padding that is missing or incomplete.
    InvalidPadding,
}

/// An error of the library.
#[derive(Clone, Copy, Debug, PartialEq, Eq, Structural)]
pub enum TunnelError {
    /// A key is not Base64.
    NotBase64(Field, Base64Fault),
    /// A key does not have the length of a key.
    WrongKeyLength(Field),
    /// A number does not fit.
    OutOfRange(Field),
    /// The endpoint has no address.
    EndpointUnresolved,
    /// All handles have been given out.
    HandlesExhausted,
    /// A handle that is never given out.
    InvalidHandle,
    /// A handle without a tunnel.
    UnknownHandle,
    /// A file descriptor that is none.
    InvalidTunFd,
}

/// The name of a field.
pub open spec fn field_name(field: Field) -> Seq<char> {
    match field {
        Field::PrivateKey => "privateKey"@,
        Field::PeerPublicKey => "peerPublicKey"@,
        Field::PresharedKey => "presharedKey"@,
        Field::EndpointPort => "endpointPort"@,
        Field::PersistentKeepalive => "persistentKeepalive"@,
    }
}

/// The description of a fault in Base64.
pub open spec fn fault_text(fault: Base64Fault) -> Seq<char> {
    match fault {
        Base64Fault::InvalidByte(offset, byte) => "Invalid symbol "@ + decimal(byte as nat)
            + ", offset "@ + decimal(offset as nat) + "."@,
        Base64Fault::InvalidLength(len) => "Invalid input length: "@ + decimal(len as nat),
        Base64Fault::InvalidLastSymbol(offset, byte) => "Invalid last symbol "@ + decimal(
            byte as nat,
        ) + ", offset "@ + decimal(offset as nat) + "."@,
        Base64Fault::InvalidPadding => "Invalid padding"@,
    }
}

/// The text that tells of an error.
pub open spec fn error_text(error: TunnelError) -> Seq<char> {
    match error {
        TunnelError::NotBase64(field, fault) => field_name(field) + " is not valid base64: "@
            + fault_text(fault),
        TunnelError::WrongKeyLength(field) => field_name(field) + " must decode to 32 bytes"@,
        TunnelError::OutOfRange(field) => field_name(field) + " out of range"@,
        TunnelError::EndpointUnresolved => "endpoint did not resolve"@,
        TunnelError::HandlesExhausted => "tunnel handle space exhausted"@,
        TunnelError::InvalidHandle => "invalid tunnel handle"@,
        TunnelError::UnknownHandle => "unknown tunnel handle"@,
        TunnelError::InvalidTunFd => "invalid TUN fd"@,
    }
}

impl Field {
    /// The name of the field.
    pub fn name(&self) -> (name: &'static str)
        ensures
            name@ == field_name(*self),
    {
        match self {
            Field::PrivateKey => "privateKey",
            Field::PeerPublicKey => "peerPublicKey",
            Field::PresharedKey => "presharedKey",
            Field::EndpointPort => "endpointPort",
            Field::PersistentKeepalive => "persistentKeepalive",
        }
    }
}

impl Base64Fault {
    /// Describes the fault.
    pub fn message(&self) -> (text: String)
        ensures
            text@ == fault_text(*self),
    {
        match self {
            Base64Fault::InvalidByte(offset, byte) => {
                let mut text = "Invalid symbol ".to_string();
                append_decimal(&mut text, *byte as u64);
                text.append(", offset ");
                append_decimal(&mut text, *offset as u64);
                text.append(".");
                text
            },
            Base64Fault::InvalidLength(len) => {
                let mut text = "Invalid input length: ".to_string();
                append_decimal(&mut text, *len as u64);
                text
            },
            Base64Fault::InvalidLastSymbol(offset, byte) => {
                let mut text = "Invalid last symbol ".to_string();
                append_decimal(&mut text, *byte as u64);
                text.append(", offset ");
                append_decimal(&mut text, *offset as u64);
                text.append(".");
                text
            },
            Base64Fault::InvalidPadding => "Invalid padding".to_string(),
        }
    }
}

impl TunnelError {
    /// Tells of the error.
    pub fn message(&self) -> (text: String)
        ensures
            text@ == error_text(*self),
    {
        match self {
            TunnelError::NotBase64(field, fault) => {
                let mut text = field.name().to_string();
                text.append(" is not valid base64: ");
                let reason = fault.message();
                text.append(reason.as_str());
                text
            },
            TunnelError::WrongKeyLength(field) => {
                let mut text = field.name().to_string();
                text.append(" must decode to 32 bytes");
                text
            },
            TunnelError::OutOfRange(field) => {
                let mut text = field.name().to_string();
                text.append(" out of range");
                text
            },
            TunnelError::EndpointUnresolved => "endpoint did not resolve".to_string(),
            TunnelError::HandlesExhausted => "tunnel handle space exhausted".to_string(),
            TunnelError::InvalidHandle => "invalid tunnel handle".to_string(),
            TunnelError::UnknownHandle => "unknown tunnel handle".to_string(),
            TunnelError::InvalidTunFd => "invalid TUN fd".to_string(),
        }
    }
}

/// The description of a fault gives its byte and its offset, or its length, in base ten.
pub proof fn law_faults_are_described_in_full(offset: usize, byte: u8, len: usize)
    ensures
        fault_text(Base64Fault::InvalidByte(offset, byte)) == "Invalid symbol "@ + decimal(
            byte as nat,
        ) + ", offset "@ + decimal(offset as nat) + "."@,
        fault_text(Base64Fault::InvalidLastSymbol(offset, byte)) == "Invalid last symbol "@
            + decimal(byte as nat) + ", offset "@ + decimal(offset as nat) + "."@,
        fault_text(Base64Fault::InvalidLength(len)) == "Invalid input length: "@ + decimal(
            len as nat,
        ),
        fault_text(Base64Fault::InvalidPadding) == "Invalid padding"@,
{
}

/// An error that is about a field begins with the name of the field, and one about Base64 ends with
/// the description of the fault.
pub proof fn law_errors_name_their_field(field: Field, fault: Base64Fault)
    ensures
        error_text(TunnelError::NotBase64(field, fault)) == field_name(field)
            + " is not valid base64: "@ + fault_text(fault),
        error_text(TunnelError::WrongKeyLength(field)) == field_name(field)
            + " must decode to 32 bytes"@,
        error_text(TunnelError::OutOfRange(field)) == field_name(field) + " out of range"@,
{
}

/// A field is called what its key in the configuration is, and an error that is about no field has
/// a text of its own.
pub proof fn law_names_and_texts(field: Field, error: TunnelError)
    ensures
        field_name(field) == match field {
            Field::PrivateKey => "privateKey"@,
            Field::PeerPublicKey => "peerPublicKey"@,
            Field::PresharedKey => "presharedKey"@,
            Field::EndpointPort => "endpointPort"@,
            Field::PersistentKeepalive => "persistentKeepalive"@,
        },
        error is EndpointUnresolved ==> error_text(error) == "endpoint did not resolve"@,
        error is HandlesExhausted ==> error_text(error) == "tunnel handle space exhausted"@,
        error is InvalidHandle ==> error_text(error) == "invalid tunnel handle"@,
        error is UnknownHandle ==> error_text(error) == "unknown tunnel handle"@,
        error is InvalidTunFd ==> error_text(error) == "invalid TUN fd"@,
{
}

} // verus!
