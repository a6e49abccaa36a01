//! What can be wrong with bytes that should hold a message.

use crate::text;
use crate::text::{Utf8Fault, concat2, decimal_text};
use vstd::prelude::*;

verus! {

/// The one-byte fields, which report a wrong wire type by their name.
#[derive(Debug, Clone, Copy, PartialEq, Eq, Structural)]
pub enum ByteField {
    AuthType,
    CheckSum,
    VCode,
    CompressType,
}

/// Why bytes were refused.
#[derive(Debug, Clone, Copy, PartialEq, Eq, Structural)]
pub enum CodecError {
    /// A varint runs into the end of the bytes.
    TruncatedVarint,
    /// A varint has more bytes than its type can need.
    VarintOverflow,
    /// A 32-bit field does not have the varint wire type.
    NotVarintU32,
    /// A 64-bit field does not have the varint wire type.
    NotVarintU64,
    /// A boolean field does not have the varint wire type.
    NotVarintBool,
    /// A text field does not have the length-delimited wire type.
    NotLengthDelimited,
    /// A text is longer than what is left of the bytes.
    TruncatedText,
    /// A text is not valid UTF-8.
    InvalidUtf8(Utf8Fault),
    /// A one-byte field does not have the varint wire type.
    BadWireType(ByteField),
    /// A field without a meaning has a wire type without one.
    UnknownWireType,
    /// Too few bytes for the head of a packet.
    PayloadHeadTooShort,
    /// Too few bytes for the head of a USB block.
    UsbHeadTooShort,
    /// Too few bytes for the head of a serial block.
    UartHeadTooShort,
    /// Too few bytes for the head of a message.
    HeadTooShort,
    /// Too few bytes for a message.
    DataTooShort,
    /// A packet does not begin with the packet flag, but with these two bytes.
    BadPacketFlag(u8, u8),
    /// The sizes in the head are zero together, or too large together.
    PacketSize,
    /// A packet is shorter than its head says.
    IncompletePacket,
    /// The protection block does not hold the fixed code.
    WrongVcode,
    /// The number of the command is that of no command.
    UnknownCommand,
}

impl ByteField {
    /// The name of the field.
    pub open spec fn name(self) -> Seq<char> {
        match self {
            ByteField::AuthType => "auth_type"@,
            ByteField::CheckSum => "check_sum"@,
            ByteField::VCode => "v_code"@,
            ByteField::CompressType => "compress_type"@,
        }
    }
}

impl CodecError {
    /// The sentence that reports the error.
    pub open spec fn text(self) -> Seq<char> {
        match self {
            CodecError::TruncatedVarint => "truncated varint"@,
            CodecError::VarintOverflow => "varint overflow"@,
            CodecError::NotVarintU32 => "expected varint for u32"@,
            CodecError::NotVarintU64 => "expected varint for u64"@,
            CodecError::NotVarintBool => "expected varint for bool"@,
            CodecError::NotLengthDelimited => "expected length-delimited for string"@,
            CodecError::TruncatedText => "truncated string field"@,
            CodecError::InvalidUtf8(e) => "invalid utf8: "@ + e.text(),
            CodecError::BadWireType(f) => "bad wire type for "@ + f.name(),
            CodecError::UnknownWireType => "unknown wire type"@,
            CodecError::PayloadHeadTooShort => "PayloadHead too short"@,
            CodecError::UsbHeadTooShort => "UsbHead too short"@,
            CodecError::UartHeadTooShort => "UartHead too short"@,
            CodecError::HeadTooShort => "payload head too short"@,
            CodecError::DataTooShort => "data too short for head"@,
            CodecError::BadPacketFlag(a, b) => "PACKET_FLAG incorrect: expected [72, 87], got ["@
                + text::decimal(a as nat) + ", "@ + text::decimal(b as nat) + "]"@,
            CodecError::PacketSize => "Packet size incorrect"@,
            CodecError::IncompletePacket => "incomplete packet"@,
            CodecError::WrongVcode => "Session recv static vcode failed"@,
            CodecError::UnknownCommand => "unknown command"@,
        }
    }

    /// The sentence that reports the error.
    pub fn message(&self) -> (r: String)
        ensures
            r@ == self.text(),
    {
        match *self {
            CodecError::TruncatedVarint => "truncated varint".to_owned(),
            CodecError::VarintOverflow => "varint overflow".to_owned(),
            CodecError::NotVarintU32 => "expected varint for u32".to_owned(),
            CodecError::NotVarintU64 => "expected varint for u64".to_owned(),
            CodecError::NotVarintBool => "expected varint for bool".to_owned(),
            CodecError::NotLengthDelimited => "expected length-delimited for string".to_owned(),
            CodecError::TruncatedText => "truncated string field".to_owned(),
            CodecError::InvalidUtf8(e) => concat2("invalid utf8: ", e.message().as_str()),
            CodecError::BadWireType(f) => match f {
                ByteField::AuthType => concat2("bad wire type for ", "auth_type"),
                ByteField::CheckSum => concat2("bad wire type for ", "check_sum"),
                ByteField::VCode => concat2("bad wire type for ", "v_code"),
                ByteField::CompressType => concat2("bad wire type for ", "compress_type"),
            },
            CodecError::UnknownWireType => "unknown wire type".to_owned(),
            CodecError::PayloadHeadTooShort => "PayloadHead too short".to_owned(),
            CodecError::UsbHeadTooShort => "UsbHead too short".to_owned(),
            CodecError::UartHeadTooShort => "UartHead too short".to_owned(),
            CodecError::HeadTooShort => "payload head too short".to_owned(),
            CodecError::DataTooShort => "data too short for head".to_owned(),
            CodecError::BadPacketFlag(a, b) => {
                let mut s = "PACKET_FLAG incorrect: expected [72, 87], got [".to_owned();
                s.append(decimal_text(a as u64).as_str());
                s.append(", ");
                s.append(decimal_text(b as u64).as_str());
                s.append("]");
                s
            },
            CodecError::PacketSize => "Packet size incorrect".to_owned(),
            CodecError::IncompletePacket => "incomplete packet".to_owned(),
            CodecError::WrongVcode => "Session recv static vcode failed".to_owned(),
            CodecError::UnknownCommand => "unknown command".to_owned(),
        }
    }
}

} // verus!
