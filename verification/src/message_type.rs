//! The message-type discriminator: byte 7 of the frame header.

use vstd::prelude::*;
use vstd::string::StringExecFns;

verus! {

/// The kind of a framed message, read from the type byte of the header.
/// `MeterData` is never produced by classification; meter frames are
/// decoded where the caller knows, by context, that it holds one.
#[derive(Debug, Clone, Copy, PartialEq, Eq, Structural)]
pub enum MessageType {
    Data3,
    Data4,
    Ping,
    Configure,
    Identify,
    MeterData,
    Unknown,
}

/// The type encoded by a header type byte.
pub open spec fn spec_message_type(byte: u8) -> MessageType {
    if byte == 0x03 {
        MessageType::Data3
    } else if byte == 0x04 {
        MessageType::Data4
    } else if byte == 0x16 {
        MessageType::Ping
    } else if byte == 0x18 {
        MessageType::Configure
    } else if byte == 0x19 {
        MessageType::Identify
    } else {
        MessageType::Unknown
    }
}

impl From<u8> for MessageType {
    /// Classifies a header type byte.
    fn from(byte: u8) -> (r: Self)
        ensures
            r == spec_message_type(byte),
    {
        match byte {
            0x03 => MessageType::Data3,
            0x04 => MessageType::Data4,
            0x16 => MessageType::Ping,
            0x18 => MessageType::Configure,
            0x19 => MessageType::Identify,
            _ => MessageType::Unknown,
        }
    }
}

impl vstd::std_specs::convert::FromSpecImpl<u8> for MessageType {
    open spec fn obeys_from_spec() -> bool {
        true
    }

    open spec fn from_spec(byte: u8) -> Self {
        spec_message_type(byte)
    }
}

/// The display name of a message type.
pub open spec fn spec_type_name(t: MessageType) -> Seq<char> {
    match t {
        MessageType::Data3 => "Data3"@,
        MessageType::Data4 => "Data4"@,
        MessageType::Ping => "Ping"@,
        MessageType::Configure => "Configure"@,
        MessageType::Identify => "Identify"@,
        MessageType::MeterData => "MeterData"@,
        MessageType::Unknown => "Unknown"@,
    }
}

impl MessageType {
    /// The display name of the type.
    pub fn name(&self) -> (r: &'static str)
        ensures
            r@ == spec_type_name(*self),
    {
        match self {
            MessageType::Data3 => "Data3",
            MessageType::Data4 => "Data4",
            MessageType::Ping => "Ping",
            MessageType::Configure => "Configure",
            MessageType::Identify => "Identify",
            MessageType::MeterData => "MeterData",
            MessageType::Unknown => "Unknown",
        }
    }

    /// The JSON encoding of the type name: the name inside double
    /// quotes, as it is stored in the `type` column.
    pub fn json_name(&self) -> (r: String)
        ensures
            r@ == seq!['"'] + spec_type_name(*self) + seq!['"'],
    {
        let mut out = String::new();
        crate::text::push_char(&mut out, '"');
        out.append(self.name());
        crate::text::push_char(&mut out, '"');
        proof {
            assert(out@ =~= seq!['"'] + spec_type_name(*self) + seq!['"']);
        }
        out
    }
}

} // verus!
