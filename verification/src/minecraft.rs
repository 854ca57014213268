//! The status-query wire protocol: the failure taxonomy, the handshake
//! and status-request packets, and description extraction from a decoded
//! response.
//!
//! The network transport around these packets lives outside the library;
//! what bytes go out and what a decoded response means are verified here.

use vstd::prelude::*;
use vstd::string::StrSliceExecFns;
use vstd::string::StringSliceAdditionalSpecFns;
use vstd::string::StringExecFns;

verus! {

/// How a status query failed.
#[derive(Debug, PartialEq)]
pub enum PingError {
    Timeout,
    ConnectionRefused,
    NetworkError(String),
    ProtocolError(String),
}

impl PingError {
    /// The error's log line.
    pub open spec fn message_spec(&self) -> Seq<char> {
        match self {
            PingError::Timeout => "Timeout"@,
            PingError::ConnectionRefused => "Connection refused"@,
            PingError::NetworkError(msg) => "Network error: "@ + msg@,
            PingError::ProtocolError(msg) => "Protocol error: "@ + msg@,
        }
    }

    /// Write the error for a log line.
    pub fn message(&self) -> (r: String)
        ensures
            r@ == self.message_spec(),
    {
        match self {
            PingError::Timeout => String::from_str("Timeout"),
            PingError::ConnectionRefused => String::from_str("Connection refused"),
            PingError::NetworkError(msg) => {
                let mut s = String::from_str("Network error: ");
                s.append(msg.as_str());
                s
            },
            PingError::ProtocolError(msg) => {
                let mut s = String::from_str("Protocol error: ");
                s.append(msg.as_str());
                s
            },
        }
    }
}

/// The `text` field of a structured description value.
#[derive(Debug, Clone)]
pub enum FieldText {
    /// The value has no `text` field.
    Absent,
    /// The value has a `text` field that is not a string.
    NonString,
    /// The value's `text` field, a string.
    Text(String),
}

/// One element of a description's `extra` array: its `text` field where
/// that field is present and is a string.
#[derive(Debug, Clone)]
pub struct ExtraItem {
    pub text: Option<String>,
}

/// The `extra` field of a structured description value.
#[derive(Debug, Clone)]
pub enum FieldExtra {
    /// The value has no `extra` field.
    Absent,
    /// The value has an `extra` field that is not an array.
    NonArray,
    /// The elements of the value's `extra` array, in order.
    Items(Vec<ExtraItem>),
}

/// A server's description as the response decoder hands it over: the
/// parts of the structured value that extraction reads, and the value's
/// raw textual form as the fallback.
#[derive(Debug, Clone)]
pub struct DescriptionValue {
    pub text: FieldText,
    pub extra: FieldExtra,
    pub raw: String,
}

/// The server's version line.
#[derive(Debug, Clone)]
pub struct Version {
    pub name: String,
}

/// The server's player counts.
#[derive(Debug, Clone, Copy)]
pub struct Players {
    pub max: u32,
    pub online: u32,
}

/// A decoded status response.
#[derive(Debug, Clone)]
pub struct ServerStatus {
    pub version: Version,
    pub players: Players,
    pub description: DescriptionValue,
}

/// Concatenation of the extra elements' texts, in order, no separator;
/// elements without a string `text` field contribute nothing.
pub open spec fn concat_texts(items: Seq<ExtraItem>) -> Seq<char>
    decreases items.len(),
{
    if items.len() == 0 {
        Seq::empty()
    } else {
        concat_texts(items.drop_last()) + (match items.last().text {
            Option::Some(t) => t@,
            Option::None => Seq::<char>::empty(),
        })
    }
}

/// What extraction yields: the `text` field when the value has one (an
/// empty string when that field is not a string); else the concatenated
/// texts of the `extra` array; else the value's raw textual form.
pub open spec fn extract_description_spec(d: DescriptionValue) -> Seq<char> {
    match d.text {
        FieldText::Text(s) => s@,
        FieldText::NonString => Seq::empty(),
        FieldText::Absent => match d.extra {
            FieldExtra::Items(items) => concat_texts(items@),
            FieldExtra::Absent => d.raw@,
            FieldExtra::NonArray => d.raw@,
        },
    }
}

/// Extract the display text of a server description.
pub fn extract_description(desc: &DescriptionValue) -> (r: String)
    ensures
        r@ == extract_description_spec(*desc),
{
    match &desc.text {
        FieldText::Text(s) => s.clone(),
        FieldText::NonString => String::new(),
        FieldText::Absent => match &desc.extra {
            FieldExtra::Items(items) => {
                let mut out = String::new();
                let mut i: usize = 0;
                proof {
                    assert(items@.take(0) =~= Seq::<ExtraItem>::empty());
                }
                while i < items.len()
                    invariant
                        0 <= i <= items@.len(),
                        out@ == concat_texts(items@.take(i as int)),
                    decreases items@.len() - i,
                {
                    match &items[i].text {
                        Some(t) => {
                            out.append(t.as_str());
                        },
                        None => {},
                    }
                    proof {
                        assert(items@.take(i + 1).drop_last() =~= items@.take(i as int));
                        assert(items@.take(i + 1).last() == items@[i as int]);
                    }
                    i = i + 1;
                }
                proof {
                    assert(items@.take(items@.len() as int) =~= items@);
                }
                out
            },
            FieldExtra::Absent => desc.raw.clone(),
            FieldExtra::NonArray => desc.raw.clone(),
        },
    }
}

/// The handshake body:
/// `[0x00][varint protocol][varint address-length][address bytes][port, big-endian][0x01]`.
pub open spec fn handshake_body_spec(
    protocol_version: i32,
    address: Seq<u8>,
    port: u16,
) -> Seq<u8>
    recommends
        protocol_version >= 0,
{
    seq![0x00u8] + crate::varint::varint_encode_spec(protocol_version as u32)
        + crate::varint::varint_encode_spec(address.len() as u32) + address + seq![
        (port >> 8) as u8,
        (port & 0xFF) as u8,
        0x01u8,
    ]
}

/// The whole handshake packet: the body, length-prefixed with a varint
/// giving its byte length.
pub open spec fn handshake_packet_spec(
    protocol_version: i32,
    address: Seq<u8>,
    port: u16,
) -> Seq<u8>
    recommends
        protocol_version >= 0,
{
    crate::varint::varint_encode_spec(
        handshake_body_spec(protocol_version, address, port).len() as u32,
    ) + handshake_body_spec(protocol_version, address, port)
}

/// Build the length-prefixed handshake packet for `address:port`.
pub fn build_handshake_packet(protocol_version: i32, address: &str, port: u16) -> (r: Vec<u8>)
    requires
        protocol_version >= 0,
        address.spec_bytes().len() <= 0x7FFF_FF00,
    ensures
        r@ == handshake_packet_spec(protocol_version, address.spec_bytes(), port),
{
    let ip_bytes: &[u8] = address.as_bytes();
    let mut body: Vec<u8> = Vec::new();
    body.push(0x00);
    let mut pv = crate::varint::encode_varint(protocol_version);
    proof {
        crate::varint::lemma_encode_wf(protocol_version as u32);
    }
    body.append(&mut pv);
    let alen = ip_bytes.len();
    let mut alen_v = crate::varint::encode_varint(alen as i32);
    proof {
        crate::varint::lemma_encode_wf(alen as u32);
        assert((alen as i32) as u32 == alen as u32);
    }
    body.append(&mut alen_v);
    body.extend_from_slice(ip_bytes);
    body.push((port >> 8u16) as u8);
    body.push((port & 0xFF) as u8);
    body.push(0x01);
    proof {
        assert(body@ =~= handshake_body_spec(protocol_version, address.spec_bytes(), port));
    }
    let mut packet: Vec<u8> = Vec::new();
    let mut blen = crate::varint::encode_varint(body.len() as i32);
    proof {
        assert((body@.len() as i32) as u32 == body@.len() as u32);
    }
    packet.append(&mut blen);
    packet.append(&mut body);
    proof {
        assert(packet@ =~= handshake_packet_spec(
            protocol_version,
            address.spec_bytes(),
            port,
        ));
    }
    packet
}

/// The status-request packet: exactly the two bytes `[0x01, 0x00]`
/// (length 1, packet id 0, no payload).
pub fn status_request() -> (r: Vec<u8>)
    ensures
        r@ == seq![0x01u8, 0x00u8],
{
    let mut v: Vec<u8> = Vec::new();
    v.push(0x01);
    v.push(0x00);
    proof {
        assert(v@ =~= seq![0x01u8, 0x00u8]);
    }
    v
}

} // verus!
