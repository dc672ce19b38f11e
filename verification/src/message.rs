//! The binary message format: the source address as octets, then the payload.
//!
//! A buffer of `BUFFER_SIZE` octets holds the family of the address (4 or 6), the octets of
//! the IP address and the port, both in network order, and the payload text in UTF-8. A
//! payload that is longer than the room that the layout leaves is cut; what the payload
//! does not fill is zero.

use crate::addr::{socket_addr_text, PeerAddr};
use crate::bytes::{
    append_bytes, be_octets, be_value, from_be_octets, lemma_be_octets_len,
    lemma_be_value_bound, lemma_be_value_of_octets, octet_span, to_be_octets, zeros,
};
use crate::protocol::{fill_frame, frame_of, DecodeError, BUFFER_SIZE};
use crate::text::{text_from_bytes, text_of_bytes};
use vstd::prelude::*;
use vstd::slice::*;
use vstd::string::*;
use vstd::utf8::*;

verus! {

/// A message that names its source and carries a text.
#[derive(Debug)]
pub struct Message {
    pub source: PeerAddr,
    pub payload: String,
}

/// What a `Message` is to the contracts.
pub struct MessageView {
    pub source: PeerAddr,
    pub payload: Seq<char>,
}

impl View for Message {
    type V = MessageView;

    open spec fn view(&self) -> MessageView {
        MessageView { source: self.source, payload: self.payload@ }
    }
}

impl Clone for Message {
    fn clone(&self) -> (copy: Message)
        ensures
            copy@ == self@,
    {
        Message { source: self.source, payload: self.payload.clone() }
    }
}

/// The octets in front of the payload: the family, the IP address and the port.
pub open spec fn header(source: PeerAddr) -> Seq<u8> {
    seq![source.family()] + source.ip_octets() + be_octets(source.spec_port() as nat, 2)
}

/// The length of the header: 7 octets for IPv4, 19 for IPv6.
pub open spec fn header_len(source: PeerAddr) -> nat {
    match source {
        PeerAddr::V4 { .. } => 7,
        PeerAddr::V6 { .. } => 19,
    }
}

/// The number of payload octets that are kept behind the header of `source`.
pub open spec fn payload_room(source: PeerAddr) -> nat {
    (1004 - header_len(source)) as nat
}

/// The octets of `payload` that are written: all of them, or as many as there is room for.
pub open spec fn kept_payload(source: PeerAddr, payload: Seq<u8>) -> Seq<u8> {
    if payload.len() <= payload_room(source) {
        payload
    } else {
        payload.subrange(0, payload_room(source) as int)
    }
}

/// The buffer that holds `message`.
pub open spec fn message_to_buffer(message: MessageView) -> Seq<u8> {
    frame_of(header(message.source) + kept_payload(message.source, encode_utf8(message.payload)))
}

/// The message that `buffer` holds. Its payload is all that follows the header, the zeros at
/// the end included. A family other than 4 and 6 makes the buffer malformed.
pub open spec fn message_from_buffer(buffer: Seq<u8>) -> Result<MessageView, DecodeError>
    recommends
        buffer.len() == BUFFER_SIZE,
{
    if buffer[0] == 4 {
        Ok(
            MessageView {
                source: PeerAddr::V4 {
                    ip: be_value(buffer.subrange(1, 5)) as u32,
                    port: be_value(buffer.subrange(5, 7)) as u16,
                },
                payload: text_of_bytes(buffer.subrange(7, buffer.len() as int)),
            },
        )
    } else if buffer[0] == 6 {
        Ok(
            MessageView {
                source: PeerAddr::V6 {
                    ip: be_value(buffer.subrange(1, 17)) as u128,
                    port: be_value(buffer.subrange(17, 19)) as u16,
                    flowinfo: 0,
                    scope_id: 0,
                },
                payload: text_of_bytes(buffer.subrange(19, buffer.len() as int)),
            },
        )
    } else {
        Err(DecodeError::MalformedFrame)
    }
}

/// The text that shows `message`.
pub open spec fn message_text(message: MessageView) -> Seq<char> {
    "Message("@ + socket_addr_text(message.source) + " | "@ + message.payload + ")"@
}

impl Message {
    pub fn new(source: PeerAddr, payload: String) -> (message: Message)
        ensures
            message.source == source,
            message.payload == payload,
    {
        Message { source, payload }
    }

    /// Writes the message into a buffer.
    pub fn to_buffer(&self) -> (buffer: [u8; BUFFER_SIZE])
        ensures
            buffer@ == message_to_buffer(self@),
    {
        let (family, port, room): (u8, u16, usize) = match self.source {
            PeerAddr::V4 { port, .. } => (4, port, 997),
            PeerAddr::V6 { port, .. } => (6, port, 985),
        };
        let mut bytes: Vec<u8> = Vec::new();
        bytes.push(family);
        let octets = self.source.octets();
        append_bytes(&mut bytes, octets.as_slice());
        let port_octets = to_be_octets(port as u128, 2);
        append_bytes(&mut bytes, port_octets.as_slice());
        proof {
            lemma_be_octets_len(port as nat, 2);
            match self.source {
                PeerAddr::V4 { ip, .. } => lemma_be_octets_len(ip as nat, 4),
                PeerAddr::V6 { ip, .. } => lemma_be_octets_len(ip as nat, 16),
            }
            assert(bytes@ =~= header(self.source));
        }
        let payload = self.payload.as_str().as_bytes();
        let kept = if payload.len() <= room {
            payload
        } else {
            slice_subrange(payload, 0, room)
        };
        append_bytes(&mut bytes, kept);
        fill_frame(bytes.as_slice())
    }

    /// Reads the message that `buffer` holds, unless the family of its address is unknown.
    pub fn from_buffer(buffer: &[u8; BUFFER_SIZE]) -> (result: Result<Message, DecodeError>)
        ensures
            crate::protocol::result_view(result) == message_from_buffer(buffer@),
    {
        let bytes = buffer.as_slice();
        let family = bytes[0];
        if family != 4 && family != 6 {
            return Err(DecodeError::MalformedFrame);
        }
        let port_at: usize = if family == 4 {
            5
        } else {
            17
        };
        let source = PeerAddr::from_octets(slice_subrange(bytes, 1, port_at), 0);
        let port_octets = slice_subrange(bytes, port_at, port_at + 2);
        proof {
            lemma_be_value_bound(port_octets@);
            reveal_with_fuel(octet_span, 3);
        }
        let port = from_be_octets(port_octets) as u16;
        let payload = text_from_bytes(slice_subrange(bytes, port_at + 2, bytes.len()));
        match source {
            Some(PeerAddr::V4 { ip, .. }) => Ok(
                Message { source: PeerAddr::V4 { ip, port }, payload },
            ),
            Some(PeerAddr::V6 { ip, flowinfo, scope_id, .. }) => Ok(
                Message { source: PeerAddr::V6 { ip, port, flowinfo, scope_id }, payload },
            ),
            None => Err(DecodeError::MalformedFrame),
        }
    }

    /// The text that shows the message.
    pub fn to_text(&self) -> (text: String)
        ensures
            text@ == message_text(self@),
    {
        let mut text = String::from_str("Message(");
        text.append(self.source.to_text().as_str());
        text.append(" | ");
        text.append(self.payload.as_str());
        text.append(")");
        text
    }
}

/// A message that is written into a buffer and read again keeps its source, but for the
/// flow information and the scope of an IPv6 address, which the buffer has no room for.
pub proof fn lemma_buffer_keeps_source(message: MessageView)
    requires
        message.source matches PeerAddr::V6 { flowinfo, scope_id, .. } ==> flowinfo == 0
            && scope_id == 0,
    ensures
        message_from_buffer(message_to_buffer(message)) matches Ok(read) && read.source
            == message.source,
{
    let source = message.source;
    let buffer = message_to_buffer(message);
    let port = source.spec_port();
    lemma_be_octets_len(port as nat, 2);
    reveal_with_fuel(octet_span, 17);
    lemma_be_value_of_octets(port as nat, 2);
    match source {
        PeerAddr::V4 { ip, .. } => {
            lemma_be_octets_len(ip as nat, 4);
            lemma_be_value_of_octets(ip as nat, 4);
            assert(buffer.subrange(1, 5) =~= be_octets(ip as nat, 4));
            assert(buffer.subrange(5, 7) =~= be_octets(port as nat, 2));
        },
        PeerAddr::V6 { ip, .. } => {
            lemma_be_octets_len(ip as nat, 16);
            lemma_be_value_of_octets(ip as nat, 16);
            assert(buffer.subrange(1, 17) =~= be_octets(ip as nat, 16));
            assert(buffer.subrange(17, 19) =~= be_octets(port as nat, 2));
        },
    }
}

} // verus!
