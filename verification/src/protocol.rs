//! The wire format: a message, the envelope that says what kind it is, and the fixed frame
//! that carries one envelope.
//!
//! A message is laid out as its hop budget, the length of its origin's address text, that
//! text, a flag that says whether a payload follows, and the payload. An envelope puts one
//! octet in front that tells handshake, direct and broadcast messages apart; a ping is that
//! octet alone. A frame is an envelope padded with zeros to `BUFFER_SIZE` octets.

use crate::addr::{reads_back, socket_addr_parse, socket_addr_text, PeerAddr};
use crate::bytes::{
    append_bytes, is_trimmed, lemma_trim_zeros_of_padded, trim_zeros, trimmed_len, zeros,
};
use crate::text::{ends_without_nul, lemma_utf8_last_octet, text_from_bytes, text_of_bytes};
use vstd::prelude::*;
use vstd::slice::*;
use vstd::string::*;
use vstd::utf8::*;

verus! {

/// The size of a frame in octets.
pub const BUFFER_SIZE: usize = 1024;

/// Why bytes were not read as a message or an envelope.
#[derive(Clone, Copy, Debug, PartialEq, Eq, Structural)]
pub enum DecodeError {
    /// The bytes end before the fields that they announce.
    MalformedFrame,
    /// The text in the address field is not a socket address.
    MalformedAddress,
}

/// Why a message or an envelope was not written.
#[derive(Clone, Copy, Debug, PartialEq, Eq, Structural)]
pub enum EncodeError {
    /// The address text is longer than the one octet for its length can say.
    AddressTooLong,
    /// The envelope is longer than a frame.
    FrameTooLarge,
}

/// The fields of a message as the wire holds them: text as bytes.
#[derive(Debug)]
pub struct Fields {
    pub ttl: u8,
    pub addr_text: Vec<u8>,
    pub payload: Option<Vec<u8>>,
}

/// What `Fields` are to the contracts.
pub struct FieldsView {
    pub ttl: u8,
    pub addr_text: Seq<u8>,
    pub payload: Option<Seq<u8>>,
}

impl View for Fields {
    type V = FieldsView;

    open spec fn view(&self) -> FieldsView {
        FieldsView {
            ttl: self.ttl,
            addr_text: self.addr_text@,
            payload: match self.payload {
                None => None,
                Some(bytes) => Some(bytes@),
            },
        }
    }
}

/// The longest address text that the length octet can announce.
pub open spec fn max_addr_text() -> nat {
    255
}

/// The bytes of `fields`: hop budget, length of the address text, the text, the payload flag
/// and the payload.
pub open spec fn fields_to_bytes(fields: FieldsView) -> Seq<u8> {
    seq![fields.ttl, fields.addr_text.len() as u8] + fields.addr_text + match fields.payload {
        None => seq![0u8],
        Some(payload) => seq![1u8] + payload,
    }
}

/// The bytes that `fields` are written as, or why they are not written: the address text
/// is too long for its length octet.
pub open spec fn fields_encoded(fields: FieldsView) -> Result<Seq<u8>, EncodeError> {
    if fields.addr_text.len() > max_addr_text() {
        Err(EncodeError::AddressTooLong)
    } else {
        Ok(fields_to_bytes(fields))
    }
}

/// The fields that `bytes` hold. The payload runs to the end of the bytes, less the zeros
/// that pad them; any flag but zero announces one.
pub open spec fn fields_from_bytes(bytes: Seq<u8>) -> Result<FieldsView, DecodeError> {
    if bytes.len() < 2 || bytes.len() < 3 + bytes[1] {
        Err(DecodeError::MalformedFrame)
    } else {
        let flag_at = 2 + bytes[1];
        Ok(
            FieldsView {
                ttl: bytes[0],
                addr_text: bytes.subrange(2, flag_at),
                payload: if bytes[flag_at] == 0 {
                    None
                } else {
                    Some(trim_zeros(bytes.subrange(flag_at + 1, bytes.len() as int)))
                },
            },
        )
    }
}

/// The view of what is inside a result.
pub open spec fn result_view<T: View, E>(result: Result<T, E>) -> Result<T::V, E> {
    match result {
        Ok(value) => Ok(value@),
        Err(error) => Err(error),
    }
}

impl Fields {
    /// Lays the fields out as bytes, unless the address text is too long for its length octet.
    pub fn encode(&self) -> (result: Result<Vec<u8>, EncodeError>)
        ensures
            result_view(result) == fields_encoded(self@),
    {
        if self.addr_text.len() > 255 {
            return Err(EncodeError::AddressTooLong);
        }
        let mut bytes: Vec<u8> = Vec::new();
        bytes.push(self.ttl);
        bytes.push(self.addr_text.len() as u8);
        append_bytes(&mut bytes, self.addr_text.as_slice());
        match &self.payload {
            None => {
                bytes.push(0);
            },
            Some(payload) => {
                bytes.push(1);
                append_bytes(&mut bytes, payload.as_slice());
            },
        }
        proof {
            assert(bytes@ =~= fields_to_bytes(self@));
        }
        Ok(bytes)
    }

    /// Reads the fields of a message from `bytes`, which may be padded with zeros.
    pub fn decode(bytes: &[u8]) -> (result: Result<Fields, DecodeError>)
        ensures
            result_view(result) == fields_from_bytes(bytes@),
    {
        if bytes.len() < 2 {
            return Err(DecodeError::MalformedFrame);
        }
        let addr_len: usize = bytes[1] as usize;
        if bytes.len() < 3 + addr_len {
            return Err(DecodeError::MalformedFrame);
        }
        let flag_at: usize = 2 + addr_len;
        let addr_text = slice_to_vec(slice_subrange(bytes, 2, flag_at));
        let payload = if bytes[flag_at] == 0 {
            None
        } else {
            let rest = slice_subrange(bytes, flag_at + 1, bytes.len());
            let len = trimmed_len(rest);
            Some(slice_to_vec(slice_subrange(rest, 0, len)))
        };
        Ok(Fields { ttl: bytes[0], addr_text, payload })
    }
}

/// A message: how many more hops it may make, where it set out, and what it carries.
#[derive(Debug)]
pub struct Message {
    pub ttl: u8,
    pub from: PeerAddr,
    pub payload: Option<String>,
}

/// What a `Message` is to the contracts.
pub struct MessageView {
    pub ttl: u8,
    pub from: PeerAddr,
    pub payload: Option<Seq<char>>,
}

impl View for Message {
    type V = MessageView;

    open spec fn view(&self) -> MessageView {
        MessageView {
            ttl: self.ttl,
            from: self.from,
            payload: match self.payload {
                None => None,
                Some(text) => Some(text@),
            },
        }
    }
}

impl Clone for Message {
    fn clone(&self) -> (copy: Message)
        ensures
            copy@ == self@,
    {
        Message {
            ttl: self.ttl,
            from: self.from,
            payload: match &self.payload {
                None => None,
                Some(text) => Some(text.clone()),
            },
        }
    }
}

/// The fields of `message` as the wire holds them: the address as the text that
/// `socket_addr_text` names, both texts in UTF-8.
pub open spec fn message_fields(message: MessageView) -> FieldsView {
    FieldsView {
        ttl: message.ttl,
        addr_text: encode_utf8(socket_addr_text(message.from)),
        payload: match message.payload {
            None => None,
            Some(text) => Some(encode_utf8(text)),
        },
    }
}

/// The message that `fields` stand for: the address that `socket_addr_parse` reads from the
/// address text, if it reads one.
pub open spec fn fields_message(fields: FieldsView) -> Result<MessageView, DecodeError> {
    match socket_addr_parse(text_of_bytes(fields.addr_text)) {
        None => Err(DecodeError::MalformedAddress),
        Some(from) => Ok(
            MessageView {
                ttl: fields.ttl,
                from,
                payload: match fields.payload {
                    None => None,
                    Some(bytes) => Some(text_of_bytes(bytes)),
                },
            },
        ),
    }
}

/// The bytes of `message`.
pub open spec fn message_to_bytes(message: MessageView) -> Seq<u8> {
    fields_to_bytes(message_fields(message))
}

/// The bytes that `message` is written as, or why it is not written.
pub open spec fn message_encoded(message: MessageView) -> Result<Seq<u8>, EncodeError> {
    fields_encoded(message_fields(message))
}

/// The message that `bytes` hold.
pub open spec fn message_from_bytes(bytes: Seq<u8>) -> Result<MessageView, DecodeError> {
    match fields_from_bytes(bytes) {
        Err(error) => Err(error),
        Ok(fields) => fields_message(fields),
    }
}

/// Whether `message` comes through the wire unchanged: its address text fits the length
/// octet and is read back as the same address, and its payload, if it has one, does not end
/// in NUL, which the reader would take for padding.
pub open spec fn survives_wire(message: MessageView) -> bool {
    &&& message_fields(message).addr_text.len() <= max_addr_text()
    &&& reads_back(message.from)
    &&& message.payload matches Some(text) ==> ends_without_nul(text)
}

impl Message {
    pub fn new(ttl: u8, from: PeerAddr, payload: Option<String>) -> (message: Message)
        ensures
            message.ttl == ttl,
            message.from == from,
            message.payload == payload,
    {
        Message { from, ttl, payload }
    }

    /// The fields of the message as the wire holds them.
    pub fn to_fields(&self) -> (fields: Fields)
        ensures
            fields@ == message_fields(self@),
    {
        let text = self.from.to_text();
        let payload = match &self.payload {
            None => None,
            Some(text) => Some(text.as_str().as_bytes_vec()),
        };
        Fields { ttl: self.ttl, addr_text: text.as_str().as_bytes_vec(), payload }
    }

    /// Puts a message together from a hop budget, the outcome of reading the address text,
    /// and the payload text.
    pub fn assemble(ttl: u8, from: Option<PeerAddr>, payload: Option<String>) -> (result: Result<
        Message,
        DecodeError,
    >)
        ensures
            match result {
                Ok(message) => from == Some(message.from) && message.ttl == ttl && message.payload
                    == payload,
                Err(error) => from is None && error == DecodeError::MalformedAddress,
            },
    {
        match from {
            None => Err(DecodeError::MalformedAddress),
            Some(from) => Ok(Message { ttl, from, payload }),
        }
    }

    /// The message that `fields` stand for, unless the address text is no address.
    pub fn from_fields(fields: &Fields) -> (result: Result<Message, DecodeError>)
        ensures
            result_view(result) == fields_message(fields@),
    {
        let text = text_from_bytes(fields.addr_text.as_slice());
        let from = PeerAddr::from_text(text.as_str());
        let payload = match &fields.payload {
            None => None,
            Some(bytes) => Some(text_from_bytes(bytes.as_slice())),
        };
        Message::assemble(fields.ttl, from, payload)
    }

    /// Writes the message as bytes, unless its address text is too long for its length octet.
    pub fn encode(&self) -> (result: Result<Vec<u8>, EncodeError>)
        ensures
            result_view(result) == message_encoded(self@),
    {
        self.to_fields().encode()
    }

    /// Tells whether the message comes through the wire unchanged, by rendering its address,
    /// reading it back and looking at the end of its payload.
    pub fn survives_wire(&self) -> (survives: bool)
        ensures
            survives == survives_wire(self@),
    {
        let text = self.from.to_text();
        let fits = text.as_str().as_bytes().len() <= 255;
        let same = match PeerAddr::from_text(text.as_str()) {
            Some(addr) => addr == self.from,
            None => false,
        };
        let whole = match &self.payload {
            None => true,
            Some(payload) => {
                let bytes = payload.as_str().as_bytes();
                proof {
                    if payload@.len() > 0 {
                        lemma_utf8_last_octet(payload@);
                    }
                }
                bytes.len() == 0 || bytes[bytes.len() - 1] != 0
            },
        };
        fits && same && whole
    }

    /// Reads a message from `bytes`, which may be padded with zeros.
    pub fn decode(bytes: &[u8]) -> (result: Result<Message, DecodeError>)
        ensures
            result_view(result) == message_from_bytes(bytes@),
    {
        match Fields::decode(bytes) {
            Err(error) => Err(error),
            Ok(fields) => Message::from_fields(&fields),
        }
    }
}

/// An envelope: a message of one of three kinds, or a ping, which carries nothing.
#[derive(Debug)]
pub enum MessageKind {
    Handshake(Message),
    Direct(Message),
    Broadcast(Message),
    Ping,
}

/// What a `MessageKind` is to the contracts.
pub enum MessageKindView {
    Handshake(MessageView),
    Direct(MessageView),
    Broadcast(MessageView),
    Ping,
}

impl View for MessageKind {
    type V = MessageKindView;

    open spec fn view(&self) -> MessageKindView {
        match self {
            MessageKind::Handshake(message) => MessageKindView::Handshake(message@),
            MessageKind::Direct(message) => MessageKindView::Direct(message@),
            MessageKind::Broadcast(message) => MessageKindView::Broadcast(message@),
            MessageKind::Ping => MessageKindView::Ping,
        }
    }
}

impl Clone for MessageKind {
    fn clone(&self) -> (copy: MessageKind)
        ensures
            copy@ == self@,
    {
        match self {
            MessageKind::Handshake(message) => MessageKind::Handshake(message.clone()),
            MessageKind::Direct(message) => MessageKind::Direct(message.clone()),
            MessageKind::Broadcast(message) => MessageKind::Broadcast(message.clone()),
            MessageKind::Ping => MessageKind::Ping,
        }
    }
}

impl MessageKindView {
    /// The message inside the envelope, if it has one.
    pub open spec fn message(self) -> Option<MessageView> {
        match self {
            MessageKindView::Handshake(message) => Some(message),
            MessageKindView::Direct(message) => Some(message),
            MessageKindView::Broadcast(message) => Some(message),
            MessageKindView::Ping => None,
        }
    }

    /// The octet that announces the kind.
    pub open spec fn tag(self) -> u8 {
        match self {
            MessageKindView::Handshake(_) => 0,
            MessageKindView::Direct(_) => 1,
            MessageKindView::Broadcast(_) => 2,
            MessageKindView::Ping => 255,
        }
    }
}

/// The bytes of the envelope `kind`: its tag, and behind it the message where it has one.
pub open spec fn kind_to_bytes(kind: MessageKindView) -> Seq<u8> {
    match kind.message() {
        Some(message) => seq![kind.tag()] + message_to_bytes(message),
        None => seq![kind.tag()],
    }
}

/// The bytes that `kind` is written as, or why it is not written.
pub open spec fn kind_encoded(kind: MessageKindView) -> Result<Seq<u8>, EncodeError> {
    match kind.message() {
        None => Ok(kind_to_bytes(kind)),
        Some(message) => match message_encoded(message) {
            Err(error) => Err(error),
            Ok(_) => Ok(kind_to_bytes(kind)),
        },
    }
}

/// The frame that holds `kind`, or why there is none: the address text does not fit its
/// length octet, or the envelope does not fit the frame.
pub open spec fn kind_to_frame(kind: MessageKindView) -> Result<Seq<u8>, EncodeError> {
    match kind_encoded(kind) {
        Err(error) => Err(error),
        Ok(bytes) => if bytes.len() > BUFFER_SIZE {
            Err(EncodeError::FrameTooLarge)
        } else {
            Ok(frame_of(bytes))
        },
    }
}

/// The envelope that `bytes` hold. A tag that names no kind of message makes a ping.
pub open spec fn kind_from_bytes(bytes: Seq<u8>) -> Result<MessageKindView, DecodeError> {
    if bytes.len() == 0 {
        Err(DecodeError::MalformedFrame)
    } else if bytes[0] > 2 {
        Ok(MessageKindView::Ping)
    } else {
        match message_from_bytes(bytes.subrange(1, bytes.len() as int)) {
            Err(error) => Err(error),
            Ok(message) => Ok(
                if bytes[0] == 0 {
                    MessageKindView::Handshake(message)
                } else if bytes[0] == 1 {
                    MessageKindView::Direct(message)
                } else {
                    MessageKindView::Broadcast(message)
                },
            ),
        }
    }
}

/// `bytes` padded with zeros to the size of a frame.
pub open spec fn frame_of(bytes: Seq<u8>) -> Seq<u8>
    recommends
        bytes.len() <= BUFFER_SIZE,
{
    bytes + zeros((BUFFER_SIZE - bytes.len()) as nat)
}

/// Pads `bytes`, which are no longer than a frame, with zeros to a frame.
pub fn fill_frame(bytes: &[u8]) -> (frame: [u8; BUFFER_SIZE])
    requires
        bytes@.len() <= BUFFER_SIZE,
    ensures
        frame@ == frame_of(bytes@),
{
    let mut frame = [0u8; BUFFER_SIZE];
    let mut i: usize = 0;
    while i < bytes.len()
        invariant
            i <= bytes@.len() <= BUFFER_SIZE,
            frame@.len() == BUFFER_SIZE,
            forall|j: int| 0 <= j < i ==> frame@[j] == bytes@[j],
            forall|j: int| i <= j < BUFFER_SIZE ==> frame@[j] == 0,
        decreases bytes@.len() - i,
    {
        frame[i] = bytes[i];
        i += 1;
    }
    proof {
        assert(frame@ =~= frame_of(bytes@));
    }
    frame
}

/// Pads `bytes` with zeros to a frame, unless they are longer than one.
pub fn pad_frame(bytes: &[u8]) -> (result: Result<[u8; BUFFER_SIZE], EncodeError>)
    ensures
        match result {
            Ok(frame) => bytes@.len() <= BUFFER_SIZE && frame@ == frame_of(bytes@),
            Err(error) => bytes@.len() > BUFFER_SIZE && error == EncodeError::FrameTooLarge,
        },
{
    if bytes.len() > BUFFER_SIZE {
        Err(EncodeError::FrameTooLarge)
    } else {
        Ok(fill_frame(bytes))
    }
}

impl MessageKind {
    /// Writes the envelope as bytes, unless the address text of its message is too long.
    pub fn encode(&self) -> (result: Result<Vec<u8>, EncodeError>)
        ensures
            result_view(result) == kind_encoded(self@),
    {
        let (tag, body): (u8, Option<&Message>) = match self {
            MessageKind::Handshake(message) => (0, Some(message)),
            MessageKind::Direct(message) => (1, Some(message)),
            MessageKind::Broadcast(message) => (2, Some(message)),
            MessageKind::Ping => (255, None),
        };
        let mut bytes: Vec<u8> = Vec::new();
        bytes.push(tag);
        match body {
            None => {},
            Some(message) => {
                match message.encode() {
                    Err(error) => {
                        return Err(error);
                    },
                    Ok(encoded) => {
                        append_bytes(&mut bytes, encoded.as_slice());
                    },
                }
            },
        }
        Ok(bytes)
    }

    /// Reads an envelope from `bytes`, which may be padded with zeros.
    pub fn decode(bytes: &[u8]) -> (result: Result<MessageKind, DecodeError>)
        ensures
            result_view(result) == kind_from_bytes(bytes@),
    {
        if bytes.len() == 0 {
            return Err(DecodeError::MalformedFrame);
        }
        let tag = bytes[0];
        if tag > 2 {
            return Ok(MessageKind::Ping);
        }
        match Message::decode(slice_subrange(bytes, 1, bytes.len())) {
            Err(error) => Err(error),
            Ok(message) => Ok(
                if tag == 0 {
                    MessageKind::Handshake(message)
                } else if tag == 1 {
                    MessageKind::Direct(message)
                } else {
                    MessageKind::Broadcast(message)
                },
            ),
        }
    }

    /// Writes the envelope into a frame. An envelope that does not fit is refused, so that
    /// nothing of it is ever sent.
    pub fn to_frame(&self) -> (result: Result<[u8; BUFFER_SIZE], EncodeError>)
        ensures
            result_view(result) == kind_to_frame(self@),
    {
        match self.encode() {
            Err(error) => Err(error),
            Ok(bytes) => pad_frame(bytes.as_slice()),
        }
    }

    /// Reads the envelope that `frame` holds.
    pub fn from_frame(frame: &[u8; BUFFER_SIZE]) -> (result: Result<MessageKind, DecodeError>)
        ensures
            result_view(result) == kind_from_bytes(frame@),
    {
        MessageKind::decode(frame.as_slice())
    }
}

/// Fields that are written and read again, with any zero padding behind them, come back as
/// they were, if the address text fits its length octet and the payload ends in no zero.
pub proof fn lemma_fields_round_trip(fields: FieldsView, padding: nat)
    requires
        fields.addr_text.len() <= max_addr_text(),
        fields.payload matches Some(payload) ==> is_trimmed(payload),
    ensures
        fields_from_bytes(fields_to_bytes(fields) + zeros(padding)) == Ok::<
            FieldsView,
            DecodeError,
        >(fields),
{
    let bytes = fields_to_bytes(fields) + zeros(padding);
    let flag_at = 2 + fields.addr_text.len() as int;
    assert(bytes[1] == fields.addr_text.len());
    assert(bytes.subrange(2, flag_at) =~= fields.addr_text);
    match fields.payload {
        None => {
            assert(bytes[flag_at] == 0);
        },
        Some(payload) => {
            assert(bytes[flag_at] == 1);
            assert(bytes.subrange(flag_at + 1, bytes.len() as int) =~= payload + zeros(padding));
            lemma_trim_zeros_of_padded(payload, padding);
        },
    }
}

/// A message that is written and read again, with any zero padding behind it, comes back as
/// it was, if it is one that survives the wire.
pub proof fn lemma_message_round_trip(message: MessageView, padding: nat)
    requires
        survives_wire(message),
    ensures
        message_encoded(message) == Ok::<Seq<u8>, EncodeError>(message_to_bytes(message)),
        message_from_bytes(message_to_bytes(message) + zeros(padding)) == Ok::<
            MessageView,
            DecodeError,
        >(message),
{
    let fields = message_fields(message);
    match message.payload {
        None => {},
        Some(text) => {
            if text.len() > 0 {
                lemma_utf8_last_octet(text);
            }
            encode_utf8_valid_utf8(text);
            encode_utf8_decode_utf8(text);
        },
    }
    lemma_fields_round_trip(fields, padding);
    encode_utf8_valid_utf8(socket_addr_text(message.from));
    encode_utf8_decode_utf8(socket_addr_text(message.from));
}

/// An envelope that is written and read again, with any zero padding behind it, comes back
/// as it was, if the message in it survives the wire. A ping always does.
pub proof fn lemma_envelope_round_trip(kind: MessageKindView, padding: nat)
    requires
        kind.message() matches Some(message) ==> survives_wire(message),
    ensures
        kind_encoded(kind) == Ok::<Seq<u8>, EncodeError>(kind_to_bytes(kind)),
        kind_from_bytes(kind_to_bytes(kind) + zeros(padding)) == Ok::<
            MessageKindView,
            DecodeError,
        >(kind),
{
    let bytes = kind_to_bytes(kind) + zeros(padding);
    match kind.message() {
        None => {},
        Some(message) => {
            lemma_message_round_trip(message, padding);
            assert(bytes.subrange(1, bytes.len() as int) =~= message_to_bytes(message) + zeros(
                padding,
            ));
        },
    }
}

/// An envelope that has a frame is read from its frame as it was written, if the message in
/// it survives the wire.
pub proof fn lemma_frame_round_trip(kind: MessageKindView)
    requires
        kind.message() matches Some(message) ==> survives_wire(message),
        kind_to_frame(kind) is Ok,
    ensures
        kind_from_bytes(kind_to_frame(kind)->Ok_0) == Ok::<MessageKindView, DecodeError>(kind),
{
    lemma_envelope_round_trip(kind, (BUFFER_SIZE - kind_to_bytes(kind).len()) as nat);
}

/// An envelope that is longer than a frame has no frame: nothing of it can be sent.
pub proof fn lemma_oversized_has_no_frame(kind: MessageKindView)
    requires
        kind_to_bytes(kind).len() > BUFFER_SIZE,
    ensures
        kind_to_frame(kind) is Err,
{
}

/// Bytes that are shorter than the hop budget and the length octet hold no message, and no
/// bytes hold no envelope.
pub proof fn lemma_short_is_malformed(bytes: Seq<u8>)
    ensures
        bytes.len() < 2 ==> message_from_bytes(bytes) == Err::<MessageView, DecodeError>(
            DecodeError::MalformedFrame,
        ),
        bytes.len() == 0 ==> kind_from_bytes(bytes) == Err::<MessageKindView, DecodeError>(
            DecodeError::MalformedFrame,
        ),
        bytes.len() > 0 && bytes[0] <= 2 && bytes.len() < 3 ==> kind_from_bytes(bytes) == Err::<
            MessageKindView,
            DecodeError,
        >(DecodeError::MalformedFrame),
{
}

/// What a protocol asks its node to do about an envelope that has arrived.
#[derive(Debug)]
pub enum Reaction {
    /// Write this line to the log.
    Log(String),
    /// Connect to the peer at this address, unless it is known already.
    Connect(PeerAddr),
    /// Send this message as a broadcast to every known peer but the one it set out from.
    Broadcast(Message),
}

/// What a `Reaction` is to the contracts.
pub enum ReactionView {
    Log(Seq<char>),
    Connect(PeerAddr),
    Broadcast(MessageView),
}

impl View for Reaction {
    type V = ReactionView;

    open spec fn view(&self) -> ReactionView {
        match self {
            Reaction::Log(line) => ReactionView::Log(line@),
            Reaction::Connect(addr) => ReactionView::Connect(*addr),
            Reaction::Broadcast(message) => ReactionView::Broadcast(message@),
        }
    }
}

/// The view of each of `reactions`, in order.
pub open spec fn reaction_views(reactions: Seq<Reaction>) -> Seq<ReactionView> {
    reactions.map_values(|reaction: Reaction| reaction@)
}

/// A behaviour that a node runs over its links: it is shown every envelope that arrives and
/// answers with what the node is to do about it.
///
/// The trait is there to be implemented, also by code that is not verified. Such a protocol
/// leaves `known_reaction` as it is, and nothing is claimed of what it answers. A protocol
/// that says what it answers is held to it.
pub trait Protocol: Send + Sync {
    /// What the protocol is known to answer when `kind` arrives; `None` where nothing is
    /// known of it.
    open spec fn known_reaction(&self, kind: MessageKindView) -> Option<Seq<ReactionView>> {
        None
    }

    fn handle_message(&self, kind: &MessageKind) -> (reactions: Vec<Reaction>)
        ensures
            self.known_reaction(kind@) matches Some(views) ==> reaction_views(reactions@) == views,
    ;
}

} // verus!
