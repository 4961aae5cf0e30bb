//! Decoding of whole packets: the 8-byte frame header, the kinds of
//! payload, and the data packet with its list of components.

use vstd::prelude::*;
use vstd::slice::{slice_subrange, slice_to_vec};
use vstd::utf8::{decode_utf8, valid_utf8};

use crate::components::{decodes, parse_component, spec_component_data, whole};
use crate::error::QtmError;
use crate::packet::{Component, ComponentModel, DataPacket, DataPacketModel, Packet, PacketHeader, PacketModel};
use crate::protocol::{Event, PacketType};
use crate::records::{read_list, WireRecord};
use crate::wire::{fits, le_u32, le_u64, reads, repeat, Cursor, Read};

verus! {

/// A component inside a data packet: its size (which counts the 8 bytes of
/// size and id), its id, and a payload of `size - 8` bytes decoded by id.
pub open spec fn rd_component(s: Seq<u8>, o: int) -> Read<ComponentModel> {
    if !fits(s, o, 8) || le_u32(s, o) < 8 || !fits(s, o + 8, le_u32(s, o) - 8) {
        None
    } else {
        let size = le_u32(s, o) as int;
        let id = le_u32(s, o + 4);
        match spec_component_data(id, s.subrange(o + 8, o + size)) {
            Some(data) => Some((ComponentModel { id, data }, o + size)),
            None => None,
        }
    }
}

impl WireRecord for Component {
    open spec fn record() -> spec_fn(Seq<u8>, int) -> Read<ComponentModel> {
        |s: Seq<u8>, o: int| rd_component(s, o)
    }

    fn read_record(c: &mut Cursor) -> (r: Result<Component, QtmError>) {
        let component_size = c.read_u32()?;
        let component_id = c.read_u32()?;
        if component_size < 8 {
            return Err(QtmError::invalid_packet("component size is shorter than header"));
        }
        let payload_len = (component_size - 8) as usize;
        let component_payload = c.take(payload_len)?;
        let data = parse_component(component_id, component_payload)?;
        Ok(Component { id: component_id, data })
    }
}

/// A data packet payload: timestamp, frame number, component count and the
/// components, filling the payload exactly.
pub open spec fn spec_data_packet(s: Seq<u8>) -> Option<DataPacketModel> {
    if !fits(s, 0, 16) {
        None
    } else {
        match whole(repeat(s, 16, le_u32(s, 12) as nat, Component::record()), s) {
            Some(components) => Some(
                DataPacketModel { timestamp: le_u64(s, 0), frame_number: le_u32(s, 8), components },
            ),
            None => None,
        }
    }
}

/// Decodes the payload of a data packet.
pub fn parse_data_packet(payload: &[u8]) -> (r: Result<DataPacket, QtmError>)
    ensures
        decodes(spec_data_packet(payload@), r),
{
    let mut cursor = Cursor::new(payload);
    let timestamp = cursor.read_u64()?;
    let frame_number = cursor.read_u32()?;
    let component_count = cursor.read_u32()?;
    let components = read_list::<Component>(&mut cursor, crate::wire::to_usize(component_count))?;
    cursor.expect_exhausted("data packet")?;
    Ok(DataPacket { timestamp, frame_number, components })
}

/// The text bytes of a payload: one trailing NUL, if there is one, is not
/// part of the text.
pub open spec fn strip_nul(p: Seq<u8>) -> Seq<u8> {
    if p.len() > 0 && p.last() == 0 {
        p.drop_last()
    } else {
        p
    }
}

/// `String::from_utf8`: the bytes as a string when they are valid UTF-8,
/// the error otherwise. The contract states that success comes exactly
/// with valid UTF-8 and that the string's characters are the decoding of
/// the bytes.
#[verifier::external_body]
fn string_from_utf8(bytes: Vec<u8>) -> (r: Result<String, std::string::FromUtf8Error>)
    ensures
        r is Ok <==> valid_utf8(bytes@),
        r matches Ok(s) ==> s@ == decode_utf8(bytes@),
{
    String::from_utf8(bytes)
}

/// Decodes a text payload (error, command and XML packets).
pub fn parse_string_payload(payload: &[u8]) -> (r: Result<String, QtmError>)
    ensures
        r is Ok <==> valid_utf8(strip_nul(payload@)),
        r matches Ok(s) ==> s@ == decode_utf8(strip_nul(payload@)),
        r matches Err(e) ==> e is Utf8,
{
    let n = payload.len();
    let text = if n > 0 && payload[n - 1] == 0 {
        slice_subrange(payload, 0, n - 1)
    } else {
        payload
    };
    assert(text@ =~= strip_nul(payload@));
    match string_from_utf8(slice_to_vec(text)) {
        Ok(s) => Ok(s),
        Err(e) => Err(QtmError::Utf8(e)),
    }
}

/// How decoding a packet can fail.
pub enum DecodeFailure {
    /// `QtmError::InvalidPacket`.
    Invalid,
    /// `QtmError::Utf8`.
    Utf8,
    /// `QtmError::UnsupportedEvent` with the event byte.
    UnsupportedEvent(u8),
    /// `QtmError::UnsupportedPacketType` with the type number.
    UnsupportedPacketType(u32),
}

/// The failure an error stands for (`Invalid` for any other error).
pub open spec fn failure_of(e: QtmError) -> DecodeFailure {
    match e {
        QtmError::Utf8(_) => DecodeFailure::Utf8,
        QtmError::UnsupportedEvent(b) => DecodeFailure::UnsupportedEvent(b),
        QtmError::UnsupportedPacketType(v) => DecodeFailure::UnsupportedPacketType(v),
        _ => DecodeFailure::Invalid,
    }
}

/// The model of a decoding outcome.
pub open spec fn outcome(r: Result<Packet, QtmError>) -> Result<PacketModel, DecodeFailure> {
    match r {
        Ok(p) => Ok(p@),
        Err(e) => Err(failure_of(e)),
    }
}

/// Whether an error is exactly the failure named (only `InvalidPacket`
/// stands for `Invalid`).
pub open spec fn is_failure(e: QtmError, f: DecodeFailure) -> bool {
    failure_of(e) == f && (f is Invalid ==> e is InvalidPacket)
}

/// Whether an exec outcome is the expected one.
pub open spec fn decodes_packet(
    expected: Result<PacketModel, DecodeFailure>,
    r: Result<Packet, QtmError>,
) -> bool {
    match r {
        Ok(p) => expected == Ok::<PacketModel, DecodeFailure>(p@),
        Err(e) => expected matches Err(f) && is_failure(e, f),
    }
}

/// A text payload as the model of a text packet.
pub open spec fn spec_text(p: Seq<u8>) -> Result<Seq<char>, DecodeFailure> {
    if valid_utf8(strip_nul(p)) {
        Ok(decode_utf8(strip_nul(p)))
    } else {
        Err(DecodeFailure::Utf8)
    }
}

/// What a payload of the given kind decodes as.
pub open spec fn spec_decode_packet(t: PacketType, p: Seq<u8>) -> Result<PacketModel, DecodeFailure> {
    match t {
        PacketType::Error => match spec_text(p) {
            Ok(s) => Ok(PacketModel::Error(s)),
            Err(f) => Err(f),
        },
        PacketType::Command => match spec_text(p) {
            Ok(s) => Ok(PacketModel::Command(s)),
            Err(f) => Err(f),
        },
        PacketType::Xml => match spec_text(p) {
            Ok(s) => Ok(PacketModel::Xml(s)),
            Err(f) => Err(f),
        },
        PacketType::Data => match spec_data_packet(p) {
            Some(d) => Ok(PacketModel::Data(d)),
            None => Err(DecodeFailure::Invalid),
        },
        PacketType::NoMoreData => Ok(PacketModel::NoMoreData),
        PacketType::Event => if p.len() == 0 {
            Err(DecodeFailure::Invalid)
        } else {
            match Event::spec_from_value(p[0]) {
                Some(e) => Ok(PacketModel::Event(e)),
                None => Err(DecodeFailure::UnsupportedEvent(p[0])),
            }
        },
        _ => Ok(PacketModel::Binary { packet_type: t, payload: p }),
    }
}

/// Decodes the payload of a packet of the given kind.
pub fn decode_packet(packet_type: PacketType, payload: &[u8]) -> (r: Result<Packet, QtmError>)
    ensures
        decodes_packet(spec_decode_packet(packet_type, payload@), r),
{
    match packet_type {
        PacketType::Error => Ok(Packet::Error(parse_string_payload(payload)?)),
        PacketType::Command => Ok(Packet::Command(parse_string_payload(payload)?)),
        PacketType::Xml => Ok(Packet::Xml(parse_string_payload(payload)?)),
        PacketType::Data => Ok(Packet::Data(parse_data_packet(payload)?)),
        PacketType::NoMoreData => Ok(Packet::NoMoreData),
        PacketType::Event => {
            if payload.len() == 0 {
                return Err(QtmError::invalid_packet("event packet payload is empty"));
            }
            let event_byte = payload[0];
            match Event::try_from_u8(event_byte) {
                Ok(event) => Ok(Packet::Event(event)),
                Err(value) => Err(QtmError::UnsupportedEvent(value)),
            }
        },
        other => Ok(Packet::Binary { packet_type: other, payload: slice_to_vec(payload) }),
    }
}

/// `n` bytes at `offset`, when they lie inside the buffer.
fn read_fixed(bytes: &[u8], offset: usize, n: usize) -> (r: Result<&[u8], QtmError>)
    ensures
        match r {
            Ok(b) => offset + n <= bytes@.len() && b@ == bytes@.subrange(
                offset as int,
                offset + n,
            ),
            Err(e) => offset + n > bytes@.len() && e is InvalidPacket,
        },
{
    if offset > bytes.len() || n > bytes.len() - offset {
        return Err(QtmError::invalid_packet("buffer too short"));
    }
    Ok(slice_subrange(bytes, offset, offset + n))
}

/// What a header reads as: too short, an unknown type number, or the
/// size and kind.
pub open spec fn spec_packet_header(b: Seq<u8>) -> Result<(u32, PacketType), DecodeFailure> {
    if b.len() < 8 {
        Err(DecodeFailure::Invalid)
    } else {
        match PacketType::spec_from_value(le_u32(b, 4)) {
            Some(t) => Ok((le_u32(b, 0), t)),
            None => Err(DecodeFailure::UnsupportedPacketType(le_u32(b, 4))),
        }
    }
}

/// Decodes the 8-byte packet header at the start of `bytes`.
pub fn parse_packet_header(bytes: &[u8]) -> (r: Result<PacketHeader, QtmError>)
    ensures
        match r {
            Ok(h) => spec_packet_header(bytes@) == Ok::<(u32, PacketType), DecodeFailure>(
                (h.size, h.packet_type),
            ),
            Err(e) => spec_packet_header(bytes@) matches Err(f) && is_failure(e, f),
        },
{
    let size_bytes = read_fixed(bytes, 0, 4)?;
    let size = vstd::bytes::u32_from_le_bytes(size_bytes);
    let type_bytes = read_fixed(bytes, 4, 4)?;
    let packet_type_raw = vstd::bytes::u32_from_le_bytes(type_bytes);
    match PacketType::try_from_u32(packet_type_raw) {
        Ok(packet_type) => Ok(PacketHeader { size, packet_type }),
        Err(value) => Err(QtmError::UnsupportedPacketType(value)),
    }
}

/// What a whole framed packet decodes as: the header must be there, name a
/// known kind and give the buffer's exact length; the rest is the payload.
pub open spec fn spec_framed_packet(b: Seq<u8>) -> Result<PacketModel, DecodeFailure> {
    match spec_packet_header(b) {
        Err(f) => Err(f),
        Ok((size, t)) => if size != b.len() {
            Err(DecodeFailure::Invalid)
        } else {
            spec_decode_packet(t, b.subrange(8, b.len() as int))
        },
    }
}

/// Decodes one whole packet, header included.
pub fn parse_framed_packet(bytes: &[u8]) -> (r: Result<Packet, QtmError>)
    ensures
        decodes_packet(spec_framed_packet(bytes@), r),
{
    if bytes.len() < 8 {
        return Err(QtmError::invalid_packet("packet is shorter than 8-byte header"));
    }
    proof {
        let h = bytes@.subrange(0, 8);
        assert(h.subrange(0, 4) =~= bytes@.subrange(0, 4));
        assert(h.subrange(4, 8) =~= bytes@.subrange(4, 8));
    }
    let header = parse_packet_header(slice_subrange(bytes, 0, 8))?;
    if header.size as usize != bytes.len() {
        let mut message = "header size ".to_owned();
        crate::text::push_decimal(&mut message, header.size as u128);
        crate::text::push_str(&mut message, " does not match buffer length ");
        crate::text::push_decimal(&mut message, bytes.len() as u128);
        return Err(QtmError::InvalidPacket(message));
    }
    decode_packet(header.packet_type, slice_subrange(bytes, 8, bytes.len()))
}

} // verus!
