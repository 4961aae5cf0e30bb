//! The decisions a client makes on what QTM sends back: whether the
//! greeting and the version answer are right, and, while it waits for the
//! answer to a request, which packets answer it, which are skipped and
//! which are errors. Sockets and timeouts stay with the caller.

use vstd::prelude::*;

use crate::bridge::{frames_view, spec_push, AssembledFrame, FrameAccumulator};
use crate::error::QtmError;
use crate::packet::{DataPacket, DataPacketModel, Packet, PacketModel};
use crate::protocol::{ProtocolVersion, INITIAL_GREETING, LITTLE_ENDIAN_PORT};
use crate::text::{
    chars_of, lowercase, lowercase_chars, push_str, starts_with, str_eq, str_starts_with,
    string_of,
};

verus! {

/// How a client connects: the command port, the protocol version it asks
/// for, how long a read or write may wait, and whether to send small
/// packets at once.
#[derive(Debug, Clone, Copy)]
pub struct ConnectOptions {
    pub port: u16,
    pub version: ProtocolVersion,
    pub read_timeout: std::time::Duration,
    pub tcp_nodelay: bool,
}

/// The span of `secs` whole seconds, as `Duration::from_secs` gives it.
pub uninterp spec fn seconds_span(secs: u64) -> std::time::Duration;

/// `Duration::from_secs`: the span of whole seconds, which depends on the
/// number alone and cannot panic. Verus sees nothing inside a `Duration`,
/// so the result is claimed only to be that span, by name.
#[verifier::external_body]
fn duration_from_secs(secs: u64) -> (d: std::time::Duration)
    ensures
        d == seconds_span(secs),
{
    std::time::Duration::from_secs(secs)
}

impl Default for ConnectOptions {
    /// The little-endian command port, the newest protocol version, five
    /// seconds to wait, and no delay.
    fn default() -> (r: Self)
        ensures
            r.port == LITTLE_ENDIAN_PORT,
            r.version.major == 1,
            r.version.minor == 27,
            r.read_timeout == seconds_span(5),
            r.tcp_nodelay,
    {
        ConnectOptions {
            port: LITTLE_ENDIAN_PORT,
            version: crate::protocol::latest_protocol_version(),
            read_timeout: duration_from_secs(5),
            tcp_nodelay: true,
        }
    }
}

/// A packet of a frame stream: frame data, or QTM's end of the stream.
#[derive(Debug)]
pub enum StreamPacket {
    Data(DataPacket),
    NoMoreData,
}

pub enum StreamPacketModel {
    Data(DataPacketModel),
    NoMoreData,
}

impl View for StreamPacket {
    type V = StreamPacketModel;

    open spec fn view(&self) -> StreamPacketModel {
        match self {
            StreamPacket::Data(d) => StreamPacketModel::Data(d@),
            StreamPacket::NoMoreData => StreamPacketModel::NoMoreData,
        }
    }
}

/// Why a reply is refused: QTM reported an error with this message, or
/// the packet is not one the request can be answered with.
pub enum ReplyFailure {
    Failed(Seq<char>),
    Unexpected,
}

/// The error stands for the failure: `CommandFailed` with the message, or
/// `InvalidPacket`.
pub open spec fn is_reply_failure(e: QtmError, f: ReplyFailure) -> bool {
    match f {
        ReplyFailure::Failed(m) => e matches QtmError::CommandFailed(x) && x@ == m,
        ReplyFailure::Unexpected => e is InvalidPacket,
    }
}

/// An exec decision agrees with its model: `None` to keep waiting, or the
/// reply, or the failure.
pub open spec fn decides<T: View>(
    r: Option<Result<T, QtmError>>,
    m: Option<Result<T::V, ReplyFailure>>,
) -> bool {
    match r {
        None => m is None,
        Some(Ok(v)) => m == Some(Ok::<T::V, ReplyFailure>(v@)),
        Some(Err(e)) => m matches Some(Err(f)) && is_reply_failure(e, f),
    }
}

/// The greeting a newly connected client expects.
pub open spec fn greeting_failure(p: PacketModel) -> Option<ReplyFailure> {
    match p {
        PacketModel::Command(m) => if starts_with(m, INITIAL_GREETING@) {
            None
        } else {
            Some(ReplyFailure::Unexpected)
        },
        PacketModel::Error(m) => Some(ReplyFailure::Failed(m)),
        _ => Some(ReplyFailure::Unexpected),
    }
}

/// The short name of a packet's kind, as messages write it.
pub open spec fn kind_name(p: PacketModel) -> Seq<char> {
    match p {
        PacketModel::Error(_) => "Error"@,
        PacketModel::Command(_) => "Command"@,
        PacketModel::Xml(_) => "Xml"@,
        PacketModel::Data(_) => "Data"@,
        PacketModel::NoMoreData => "NoMoreData"@,
        PacketModel::Event(_) => "Event"@,
        PacketModel::Binary { .. } => "Binary"@,
    }
}

/// A short name of the packet's kind, for messages.
fn packet_kind(packet: &Packet) -> (r: &'static str)
    ensures
        r@ == kind_name(packet@),
{
    match packet {
        Packet::Error(_) => "Error",
        Packet::Command(_) => "Command",
        Packet::Xml(_) => "Xml",
        Packet::Data(_) => "Data",
        Packet::NoMoreData => "NoMoreData",
        Packet::Event(_) => "Event",
        Packet::Binary { .. } => "Binary",
    }
}

fn unexpected(expected: &str, packet: &Packet) -> (e: QtmError)
    ensures
        e matches QtmError::InvalidPacket(m) && m@ == "expected "@ + expected@ + ", got "@
            + kind_name(packet@),
{
    let mut m = String::new();
    push_str(&mut m, "expected ");
    push_str(&mut m, expected);
    push_str(&mut m, ", got ");
    push_str(&mut m, packet_kind(packet));
    assert(m@ =~= "expected "@ + expected@ + ", got "@ + kind_name(packet@));
    QtmError::InvalidPacket(m)
}

/// Checks the first packet of a connection: a command packet that starts
/// with QTM's greeting.
pub fn check_greeting(packet: Packet) -> (r: Result<(), QtmError>)
    ensures
        match r {
            Ok(()) => greeting_failure(packet@) is None,
            Err(e) => greeting_failure(packet@) matches Some(f) && is_reply_failure(e, f),
        },
{
    match packet {
        Packet::Command(message) => {
            if str_starts_with(message.as_str(), INITIAL_GREETING) {
                Ok(())
            } else {
                Err(unexpected("greeting packet", &Packet::Command(message)))
            }
        },
        Packet::Error(message) => Err(QtmError::CommandFailed(message)),
        other => Err(unexpected("greeting packet", &other)),
    }
}

/// Whether QTM's answer to the version command accepts it.
pub open spec fn version_accepted(response: Seq<char>) -> bool {
    starts_with(lowercase(response), "version set to "@)
}

/// Checks QTM's answer to the version command: `Version set to ...`, in
/// any ASCII case.
pub fn check_version_response(response: &str) -> (r: Result<(), QtmError>)
    ensures
        match r {
            Ok(()) => version_accepted(response@),
            Err(e) => !version_accepted(response@) && e is InvalidPacket,
        },
{
    let cs = chars_of(response);
    let lower = lowercase_chars(cs.as_slice());
    let lower_text = string_of(lower.as_slice());
    if str_starts_with(lower_text.as_str(), "version set to ") {
        Ok(())
    } else {
        let mut m = String::new();
        push_str(&mut m, "unexpected version response: ");
        push_str(&mut m, response);
        Err(QtmError::InvalidPacket(m))
    }
}

/// What waiting for the answer to a command does with a packet: a command
/// packet answers it, but for a repeated greeting; an error packet fails
/// it; events are skipped.
pub open spec fn command_reply(p: PacketModel) -> Option<Result<Seq<char>, ReplyFailure>> {
    match p {
        PacketModel::Command(m) => if m == INITIAL_GREETING@ {
            None
        } else {
            Some(Ok(m))
        },
        PacketModel::Error(m) => Some(Err(ReplyFailure::Failed(m))),
        PacketModel::Event(_) => None,
        _ => Some(Err(ReplyFailure::Unexpected)),
    }
}

pub fn select_command_reply(packet: Packet) -> (r: Option<Result<String, QtmError>>)
    ensures
        decides(r, command_reply(packet@)),
{
    match packet {
        Packet::Command(message) => {
            if str_eq(message.as_str(), INITIAL_GREETING) {
                None
            } else {
                Some(Ok(message))
            }
        },
        Packet::Error(message) => Some(Err(QtmError::CommandFailed(message))),
        Packet::Event(_) => None,
        other => Some(Err(unexpected("command packet", &other))),
    }
}

/// What waiting for requested XML does with a packet.
pub open spec fn xml_reply(p: PacketModel) -> Option<Result<Seq<char>, ReplyFailure>> {
    match p {
        PacketModel::Xml(x) => Some(Ok(x)),
        PacketModel::Error(m) => Some(Err(ReplyFailure::Failed(m))),
        PacketModel::Event(_) => None,
        _ => Some(Err(ReplyFailure::Unexpected)),
    }
}

pub fn select_xml_reply(packet: Packet) -> (r: Option<Result<String, QtmError>>)
    ensures
        decides(r, xml_reply(packet@)),
{
    match packet {
        Packet::Xml(xml) => Some(Ok(xml)),
        Packet::Error(message) => Some(Err(QtmError::CommandFailed(message))),
        Packet::Event(_) => None,
        other => Some(Err(unexpected("XML packet", &other))),
    }
}

/// What waiting for a requested frame does with a packet.
pub open spec fn data_reply(p: PacketModel) -> Option<Result<DataPacketModel, ReplyFailure>> {
    match p {
        PacketModel::Data(d) => Some(Ok(d)),
        PacketModel::Error(m) => Some(Err(ReplyFailure::Failed(m))),
        PacketModel::Event(_) => None,
        _ => Some(Err(ReplyFailure::Unexpected)),
    }
}

pub fn select_data_reply(packet: Packet) -> (r: Option<Result<DataPacket, QtmError>>)
    ensures
        decides(r, data_reply(packet@)),
{
    match packet {
        Packet::Data(data) => Some(Ok(data)),
        Packet::Error(message) => Some(Err(QtmError::CommandFailed(message))),
        Packet::Event(_) => None,
        other => Some(Err(unexpected("data packet", &other))),
    }
}

/// What waiting for the answer to sent XML settings does with a packet.
pub open spec fn xml_ack_reply(p: PacketModel) -> Option<Result<Seq<char>, ReplyFailure>> {
    match p {
        PacketModel::Command(m) => Some(Ok(m)),
        PacketModel::Error(m) => Some(Err(ReplyFailure::Failed(m))),
        PacketModel::Event(_) => None,
        _ => Some(Err(ReplyFailure::Unexpected)),
    }
}

pub fn select_xml_ack_reply(packet: Packet) -> (r: Option<Result<String, QtmError>>)
    ensures
        decides(r, xml_ack_reply(packet@)),
{
    match packet {
        Packet::Command(message) => Some(Ok(message)),
        Packet::Error(message) => Some(Err(QtmError::CommandFailed(message))),
        Packet::Event(_) => None,
        other => Some(Err(unexpected("XML command response", &other))),
    }
}

/// What reading a frame stream over TCP does with a packet: frames and
/// the end of the stream are handed on, events and repeated greetings
/// skipped.
pub open spec fn stream_reply(p: PacketModel) -> Option<Result<StreamPacketModel, ReplyFailure>> {
    match p {
        PacketModel::Data(d) => Some(Ok(StreamPacketModel::Data(d))),
        PacketModel::NoMoreData => Some(Ok(StreamPacketModel::NoMoreData)),
        PacketModel::Event(_) => None,
        PacketModel::Command(m) => if m == INITIAL_GREETING@ {
            None
        } else {
            Some(Err(ReplyFailure::Unexpected))
        },
        PacketModel::Error(m) => Some(Err(ReplyFailure::Failed(m))),
        _ => Some(Err(ReplyFailure::Unexpected)),
    }
}

pub fn select_stream_packet(packet: Packet) -> (r: Option<Result<StreamPacket, QtmError>>)
    ensures
        decides(r, stream_reply(packet@)),
{
    match packet {
        Packet::Data(data) => Some(Ok(StreamPacket::Data(data))),
        Packet::NoMoreData => Some(Ok(StreamPacket::NoMoreData)),
        Packet::Event(_) => None,
        Packet::Command(message) => {
            if str_eq(message.as_str(), INITIAL_GREETING) {
                None
            } else {
                Some(Err(unexpected("streaming packet", &Packet::Command(message))))
            }
        },
        Packet::Error(message) => Some(Err(QtmError::CommandFailed(message))),
        other => Some(Err(unexpected("streaming packet", &other))),
    }
}

/// What a UDP datagram of a frame stream stands for.
pub open spec fn datagram_reply(p: PacketModel) -> Result<StreamPacketModel, ReplyFailure> {
    match p {
        PacketModel::Data(d) => Ok(StreamPacketModel::Data(d)),
        PacketModel::NoMoreData => Ok(StreamPacketModel::NoMoreData),
        PacketModel::Error(m) => Err(ReplyFailure::Failed(m)),
        _ => Err(ReplyFailure::Unexpected),
    }
}

/// A decoded UDP datagram as a stream packet.
pub fn stream_packet_from_packet(packet: Packet) -> (r: Result<StreamPacket, QtmError>)
    ensures
        match r {
            Ok(s) => datagram_reply(packet@) == Ok::<StreamPacketModel, ReplyFailure>(s@),
            Err(e) => datagram_reply(packet@) matches Err(f) && is_reply_failure(e, f),
        },
{
    match packet {
        Packet::Data(data) => Ok(StreamPacket::Data(data)),
        Packet::NoMoreData => Ok(StreamPacket::NoMoreData),
        Packet::Error(message) => Err(QtmError::CommandFailed(message)),
        other => Err(unexpected("streaming packet", &other)),
    }
}

/// The payload length that a packet size announces: the size less the
/// 8-byte header.
pub fn payload_length(size: u32) -> (r: Result<usize, QtmError>)
    ensures
        match r {
            Ok(n) => size >= 8 && n == size - 8,
            Err(e) => size < 8 && e is InvalidPacket,
        },
{
    if size < 8 {
        return Err(QtmError::invalid_packet("packet size is shorter than header"));
    }
    Ok((size - 8) as usize)
}

/// What a client reading a frame stream does after a packet: go on
/// reading, stop the stream (enough frames were handed on), or end (QTM
/// ended the stream).
#[derive(Debug, Clone, Copy, PartialEq, Eq, Structural)]
pub enum StreamStep {
    Continue,
    Stop,
    End,
}

/// One step of reading a frame stream that stops after `count` frames
/// (none: `count` is 0), `printed` frames having been handed on so far.
/// A data packet goes into the accumulator; of the frames it completes,
/// as many are handed on as are still wanted, and the step is `Stop` once
/// `count` is reached, so that exactly `count` frames are handed on in
/// all; after `Continue` fewer than `count` are. The end of the stream
/// hands on nothing and ends.
pub fn stream_step(
    acc: &mut FrameAccumulator,
    printed: usize,
    count: usize,
    packet: StreamPacket,
) -> (r: (Vec<AssembledFrame>, StreamStep))
    requires
        count == 0 || printed < count,
    ensures
        final(acc).expected() == old(acc).expected(),
        r.1 == StreamStep::Stop ==> printed + r.0@.len() == count,
        r.1 == StreamStep::Continue ==> count == 0 || printed + r.0@.len() < count,
        match packet {
            StreamPacket::NoMoreData => r.0@.len() == 0 && r.1 == StreamStep::End
                && final(acc).current() == old(acc).current(),
            StreamPacket::Data(p) => final(acc).current() == spec_push(
                old(acc).expected(),
                old(acc).current(),
                p,
            ).0 && if count != 0 && printed + spec_push(
                old(acc).expected(),
                old(acc).current(),
                p,
            ).1.len() >= count {
                frames_view(r.0@) == spec_push(old(acc).expected(), old(acc).current(), p).1.take(
                    count - printed,
                ) && r.1 == StreamStep::Stop
            } else {
                frames_view(r.0@) == spec_push(old(acc).expected(), old(acc).current(), p).1
                    && r.1 == StreamStep::Continue
            },
        },
{
    match packet {
        StreamPacket::NoMoreData => (Vec::new(), StreamStep::End),
        StreamPacket::Data(p) => {
            let mut frames = acc.push(p);
            if count != 0 && frames.len() >= count - printed {
                let ghost before = frames@;
                frames.truncate(count - printed);
                assert(frames_view(frames@) =~= frames_view(before).take(count - printed));
                (frames, StreamStep::Stop)
            } else {
                (frames, StreamStep::Continue)
            }
        },
    }
}

/// Events never answer a request: whatever a client waits for (a command
/// reply, XML, a frame, the answer to sent settings, or the next packet of
/// a TCP frame stream), an event packet is skipped and reading goes on.
/// A frame stream is left waiting only by events and repeated greetings;
/// frames and the end of the stream are handed on as they came.
pub proof fn law_events_are_skipped(p: PacketModel)
    ensures
        p is Event ==> command_reply(p) is None && xml_reply(p) is None && data_reply(p) is None
            && xml_ack_reply(p) is None && stream_reply(p) is None,
        stream_reply(p) is None <==> (p is Event || p == PacketModel::Command(INITIAL_GREETING@)),
        p matches PacketModel::Data(d) ==> stream_reply(p) == Some(
            Ok::<StreamPacketModel, ReplyFailure>(StreamPacketModel::Data(d)),
        ),
        p is NoMoreData ==> stream_reply(p) == Some(
            Ok::<StreamPacketModel, ReplyFailure>(StreamPacketModel::NoMoreData),
        ),
{
}

} // verus!
