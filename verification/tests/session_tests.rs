use qualisys_rust_sdk::error::QtmError;
use qualisys_rust_sdk::packet::{DataPacket, Packet};
use qualisys_rust_sdk::protocol::{Event, LITTLE_ENDIAN_PORT};
use qualisys_rust_sdk::bridge::FrameAccumulator;
use qualisys_rust_sdk::session::{
    stream_step, StreamStep,
    check_greeting, check_version_response, payload_length, select_command_reply,
    select_data_reply, select_stream_packet, select_xml_ack_reply, select_xml_reply,
    stream_packet_from_packet, ConnectOptions, StreamPacket,
};

fn frame() -> DataPacket {
    DataPacket { timestamp: 1, frame_number: 2, components: vec![] }
}

#[test]
fn default_connect_options() {
    let options = ConnectOptions::default();
    assert_eq!(options.port, LITTLE_ENDIAN_PORT);
    assert_eq!(options.port, 22223);
    assert_eq!((options.version.major, options.version.minor), (1, 27));
    assert_eq!(options.read_timeout, std::time::Duration::from_secs(5));
    assert!(options.tcp_nodelay);
}

#[test]
fn checks_the_greeting() {
    assert!(check_greeting(Packet::Command("QTM RT Interface connected".to_owned())).is_ok());
    assert!(matches!(
        check_greeting(Packet::Error("busy".to_owned())),
        Err(QtmError::CommandFailed(m)) if m == "busy"
    ));
    assert!(matches!(
        check_greeting(Packet::Command("hello".to_owned())),
        Err(QtmError::InvalidPacket(_))
    ));
    assert!(matches!(check_greeting(Packet::NoMoreData), Err(QtmError::InvalidPacket(_))));
}

#[test]
fn checks_the_version_answer() {
    assert!(check_version_response("Version set to 1.27").is_ok());
    assert!(check_version_response("VERSION SET TO 1.25").is_ok());
    assert!(matches!(check_version_response("nope"), Err(QtmError::InvalidPacket(_))));
}

#[test]
fn command_replies_skip_events_and_greetings() {
    assert!(select_command_reply(Packet::Event(Event::CaptureStarted)).is_none());
    assert!(select_command_reply(Packet::Command("QTM RT Interface connected".to_owned())).is_none());
    assert!(matches!(
        select_command_reply(Packet::Command("little endian".to_owned())),
        Some(Ok(m)) if m == "little endian"
    ));
    assert!(matches!(
        select_command_reply(Packet::Error("bad".to_owned())),
        Some(Err(QtmError::CommandFailed(m))) if m == "bad"
    ));
    assert!(matches!(select_command_reply(Packet::NoMoreData), Some(Err(QtmError::InvalidPacket(_)))));
}

#[test]
fn xml_and_data_replies() {
    assert!(matches!(select_xml_reply(Packet::Xml("<a/>".to_owned())), Some(Ok(x)) if x == "<a/>"));
    assert!(matches!(
        select_xml_reply(Packet::Command("x".to_owned())),
        Some(Err(QtmError::InvalidPacket(_)))
    ));
    assert!(matches!(select_data_reply(Packet::Data(frame())), Some(Ok(d)) if d == frame()));
    assert!(select_data_reply(Packet::Event(Event::Connected)).is_none());
    assert!(matches!(
        select_xml_ack_reply(Packet::Command("Setting parameters succeeded".to_owned())),
        Some(Ok(_))
    ));
    assert!(matches!(
        select_xml_ack_reply(Packet::Xml("<a/>".to_owned())),
        Some(Err(QtmError::InvalidPacket(_)))
    ));
}

#[test]
fn stream_packets() {
    assert!(matches!(select_stream_packet(Packet::Data(frame())), Some(Ok(StreamPacket::Data(_)))));
    assert!(matches!(select_stream_packet(Packet::NoMoreData), Some(Ok(StreamPacket::NoMoreData))));
    assert!(select_stream_packet(Packet::Command("QTM RT Interface connected".to_owned())).is_none());
    assert!(matches!(
        select_stream_packet(Packet::Command("other".to_owned())),
        Some(Err(QtmError::InvalidPacket(_)))
    ));
    assert!(matches!(stream_packet_from_packet(Packet::NoMoreData), Ok(StreamPacket::NoMoreData)));
    assert!(matches!(
        stream_packet_from_packet(Packet::Event(Event::Connected)),
        Err(QtmError::InvalidPacket(_))
    ));
    assert!(matches!(
        stream_packet_from_packet(Packet::Error("e".to_owned())),
        Err(QtmError::CommandFailed(_))
    ));
}

#[test]
fn payload_length_is_size_less_header() {
    assert_eq!(payload_length(20).expect("length"), 12);
    assert_eq!(payload_length(8).expect("length"), 0);
    assert!(matches!(payload_length(7), Err(QtmError::InvalidPacket(_))));
}

#[test]
fn stream_steps_stop_after_count_frames() {
    use_stream_steps();
}

fn use_stream_steps() {
    let mut acc = FrameAccumulator::new(vec![]);
    let packet = |n: u32| StreamPacket::Data(DataPacket { timestamp: n as u64, frame_number: n, components: vec![] });
    let (frames, step) = stream_step(&mut acc, 0, 2, packet(1));
    assert_eq!(frames.len(), 1);
    assert_eq!(step, StreamStep::Continue);
    let (frames, step) = stream_step(&mut acc, 1, 2, packet(2));
    assert_eq!(frames.len(), 1);
    assert_eq!(frames[0].frame_number, 2);
    assert_eq!(step, StreamStep::Stop);
    let (frames, step) = stream_step(&mut acc, 5, 0, packet(3));
    assert_eq!(frames.len(), 1);
    assert_eq!(step, StreamStep::Continue);
    let (frames, step) = stream_step(&mut acc, 0, 0, StreamPacket::NoMoreData);
    assert!(frames.is_empty());
    assert_eq!(step, StreamStep::End);

    // a packet of a new frame hands out two frames; only the one still wanted is kept
    let mut acc = FrameAccumulator::new(vec![5]);
    let (frames, _) = stream_step(&mut acc, 0, 1, packet(1));
    assert!(frames.is_empty());
    let (frames, step) = stream_step(&mut acc, 0, 1, StreamPacket::Data(DataPacket {
        timestamp: 9,
        frame_number: 9,
        components: vec![qualisys_rust_sdk::packet::Component {
            id: 5,
            data: qualisys_rust_sdk::packet::ComponentData::Raw(vec![]),
        }],
    }));
    assert_eq!(frames.len(), 1);
    assert_eq!(frames[0].frame_number, 1);
    assert!(!frames[0].complete);
    assert_eq!(step, StreamStep::Stop);
}
