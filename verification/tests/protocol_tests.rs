use qualisys_rust_sdk::protocol::{ComponentType, Event, PacketType};
use qualisys_rust_sdk::protocol::{
    build_get_current_frame_command, build_get_parameters_command, build_version_command,
    ComponentSelection, ParameterSelection, ProtocolVersion, SocketAddress, StreamFramesRequest,
    StreamRate, StreamTransport,
};

#[test]
fn builds_stream_frames_udp_command() {
    let request = StreamFramesRequest::new(
        StreamRate::FrequencyDivisor(2),
        StreamTransport::Udp {
            bind_address: SocketAddress::V4 { octets: [0, 0, 0, 0], port: 4545 },
            destination: Some("192.168.0.10".to_owned()),
        },
        vec![
            ComponentSelection::SixD,
            ComponentSelection::Skeleton { global: true },
        ],
    );

    assert_eq!(
        request.to_command(Some(4545)),
        "streamframes frequencydivisor:2 udp:192.168.0.10:4545 6d skeleton:global"
    );
}

#[test]
fn builds_parameter_command() {
    assert_eq!(
        build_get_parameters_command(&[ParameterSelection::General, ParameterSelection::SixD]),
        "getparameters general 6d"
    );
}

#[test]
fn builds_current_frame_command() {
    assert_eq!(
        build_get_current_frame_command(&[
            ComponentSelection::ThreeD,
            ComponentSelection::Analog {
                channels: vec![1, 4, 7]
            },
        ]),
        "getcurrentframe 3d analog:1,4,7"
    );
}

#[test]
fn builds_version_command() {
    assert_eq!(build_version_command(ProtocolVersion::new(1, 27)), "version 1.27");
    assert_eq!(build_version_command(ProtocolVersion::default()), "version 1.27");
}

#[test]
fn builds_tcp_stream_command_with_rate() {
    let request = StreamFramesRequest::new(
        StreamRate::Frequency(100),
        StreamTransport::Tcp,
        vec![ComponentSelection::ThreeD],
    );
    assert_eq!(request.to_command(None), "streamframes frequency:100 3d");
}

#[test]
fn stream_command_uses_bind_port_without_override() {
    let request = StreamFramesRequest::new(
        StreamRate::AllFrames,
        StreamTransport::Udp {
            bind_address: SocketAddress::V4 { octets: [0, 0, 0, 0], port: 7000 },
            destination: None,
        },
        vec![ComponentSelection::SixD],
    );
    assert_eq!(request.to_command(None), "streamframes allframes udp:7000 6d");
}

#[test]
fn wire_numbers_convert_to_kinds() {
    assert_eq!(PacketType::try_from(3u32), Ok(PacketType::Data));
    assert_eq!(PacketType::try_from(10u32), Err(10));
    assert_eq!(PacketType::Data.value(), 3);
    assert_eq!(Event::try_from(16u8).map(Event::value), Ok(16));
    assert_eq!(Event::try_from(0u8), Err(0));
    assert_eq!(ComponentType::try_from(18u32), Ok(ComponentType::Skeleton));
    assert_eq!(ComponentType::try_from(0u32), Err(0));
    for value in 1..=19u32 {
        assert_eq!(ComponentType::try_from(value).map(ComponentType::value), Ok(value));
    }
}
