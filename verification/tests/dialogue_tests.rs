//! A client and the simulator talking through encoded packets, without
//! sockets: what the simulator answers, the client accepts.

use qualisys_rust_sdk::bridge::FrameAccumulator;
use qualisys_rust_sdk::decode::parse_framed_packet;
use qualisys_rust_sdk::encode::{encode_data_packet, encode_text_packet};
use qualisys_rust_sdk::packet::{Body6DResidual, ComponentData, DataPacket, Packet, Point3};
use qualisys_rust_sdk::parameters::parse_mocap_parameters_xml;
use qualisys_rust_sdk::protocol::{
    build_get_current_frame_command, build_get_parameters_command, build_version_command,
    ComponentSelection, ComponentType, PacketType, ParameterSelection, ProtocolVersion,
    StreamFramesRequest, StreamRate, StreamTransport, INITIAL_GREETING,
};
use qualisys_rust_sdk::session::{
    check_greeting, check_version_response, select_command_reply, select_data_reply,
    select_stream_packet, select_xml_reply, StreamPacket,
};
use qualisys_rust_sdk::simulation::{
    parameters_xml, simulated_component, simulator_action, SimulatorAction,
};

const RIGID_BODIES: usize = 3;

fn bodies() -> Vec<Body6DResidual> {
    (0..RIGID_BODIES)
        .map(|index| Body6DResidual {
            position: Point3 { x: 750.0f32.to_bits(), y: 0, z: 1000.0f32.to_bits() },
            rotation_matrix: [1.0f32.to_bits(), 0, 0, 0, 1.0f32.to_bits(), 0, 0, 0, 1.0f32.to_bits()],
            residual: (0.001 * (index + 1) as f32).to_bits(),
        })
        .collect()
}

/// Sends a command through the wire format and returns what the simulator
/// answers, through the wire format too.
fn ask(command: &str, frame_number: u32) -> Packet {
    let request = parse_framed_packet(&encode_text_packet(PacketType::Command, command).unwrap()).unwrap();
    let bytes = match simulator_action(&request) {
        SimulatorAction::Reply { packet_type, text } => encode_text_packet(packet_type, &text).unwrap(),
        SimulatorAction::SendParameters => {
            encode_text_packet(PacketType::Xml, &parameters_xml(240, RIGID_BODIES)).unwrap()
        }
        SimulatorAction::SendCurrentFrame { components } => {
            let frame = DataPacket {
                timestamp: 0,
                frame_number,
                components: components.iter().map(|c| simulated_component(*c, &bodies())).collect(),
            };
            encode_data_packet(&frame).unwrap()
        }
        SimulatorAction::StopStream | SimulatorAction::StartStream { .. } => panic!("no reply expected"),
    };
    parse_framed_packet(&bytes).unwrap()
}

#[test]
fn simulator_answers_client_queries() {
    let greeting = parse_framed_packet(&encode_text_packet(PacketType::Command, INITIAL_GREETING).unwrap()).unwrap();
    assert!(check_greeting(greeting).is_ok());

    let version = select_command_reply(ask(&build_version_command(ProtocolVersion::default()), 1))
        .unwrap()
        .unwrap();
    assert!(check_version_response(&version).is_ok());

    assert_eq!(select_command_reply(ask("qtmversion", 1)).unwrap().unwrap(), "QTM RT simulator 0.1");
    assert_eq!(select_command_reply(ask("byteorder", 1)).unwrap().unwrap(), "little endian");

    let raw_parameters = select_xml_reply(ask(
        &build_get_parameters_command(&[ParameterSelection::General, ParameterSelection::SixD]),
        1,
    ))
    .unwrap()
    .unwrap();
    assert!(raw_parameters.contains("<Frequency>240</Frequency>"));

    let mocap = select_xml_reply(ask(
        &build_get_parameters_command(&[
            ParameterSelection::ThreeD,
            ParameterSelection::SixD,
            ParameterSelection::Skeleton,
        ]),
        1,
    ))
    .unwrap()
    .unwrap();
    let parameters = parse_mocap_parameters_xml(&mocap).unwrap();
    let six_d = parameters.six_d.as_ref().expect("simulator should expose 6D parameters");
    let names = six_d.bodies.iter().map(|body| body.name.as_str()).collect::<Vec<_>>();
    assert_eq!(names, vec!["sim_body_1", "sim_body_2", "sim_body_3"]);
    assert!(six_d.bodies.iter().all(|body| body.enabled == Some(true)));
    assert!(six_d.bodies.iter().all(|body| body.color_rgb == Some([0, 255, 0])));

    let frame = select_data_reply(ask(
        &build_get_current_frame_command(&[ComponentSelection::SixDResidual]),
        1,
    ))
    .unwrap()
    .unwrap();
    assert_eq!(frame.frame_number, 1);
    match &frame.component(ComponentType::SixDResidual).expect("6D residual").data {
        ComponentData::SixDResidual(c) => {
            assert_eq!(c.drop_rate, 0);
            assert_eq!(c.bodies.len(), RIGID_BODIES);
            for (index, body) in c.bodies.iter().enumerate() {
                let expected = 0.001 * (index + 1) as f32;
                assert!((f32::from_bits(body.residual) - expected).abs() < f32::EPSILON);
            }
        }
        other => panic!("expected 6D residual, got {other:?}"),
    }

    let frame = select_data_reply(ask(&build_get_current_frame_command(&[ComponentSelection::SixD]), 1))
        .unwrap()
        .unwrap();
    match &frame.component(ComponentType::SixD).expect("6D").data {
        ComponentData::SixD(c) => assert_eq!(c.bodies.len(), RIGID_BODIES),
        other => panic!("expected 6D, got {other:?}"),
    }
}

#[test]
fn simulator_streams_assembled_frames() {
    let components = vec![ComponentSelection::SixDResidual];
    let request = StreamFramesRequest::new(StreamRate::AllFrames, StreamTransport::Tcp, components.clone());
    let command = parse_framed_packet(&encode_text_packet(PacketType::Command, &request.to_command(None)).unwrap())
        .unwrap();
    let asked = match simulator_action(&command) {
        SimulatorAction::StartStream { components, udp_targets } => {
            assert!(udp_targets.is_empty());
            components
        }
        _ => panic!("expected a stream to start"),
    };

    let mut accumulator = FrameAccumulator::for_components(components);
    let mut frames = Vec::new();
    for frame_number in 1..=3u32 {
        let packet = DataPacket {
            timestamp: frame_number as u64 * 4_166,
            frame_number,
            components: asked.iter().map(|c| simulated_component(*c, &bodies())).collect(),
        };
        let received = parse_framed_packet(&encode_data_packet(&packet).unwrap()).unwrap();
        match select_stream_packet(received).unwrap().unwrap() {
            StreamPacket::Data(data) => frames.extend(accumulator.push(data)),
            StreamPacket::NoMoreData => panic!("stream ended early"),
        }
    }
    assert_eq!(frames.len(), 3);
    assert!(frames.iter().all(|frame| frame.complete));
    assert!(frames.windows(2).all(|w| w[1].frame_number > w[0].frame_number));

    let stop = parse_framed_packet(&encode_text_packet(PacketType::Command, "streamframes stop").unwrap()).unwrap();
    assert!(matches!(simulator_action(&stop), SimulatorAction::StopStream));
}
