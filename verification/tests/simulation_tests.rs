use qualisys_rust_sdk::packet::{Body6DResidual, ComponentData, Packet, Point3};
use qualisys_rust_sdk::parameters::parse_mocap_parameters_xml;
use qualisys_rust_sdk::protocol::{
    build_get_current_frame_command, ComponentSelection, ComponentType, PacketType,
};
use qualisys_rust_sdk::simulation::{
    parameters_xml, requested_components, requested_udp_targets, simulated_component,
    simulator_action, SimulatedComponent, SimulatorAction, UdpTarget,
};

fn reply(packet: Packet) -> (PacketType, String) {
    match simulator_action(&packet) {
        SimulatorAction::Reply { packet_type, text } => (packet_type, text),
        _ => panic!("expected a reply"),
    }
}

#[test]
fn answers_basic_commands() {
    assert_eq!(
        reply(Packet::Command("Version 1.27".to_owned())),
        (PacketType::Command, "Version set to 1.27".to_owned())
    );
    assert_eq!(
        reply(Packet::Command("QTMVersion".to_owned())),
        (PacketType::Command, "QTM RT simulator 0.1".to_owned())
    );
    assert_eq!(
        reply(Packet::Command("byteorder".to_owned())),
        (PacketType::Command, "little endian".to_owned())
    );
    assert_eq!(
        reply(Packet::Command("takeoff".to_owned())),
        (PacketType::Error, "unsupported simulator command: takeoff".to_owned())
    );
    assert_eq!(
        reply(Packet::Xml("<a/>".to_owned())),
        (PacketType::Error, "simulator only accepts command packets".to_owned())
    );
}

#[test]
fn dispatches_frame_and_stream_commands() {
    assert!(matches!(
        simulator_action(&Packet::Command("GetParameters 6d".to_owned())),
        SimulatorAction::SendParameters
    ));
    match simulator_action(&Packet::Command("getcurrentframe 6d".to_owned())) {
        SimulatorAction::SendCurrentFrame { components } => {
            assert_eq!(components, vec![SimulatedComponent::SixD])
        }
        _ => panic!("expected a frame"),
    }
    assert!(matches!(
        simulator_action(&Packet::Command("StreamFrames Stop".to_owned())),
        SimulatorAction::StopStream
    ));
    match simulator_action(&Packet::Command(
        "streamframes allframes udp:127.0.0.1:5000 6dres 6d".to_owned(),
    )) {
        SimulatorAction::StartStream { components, udp_targets } => {
            assert_eq!(components, vec![SimulatedComponent::SixDResidual, SimulatedComponent::SixD]);
            assert_eq!(udp_targets, vec![UdpTarget { host: Some("127.0.0.1".to_owned()), port: 5000 }]);
        }
        _ => panic!("expected a stream"),
    }
}

#[test]
fn requested_components_default_to_residual_6d() {
    assert_eq!(requested_components("streamframes allframes"), vec![SimulatedComponent::SixDResidual]);
    assert_eq!(
        requested_components("streamframes  6D\t6dResidual 3d"),
        vec![SimulatedComponent::SixD, SimulatedComponent::SixDResidual]
    );
}

#[test]
fn reads_udp_targets() {
    assert_eq!(
        requested_udp_targets("streamframes allframes udp:4545 6d"),
        vec![UdpTarget { host: None, port: 4545 }]
    );
    assert_eq!(
        requested_udp_targets("streamframes udp:x:99999 udp:host:12"),
        vec![UdpTarget { host: Some("host".to_owned()), port: 12 }]
    );
    assert!(requested_udp_targets("streamframes allframes 6d").is_empty());
}

#[test]
fn serves_parameters_xml() {
    let xml = parameters_xml(240, 2);
    assert!(xml.contains("<Frequency>240</Frequency>"));
    assert!(xml.contains("<Name>sim_body_1</Name>"));
    assert!(xml.contains("<Name>sim_body_2</Name>"));
    assert!(parameters_xml(0, 0).contains("<Frequency>1</Frequency>"));
    let parameters = parse_mocap_parameters_xml(&parameters_xml(100, 3)).expect("valid settings");
    let bodies = parameters.six_d.expect("6D").bodies;
    assert_eq!(bodies.len(), 3);
    assert_eq!(bodies[2].name, "sim_body_3");
    assert_eq!(bodies[0].color_rgb, Some([0, 255, 0]));
    assert_eq!(bodies[0].enabled, Some(true));
}

#[test]
fn builds_simulated_components() {
    let body = Body6DResidual {
        position: Point3 { x: 1, y: 2, z: 3 },
        rotation_matrix: [1, 0, 0, 0, 1, 0, 0, 0, 1],
        residual: 7,
    };
    let six_d = simulated_component(SimulatedComponent::SixD, &vec![body]);
    assert_eq!(six_d.id, ComponentType::SixD.value());
    match six_d.data {
        ComponentData::SixD(c) => {
            assert_eq!(c.bodies.len(), 1);
            assert_eq!(c.bodies[0].position, body.position);
            assert_eq!(c.bodies[0].rotation_matrix, body.rotation_matrix);
        }
        _ => panic!("expected 6D"),
    }
    let residual = simulated_component(SimulatedComponent::SixDResidual, &vec![body, body]);
    assert_eq!(residual.id, ComponentType::SixDResidual.value());
    match residual.data {
        ComponentData::SixDResidual(c) => assert_eq!(c.bodies, vec![body, body]),
        _ => panic!("expected 6D residual"),
    }
}

#[test]
fn frames_hold_the_requested_6d_kinds() {
    use_frame_command(&[ComponentSelection::ThreeD, ComponentSelection::SixD], vec![SimulatedComponent::SixD]);
    use_frame_command(&[ComponentSelection::ThreeD], vec![SimulatedComponent::SixDResidual]);
    use_frame_command(&[], vec![SimulatedComponent::SixDResidual]);
    use_frame_command(
        &[
            ComponentSelection::SixDResidual,
            ComponentSelection::Analog { channels: vec![1, 2] },
            ComponentSelection::SixD,
        ],
        vec![SimulatedComponent::SixDResidual, SimulatedComponent::SixD],
    );
}

fn use_frame_command(selections: &[ComponentSelection], expected: Vec<SimulatedComponent>) {
    let command = build_get_current_frame_command(selections);
    match simulator_action(&Packet::Command(command)) {
        SimulatorAction::SendCurrentFrame { components } => assert_eq!(components, expected),
        _ => panic!("expected a frame"),
    }
}
