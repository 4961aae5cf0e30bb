use qualisys_rust_sdk::decode::{decode_packet, parse_framed_packet, parse_packet_header};
use qualisys_rust_sdk::encode::{encode_data_packet, encode_framed_packet, encode_text_packet};
use qualisys_rust_sdk::error::QtmError;
use qualisys_rust_sdk::packet::{
    Body6D, Component, ComponentData, DataPacket, Packet, Point3, SixDComponent, ThreeDComponent,
};
use qualisys_rust_sdk::protocol::{ComponentType, Event, PacketType};

fn point(x: f32, y: f32, z: f32) -> Point3 {
    Point3 { x: x.to_bits(), y: y.to_bits(), z: z.to_bits() }
}

#[test]
fn parses_data_packet_with_3d_and_6d_components() {
    let payload_3d = {
        let mut bytes = Vec::new();
        bytes.extend_from_slice(&2u32.to_le_bytes());
        bytes.extend_from_slice(&1i16.to_le_bytes());
        bytes.extend_from_slice(&2i16.to_le_bytes());
        for value in [1.0f32, 2.0, 3.0, 4.0, 5.0, 6.0] {
            bytes.extend_from_slice(&value.to_le_bytes());
        }
        bytes
    };

    let payload_6d = {
        let mut bytes = Vec::new();
        bytes.extend_from_slice(&1i32.to_le_bytes());
        bytes.extend_from_slice(&0i16.to_le_bytes());
        bytes.extend_from_slice(&0i16.to_le_bytes());
        for value in [10.0f32, 20.0, 30.0] {
            bytes.extend_from_slice(&value.to_le_bytes());
        }
        for value in [1.0f32, 0.0, 0.0, 0.0, 1.0, 0.0, 0.0, 0.0, 1.0] {
            bytes.extend_from_slice(&value.to_le_bytes());
        }
        bytes
    };

    let mut data_payload = Vec::new();
    data_payload.extend_from_slice(&123u64.to_le_bytes());
    data_payload.extend_from_slice(&7u32.to_le_bytes());
    data_payload.extend_from_slice(&2u32.to_le_bytes());

    data_payload.extend_from_slice(&(8u32 + payload_3d.len() as u32).to_le_bytes());
    data_payload.extend_from_slice(&ComponentType::ThreeD.value().to_le_bytes());
    data_payload.extend_from_slice(&payload_3d);

    data_payload.extend_from_slice(&(8u32 + payload_6d.len() as u32).to_le_bytes());
    data_payload.extend_from_slice(&ComponentType::SixD.value().to_le_bytes());
    data_payload.extend_from_slice(&payload_6d);

    let mut framed_packet = Vec::new();
    framed_packet.extend_from_slice(&(8u32 + data_payload.len() as u32).to_le_bytes());
    framed_packet.extend_from_slice(&PacketType::Data.value().to_le_bytes());
    framed_packet.extend_from_slice(&data_payload);

    let packet = parse_framed_packet(&framed_packet).expect("packet should parse");

    match packet {
        Packet::Data(data) => {
            assert_eq!(data.timestamp, 123);
            assert_eq!(data.frame_number, 7);
            assert_eq!(data.components.len(), 2);
            match &data.components[0].data {
                ComponentData::ThreeD(component) => {
                    assert_eq!(component.markers.len(), 2);
                    assert_eq!(component.markers[0], point(1.0, 2.0, 3.0));
                }
                other => panic!("unexpected component: {other:?}"),
            }
            match &data.components[1].data {
                ComponentData::SixD(component) => {
                    assert_eq!(component.bodies.len(), 1);
                    assert_eq!(component.bodies[0].position, point(10.0, 20.0, 30.0));
                }
                other => panic!("unexpected component: {other:?}"),
            }
        }
        other => panic!("unexpected packet: {other:?}"),
    }
}

#[test]
fn preserves_unknown_component_payloads() {
    let mut data_payload = Vec::new();
    data_payload.extend_from_slice(&1u64.to_le_bytes());
    data_payload.extend_from_slice(&1u32.to_le_bytes());
    data_payload.extend_from_slice(&1u32.to_le_bytes());
    data_payload.extend_from_slice(&12u32.to_le_bytes());
    data_payload.extend_from_slice(&99u32.to_le_bytes());
    data_payload.extend_from_slice(&[1, 2, 3, 4]);

    let mut framed_packet = Vec::new();
    framed_packet.extend_from_slice(&(8u32 + data_payload.len() as u32).to_le_bytes());
    framed_packet.extend_from_slice(&PacketType::Data.value().to_le_bytes());
    framed_packet.extend_from_slice(&data_payload);

    let packet = parse_framed_packet(&framed_packet).expect("packet should parse");
    match packet {
        Packet::Data(data) => match &data.components[0].data {
            ComponentData::Raw(bytes) => assert_eq!(bytes, &[1, 2, 3, 4]),
            other => panic!("unexpected component: {other:?}"),
        },
        other => panic!("unexpected packet: {other:?}"),
    }
}

#[test]
fn data_packet_survives_encode_and_parse() {
    let packet = DataPacket {
        timestamp: 42,
        frame_number: 9,
        components: vec![
            Component {
                id: ComponentType::ThreeD.value(),
                data: ComponentData::ThreeD(ThreeDComponent {
                    drop_rate: 3,
                    out_of_sync_rate: -1,
                    markers: vec![point(1.5, -2.0, 0.25)],
                }),
            },
            Component {
                id: ComponentType::SixD.value(),
                data: ComponentData::SixD(SixDComponent {
                    drop_rate: 0,
                    out_of_sync_rate: 0,
                    bodies: vec![Body6D {
                        position: point(10.0, 20.0, 30.0),
                        rotation_matrix: [1.0f32.to_bits(), 0, 0, 0, 1.0f32.to_bits(), 0, 0, 0, 1.0f32.to_bits()],
                    }],
                }),
            },
        ],
    };
    let bytes = encode_data_packet(&packet).expect("encodable");
    assert_eq!(u32::from_le_bytes([bytes[0], bytes[1], bytes[2], bytes[3]]) as usize, bytes.len());
    assert_eq!(parse_framed_packet(&bytes).expect("parses"), Packet::Data(packet));
}

#[test]
fn text_packet_survives_encode_and_parse() {
    let bytes = encode_text_packet(PacketType::Command, "QTM RT Interface connected").expect("encodable");
    assert_eq!(bytes.len(), 8 + 26 + 1);
    assert_eq!(*bytes.last().unwrap(), 0);
    assert_eq!(
        parse_framed_packet(&bytes).expect("parses"),
        Packet::Command("QTM RT Interface connected".to_owned())
    );
}

#[test]
fn framed_packet_with_wrong_size_is_invalid() {
    let mut bytes = encode_framed_packet(PacketType::NoMoreData, &[]).expect("encodable");
    assert_eq!(bytes.len(), 8);
    assert_eq!(parse_framed_packet(&bytes).expect("parses"), Packet::NoMoreData);
    bytes.push(0);
    assert!(matches!(parse_framed_packet(&bytes), Err(QtmError::InvalidPacket(_))));
    assert!(matches!(parse_framed_packet(&bytes[..5]), Err(QtmError::InvalidPacket(_))));
}

#[test]
fn header_with_unknown_type_is_refused() {
    let mut bytes = Vec::new();
    bytes.extend_from_slice(&8u32.to_le_bytes());
    bytes.extend_from_slice(&77u32.to_le_bytes());
    assert!(matches!(parse_packet_header(&bytes), Err(QtmError::UnsupportedPacketType(77))));
    let mut good = Vec::new();
    good.extend_from_slice(&20u32.to_le_bytes());
    good.extend_from_slice(&PacketType::Xml.value().to_le_bytes());
    let header = parse_packet_header(&good).expect("header");
    assert_eq!(header.size, 20);
    assert_eq!(header.packet_type, PacketType::Xml);
}

#[test]
fn decodes_events_and_refuses_unknown_ones() {
    assert_eq!(decode_packet(PacketType::Event, &[1]).expect("event"), Packet::Event(Event::Connected));
    assert!(matches!(decode_packet(PacketType::Event, &[200]), Err(QtmError::UnsupportedEvent(200))));
    assert!(matches!(decode_packet(PacketType::Event, &[]), Err(QtmError::InvalidPacket(_))));
}

#[test]
fn text_payload_must_be_utf8() {
    assert!(matches!(decode_packet(PacketType::Error, &[0xff, 0xfe, 0]), Err(QtmError::Utf8(_))));
    assert_eq!(
        decode_packet(PacketType::Xml, b"<a/>\0").expect("xml"),
        Packet::Xml("<a/>".to_owned())
    );
}

#[test]
fn truncated_component_is_invalid() {
    let mut data_payload = Vec::new();
    data_payload.extend_from_slice(&1u64.to_le_bytes());
    data_payload.extend_from_slice(&1u32.to_le_bytes());
    data_payload.extend_from_slice(&1u32.to_le_bytes());
    data_payload.extend_from_slice(&100u32.to_le_bytes());
    data_payload.extend_from_slice(&1u32.to_le_bytes());
    assert!(matches!(decode_packet(PacketType::Data, &data_payload), Err(QtmError::InvalidPacket(_))));
}

#[test]
fn parsed_data_packet_encodes_to_the_same_bytes() {
    let mut payload: Vec<u8> = Vec::new();
    payload.extend_from_slice(&7u64.to_le_bytes());
    payload.extend_from_slice(&3u32.to_le_bytes());
    payload.extend_from_slice(&2u32.to_le_bytes());
    payload.extend_from_slice(&28u32.to_le_bytes());
    payload.extend_from_slice(&ComponentType::ThreeD.value().to_le_bytes());
    payload.extend_from_slice(&1u32.to_le_bytes());
    payload.extend_from_slice(&(-1i16).to_le_bytes());
    payload.extend_from_slice(&2i16.to_le_bytes());
    payload.extend_from_slice(&1.5f32.to_bits().to_le_bytes());
    payload.extend_from_slice(&(-2.0f32).to_bits().to_le_bytes());
    payload.extend_from_slice(&0x7fc0_0001u32.to_le_bytes());
    payload.extend_from_slice(&11u32.to_le_bytes());
    payload.extend_from_slice(&99u32.to_le_bytes());
    payload.extend_from_slice(&[1, 2, 3]);
    let mut bytes: Vec<u8> = Vec::new();
    bytes.extend_from_slice(&((8 + payload.len()) as u32).to_le_bytes());
    bytes.extend_from_slice(&PacketType::Data.value().to_le_bytes());
    bytes.extend_from_slice(&payload);
    assert_eq!(bytes.len(), 63);
    let packet = match parse_framed_packet(&bytes).expect("parses") {
        Packet::Data(packet) => packet,
        other => panic!("unexpected packet {other:?}"),
    };
    assert_eq!(packet.components.len(), 2);
    assert_eq!(packet.components[1].data, ComponentData::Raw(vec![1, 2, 3]));
    assert_eq!(encode_data_packet(&packet).expect("encodable"), bytes);
}
