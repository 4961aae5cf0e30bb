use qualisys_rust_sdk::bridge::FrameAccumulator;
use qualisys_rust_sdk::packet::{Component, ComponentData, DataPacket, Point3, ThreeDComponent};
use qualisys_rust_sdk::protocol::{ComponentSelection, ComponentType};

fn point(x: f32, y: f32, z: f32) -> Point3 {
    Point3 { x: x.to_bits(), y: y.to_bits(), z: z.to_bits() }
}

#[test]
fn accumulates_udp_split_frames() {
    let mut accumulator = FrameAccumulator::for_components(vec![
        ComponentSelection::ThreeD,
        ComponentSelection::SixD,
    ]);

    let partial = DataPacket {
        timestamp: 10,
        frame_number: 99,
        components: vec![Component {
            id: ComponentType::ThreeD.value(),
            data: ComponentData::ThreeD(ThreeDComponent {
                drop_rate: 0,
                out_of_sync_rate: 0,
                markers: vec![point(1.0, 2.0, 3.0)],
            }),
        }],
    };

    assert!(accumulator.push(partial).is_empty());

    let complete = DataPacket {
        timestamp: 10,
        frame_number: 99,
        components: vec![Component {
            id: ComponentType::SixD.value(),
            data: ComponentData::Raw(vec![1, 2, 3]),
        }],
    };

    let emitted = accumulator.push(complete);
    assert_eq!(emitted.len(), 1);
    assert!(emitted[0].complete);
    assert_eq!(emitted[0].components.len(), 2);
}

#[test]
fn flushes_incomplete_frame_when_new_frame_arrives() {
    let mut accumulator = FrameAccumulator::for_components(vec![ComponentSelection::ThreeD]);
    let first = DataPacket {
        timestamp: 1,
        frame_number: 1,
        components: vec![],
    };
    let second = DataPacket {
        timestamp: 2,
        frame_number: 2,
        components: vec![],
    };

    assert!(accumulator.push(first).is_empty());
    let emitted = accumulator.push(second);
    assert_eq!(emitted.len(), 1);
    assert!(!emitted[0].complete);
    assert_eq!(emitted[0].frame_number, 1);
}

#[test]
fn empty_expectation_completes_every_packet() {
    let mut accumulator = FrameAccumulator::new(vec![]);
    let emitted = accumulator.push(DataPacket { timestamp: 5, frame_number: 3, components: vec![] });
    assert_eq!(emitted.len(), 1);
    assert!(emitted[0].complete);
    assert!(accumulator.flush().is_none());
}

#[test]
fn flush_hands_out_pending_frame_once() {
    let mut accumulator = FrameAccumulator::for_components(vec![ComponentSelection::SixD]);
    assert!(accumulator
        .push(DataPacket { timestamp: 7, frame_number: 8, components: vec![] })
        .is_empty());
    let pending = accumulator.flush().expect("a pending frame");
    assert_eq!(pending.frame_number, 8);
    assert_eq!(pending.timestamp, 7);
    assert!(!pending.complete);
    assert!(accumulator.flush().is_none());
}

#[test]
fn assembled_frame_looks_up_components_by_kind() {
    let mut accumulator = FrameAccumulator::for_components(vec![ComponentSelection::SixD]);
    let emitted = accumulator.push(DataPacket {
        timestamp: 1,
        frame_number: 1,
        components: vec![Component { id: ComponentType::SixD.value(), data: ComponentData::Raw(vec![9]) }],
    });
    assert_eq!(emitted.len(), 1);
    let six_d = emitted[0].component(ComponentType::SixD).expect("6D component");
    assert_eq!(six_d.data, ComponentData::Raw(vec![9]));
    assert!(emitted[0].component(ComponentType::ThreeD).is_none());
}
