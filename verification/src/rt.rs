//! The RT-facing items of the library in one place, with the names the
//! other Qualisys SDKs use for them.

use vstd::prelude::*;

pub use crate::bridge::{AssembledFrame, BytePublisher, FrameAccumulator, FrameEncoder, FrameSink};
pub use crate::error::QtmError;
pub use crate::packet::{Component, ComponentData, DataPacket, Packet, PacketHeader};
pub use crate::parameters::{
    parse_mocap_parameters_xml, MocapParameters, MocapRigidBody, MocapRigidBodyPoint,
    MocapSixDParameters, MocapSkeleton, MocapSkeletonMarker, MocapSkeletonParameters,
    MocapSkeletonRigidBody, MocapSkeletonSegment, MocapThreeDBone, MocapThreeDLabel,
    MocapThreeDParameters, MocapTransform,
};
pub use crate::protocol::{
    latest_protocol_version, ComponentSelection, ComponentType, Event, PacketType,
    ParameterSelection, ProtocolVersion, StreamFramesRequest, StreamRate, StreamTransport,
    BASE_PORT, BIG_ENDIAN_PORT, INITIAL_GREETING, LITTLE_ENDIAN_PORT,
};
pub use crate::session::{ConnectOptions, StreamPacket};

verus! {

pub type ClientOptions = ConnectOptions;

pub type RTPacket = DataPacket;

pub type RTPacketType = PacketType;

pub type RTComponentType = ComponentType;

pub type RTEvent = Event;

pub type QRTPacket = DataPacket;

pub type QRTPacketType = PacketType;

pub type QRTComponentType = ComponentType;

pub type QRTEvent = Event;

} // verus!
