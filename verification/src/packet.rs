//! RT packets: the decoded values, their mathematical models, and the
//! framing and decoding of whole packets.
//!
//! Floating-point values of the wire format are kept as their IEEE-754
//! binary32 bit patterns (`u32`), exactly as they travel; `f32::from_bits`
//! turns one into the number.

use vstd::prelude::*;

use crate::protocol::{ComponentType, Event, PacketType};

verus! {

/// The models of a sequence of values, element by element.
pub open spec fn views<T: View>(v: Seq<T>) -> Seq<T::V> {
    v.map_values(|x: T| x@)
}

pub proof fn lemma_views_push<T: View>(v: Seq<T>, x: T)
    ensures
        views(v.push(x)) == views(v).push(x@),
{
    assert(views(v.push(x)) =~= views(v).push(x@));
}

/// The 8-byte header of every RT packet: its total size and its kind.
#[derive(Debug, Clone, PartialEq)]
pub struct PacketHeader {
    pub size: u32,
    pub packet_type: PacketType,
}

/// A decoded RT packet.
#[derive(Debug, Clone, PartialEq)]
pub enum Packet {
    Error(String),
    Command(String),
    Xml(String),
    Data(DataPacket),
    NoMoreData,
    Event(Event),
    Binary { packet_type: PacketType, payload: Vec<u8> },
}

/// A data packet: one frame's components.
#[derive(Debug, Clone, PartialEq)]
pub struct DataPacket {
    pub timestamp: u64,
    pub frame_number: u32,
    pub components: Vec<Component>,
}

/// One component of a data packet, with its wire id.
#[derive(Debug, Clone, PartialEq)]
pub struct Component {
    pub id: u32,
    pub data: ComponentData,
}

/// The decoded payload of a component; `Raw` keeps the payload of a
/// component id this library does not know.
#[derive(Debug, Clone, PartialEq)]
pub enum ComponentData {
    TwoD(TwoDComponent),
    TwoDLinearized(TwoDComponent),
    ThreeD(ThreeDComponent),
    ThreeDResidual(ThreeDResidualComponent),
    ThreeDNoLabels(ThreeDNoLabelsComponent),
    ThreeDNoLabelsResidual(ThreeDNoLabelsResidualComponent),
    SixD(SixDComponent),
    SixDResidual(SixDResidualComponent),
    SixDEuler(SixDEulerComponent),
    SixDEulerResidual(SixDEulerResidualComponent),
    Analog(AnalogComponent),
    AnalogSingle(AnalogSingleComponent),
    Force(ForceComponent),
    ForceSingle(ForceSingleComponent),
    GazeVector(GazeVectorComponent),
    EyeTracker(EyeTrackerComponent),
    Image(ImageComponent),
    Timecode(TimecodeComponent),
    Skeleton(SkeletonComponent),
    Raw(Vec<u8>),
}

#[derive(Debug, Clone, Copy, PartialEq)]
pub struct Marker2D {
    pub x: i32,
    pub y: i32,
    pub diameter_x: i16,
    pub diameter_y: i16,
}

#[derive(Debug, Clone, PartialEq)]
pub struct Camera2D {
    pub status_flag: u8,
    pub markers: Vec<Marker2D>,
}

#[derive(Debug, Clone, PartialEq)]
pub struct TwoDComponent {
    pub drop_rate: i16,
    pub out_of_sync_rate: i16,
    pub cameras: Vec<Camera2D>,
}

/// A point; each coordinate is the bit pattern of an `f32`.
#[derive(Debug, Clone, Copy, PartialEq)]
pub struct Point3 {
    pub x: u32,
    pub y: u32,
    pub z: u32,
}

#[derive(Debug, Clone, Copy, PartialEq)]
pub struct Point3Residual {
    pub x: u32,
    pub y: u32,
    pub z: u32,
    pub residual: u32,
}

#[derive(Debug, Clone, Copy, PartialEq)]
pub struct Point3NoLabel {
    pub x: u32,
    pub y: u32,
    pub z: u32,
    pub id: i32,
}

#[derive(Debug, Clone, Copy, PartialEq)]
pub struct Point3NoLabelResidual {
    pub x: u32,
    pub y: u32,
    pub z: u32,
    pub id: i32,
    pub residual: u32,
}

#[derive(Debug, Clone, PartialEq)]
pub struct ThreeDComponent {
    pub drop_rate: i16,
    pub out_of_sync_rate: i16,
    pub markers: Vec<Point3>,
}

#[derive(Debug, Clone, PartialEq)]
pub struct ThreeDResidualComponent {
    pub drop_rate: i16,
    pub out_of_sync_rate: i16,
    pub markers: Vec<Point3Residual>,
}

#[derive(Debug, Clone, PartialEq)]
pub struct ThreeDNoLabelsComponent {
    pub drop_rate: i16,
    pub out_of_sync_rate: i16,
    pub markers: Vec<Point3NoLabel>,
}

#[derive(Debug, Clone, PartialEq)]
pub struct ThreeDNoLabelsResidualComponent {
    pub drop_rate: i16,
    pub out_of_sync_rate: i16,
    pub markers: Vec<Point3NoLabelResidual>,
}

#[derive(Debug, Clone, Copy, PartialEq)]
pub struct Body6D {
    pub position: Point3,
    pub rotation_matrix: [u32; 9],
}

#[derive(Debug, Clone, Copy, PartialEq)]
pub struct Body6DResidual {
    pub position: Point3,
    pub rotation_matrix: [u32; 9],
    pub residual: u32,
}

#[derive(Debug, Clone, Copy, PartialEq)]
pub struct Body6DEuler {
    pub position: Point3,
    pub euler: [u32; 3],
}

#[derive(Debug, Clone, Copy, PartialEq)]
pub struct Body6DEulerResidual {
    pub position: Point3,
    pub euler: [u32; 3],
    pub residual: u32,
}

#[derive(Debug, Clone, PartialEq)]
pub struct SixDComponent {
    pub drop_rate: i16,
    pub out_of_sync_rate: i16,
    pub bodies: Vec<Body6D>,
}

#[derive(Debug, Clone, PartialEq)]
pub struct SixDResidualComponent {
    pub drop_rate: i16,
    pub out_of_sync_rate: i16,
    pub bodies: Vec<Body6DResidual>,
}

#[derive(Debug, Clone, PartialEq)]
pub struct SixDEulerComponent {
    pub drop_rate: i16,
    pub out_of_sync_rate: i16,
    pub bodies: Vec<Body6DEuler>,
}

#[derive(Debug, Clone, PartialEq)]
pub struct SixDEulerResidualComponent {
    pub drop_rate: i16,
    pub out_of_sync_rate: i16,
    pub bodies: Vec<Body6DEulerResidual>,
}

#[derive(Debug, Clone, PartialEq)]
pub struct AnalogDevice {
    pub device_id: i32,
    pub channel_count: u32,
    pub sample_count: u32,
    pub sample_number: Option<i32>,
    pub channels: Vec<Vec<u32>>,
}

#[derive(Debug, Clone, PartialEq)]
pub struct AnalogComponent {
    pub devices: Vec<AnalogDevice>,
}

#[derive(Debug, Clone, PartialEq)]
pub struct AnalogSingleDevice {
    pub device_id: i32,
    pub channel_count: u32,
    pub samples: Vec<u32>,
}

#[derive(Debug, Clone, PartialEq)]
pub struct AnalogSingleComponent {
    pub devices: Vec<AnalogSingleDevice>,
}

#[derive(Debug, Clone, Copy, PartialEq)]
pub struct ForceSample {
    pub force: [u32; 3],
    pub moment: [u32; 3],
    pub application_point: [u32; 3],
}

#[derive(Debug, Clone, PartialEq)]
pub struct ForcePlate {
    pub plate_id: i32,
    pub force_number: i32,
    pub samples: Vec<ForceSample>,
}

#[derive(Debug, Clone, PartialEq)]
pub struct ForceComponent {
    pub plates: Vec<ForcePlate>,
}

#[derive(Debug, Clone, Copy, PartialEq)]
pub struct ForceSinglePlate {
    pub plate_id: i32,
    pub sample: ForceSample,
}

#[derive(Debug, Clone, PartialEq)]
pub struct ForceSingleComponent {
    pub plates: Vec<ForceSinglePlate>,
}

#[derive(Debug, Clone, Copy, PartialEq)]
pub struct GazeVectorSample {
    pub direction: Point3,
    pub position: Point3,
}

#[derive(Debug, Clone, PartialEq)]
pub struct GazeVectorSeries {
    pub sample_number: i32,
    pub samples: Vec<GazeVectorSample>,
}

#[derive(Debug, Clone, PartialEq)]
pub struct GazeVectorComponent {
    pub vectors: Vec<GazeVectorSeries>,
}

#[derive(Debug, Clone, Copy, PartialEq)]
pub struct EyeTrackerSample {
    pub left_pupil_diameter: u32,
    pub right_pupil_diameter: u32,
}

#[derive(Debug, Clone, PartialEq)]
pub struct EyeTrackerSeries {
    pub sample_number: i32,
    pub samples: Vec<EyeTrackerSample>,
}

#[derive(Debug, Clone, PartialEq)]
pub struct EyeTrackerComponent {
    pub trackers: Vec<EyeTrackerSeries>,
}

#[derive(Debug, Clone, PartialEq)]
pub struct Image {
    pub camera_id: i32,
    pub format: i32,
    pub width: i32,
    pub height: i32,
    pub crop_left: u32,
    pub crop_top: u32,
    pub crop_right: u32,
    pub crop_bottom: u32,
    pub data: Vec<u8>,
}

#[derive(Debug, Clone, PartialEq)]
pub struct ImageComponent {
    pub images: Vec<Image>,
}

#[derive(Debug, Clone, Copy, PartialEq)]
pub struct TimecodeEntry {
    pub timecode_type: i32,
    pub high: u32,
    pub low: u32,
}

#[derive(Debug, Clone, PartialEq)]
pub struct TimecodeComponent {
    pub entries: Vec<TimecodeEntry>,
}

#[derive(Debug, Clone, Copy, PartialEq)]
pub struct Quaternion {
    pub x: u32,
    pub y: u32,
    pub z: u32,
    pub w: u32,
}

#[derive(Debug, Clone, Copy, PartialEq)]
pub struct SkeletonSegment {
    pub id: i32,
    pub position: Point3,
    pub rotation: Quaternion,
}

#[derive(Debug, Clone, PartialEq)]
pub struct Skeleton {
    pub segments: Vec<SkeletonSegment>,
}

#[derive(Debug, Clone, PartialEq)]
pub struct SkeletonComponent {
    pub skeletons: Vec<Skeleton>,
}

// ---------------------------------------------------------------------------
// Models
// ---------------------------------------------------------------------------

pub struct Camera2DModel {
    pub status_flag: u8,
    pub markers: Seq<Marker2D>,
}

/// Model of the 2D, 3D and 6D components: rates and the list of items.
pub struct RatedListModel<T> {
    pub drop_rate: i16,
    pub out_of_sync_rate: i16,
    pub items: Seq<T>,
}

pub struct Body6DModel {
    pub position: Point3,
    pub rotation_matrix: Seq<u32>,
}

pub struct Body6DResidualModel {
    pub position: Point3,
    pub rotation_matrix: Seq<u32>,
    pub residual: u32,
}

pub struct Body6DEulerModel {
    pub position: Point3,
    pub euler: Seq<u32>,
}

pub struct Body6DEulerResidualModel {
    pub position: Point3,
    pub euler: Seq<u32>,
    pub residual: u32,
}

pub struct AnalogDeviceModel {
    pub device_id: i32,
    pub channel_count: u32,
    pub sample_count: u32,
    pub sample_number: Option<i32>,
    pub channels: Seq<Seq<u32>>,
}

pub struct AnalogSingleDeviceModel {
    pub device_id: i32,
    pub channel_count: u32,
    pub samples: Seq<u32>,
}

pub struct ForceSampleModel {
    pub force: Seq<u32>,
    pub moment: Seq<u32>,
    pub application_point: Seq<u32>,
}

pub struct ForcePlateModel {
    pub plate_id: i32,
    pub force_number: i32,
    pub samples: Seq<ForceSampleModel>,
}

pub struct ForceSinglePlateModel {
    pub plate_id: i32,
    pub sample: ForceSampleModel,
}

/// Model of a gaze-vector or eye-tracker series.
pub struct SeriesModel<T> {
    pub sample_number: i32,
    pub samples: Seq<T>,
}

pub struct ImageModel {
    pub camera_id: i32,
    pub format: i32,
    pub width: i32,
    pub height: i32,
    pub crop_left: u32,
    pub crop_top: u32,
    pub crop_right: u32,
    pub crop_bottom: u32,
    pub data: Seq<u8>,
}

pub enum ComponentDataModel {
    TwoD(RatedListModel<Camera2DModel>),
    TwoDLinearized(RatedListModel<Camera2DModel>),
    ThreeD(RatedListModel<Point3>),
    ThreeDResidual(RatedListModel<Point3Residual>),
    ThreeDNoLabels(RatedListModel<Point3NoLabel>),
    ThreeDNoLabelsResidual(RatedListModel<Point3NoLabelResidual>),
    SixD(RatedListModel<Body6DModel>),
    SixDResidual(RatedListModel<Body6DResidualModel>),
    SixDEuler(RatedListModel<Body6DEulerModel>),
    SixDEulerResidual(RatedListModel<Body6DEulerResidualModel>),
    Analog(Seq<AnalogDeviceModel>),
    AnalogSingle(Seq<AnalogSingleDeviceModel>),
    Force(Seq<ForcePlateModel>),
    ForceSingle(Seq<ForceSinglePlateModel>),
    GazeVector(Seq<SeriesModel<GazeVectorSample>>),
    EyeTracker(Seq<SeriesModel<EyeTrackerSample>>),
    Image(Seq<ImageModel>),
    Timecode(Seq<TimecodeEntry>),
    Skeleton(Seq<Seq<SkeletonSegment>>),
    Raw(Seq<u8>),
}

pub struct ComponentModel {
    pub id: u32,
    pub data: ComponentDataModel,
}

pub struct DataPacketModel {
    pub timestamp: u64,
    pub frame_number: u32,
    pub components: Seq<ComponentModel>,
}

pub enum PacketModel {
    Error(Seq<char>),
    Command(Seq<char>),
    Xml(Seq<char>),
    Data(DataPacketModel),
    NoMoreData,
    Event(Event),
    Binary { packet_type: PacketType, payload: Seq<u8> },
}

// ---------------------------------------------------------------------------
// Views
// ---------------------------------------------------------------------------

impl View for Marker2D {
    type V = Marker2D;

    open spec fn view(&self) -> Marker2D {
        *self
    }
}

impl View for Point3 {
    type V = Point3;

    open spec fn view(&self) -> Point3 {
        *self
    }
}

impl View for Point3Residual {
    type V = Point3Residual;

    open spec fn view(&self) -> Point3Residual {
        *self
    }
}

impl View for Point3NoLabel {
    type V = Point3NoLabel;

    open spec fn view(&self) -> Point3NoLabel {
        *self
    }
}

impl View for Point3NoLabelResidual {
    type V = Point3NoLabelResidual;

    open spec fn view(&self) -> Point3NoLabelResidual {
        *self
    }
}

impl View for GazeVectorSample {
    type V = GazeVectorSample;

    open spec fn view(&self) -> GazeVectorSample {
        *self
    }
}

impl View for EyeTrackerSample {
    type V = EyeTrackerSample;

    open spec fn view(&self) -> EyeTrackerSample {
        *self
    }
}

impl View for TimecodeEntry {
    type V = TimecodeEntry;

    open spec fn view(&self) -> TimecodeEntry {
        *self
    }
}

impl View for SkeletonSegment {
    type V = SkeletonSegment;

    open spec fn view(&self) -> SkeletonSegment {
        *self
    }
}

impl View for Camera2D {
    type V = Camera2DModel;

    open spec fn view(&self) -> Camera2DModel {
        Camera2DModel { status_flag: self.status_flag, markers: views(self.markers@) }
    }
}

impl View for TwoDComponent {
    type V = RatedListModel<Camera2DModel>;

    open spec fn view(&self) -> RatedListModel<Camera2DModel> {
        RatedListModel {
            drop_rate: self.drop_rate,
            out_of_sync_rate: self.out_of_sync_rate,
            items: views(self.cameras@),
        }
    }
}

impl View for ThreeDComponent {
    type V = RatedListModel<Point3>;

    open spec fn view(&self) -> RatedListModel<Point3> {
        RatedListModel {
            drop_rate: self.drop_rate,
            out_of_sync_rate: self.out_of_sync_rate,
            items: views(self.markers@),
        }
    }
}

impl View for ThreeDResidualComponent {
    type V = RatedListModel<Point3Residual>;

    open spec fn view(&self) -> RatedListModel<Point3Residual> {
        RatedListModel {
            drop_rate: self.drop_rate,
            out_of_sync_rate: self.out_of_sync_rate,
            items: views(self.markers@),
        }
    }
}

impl View for ThreeDNoLabelsComponent {
    type V = RatedListModel<Point3NoLabel>;

    open spec fn view(&self) -> RatedListModel<Point3NoLabel> {
        RatedListModel {
            drop_rate: self.drop_rate,
            out_of_sync_rate: self.out_of_sync_rate,
            items: views(self.markers@),
        }
    }
}

impl View for ThreeDNoLabelsResidualComponent {
    type V = RatedListModel<Point3NoLabelResidual>;

    open spec fn view(&self) -> RatedListModel<Point3NoLabelResidual> {
        RatedListModel {
            drop_rate: self.drop_rate,
            out_of_sync_rate: self.out_of_sync_rate,
            items: views(self.markers@),
        }
    }
}

impl View for Body6D {
    type V = Body6DModel;

    open spec fn view(&self) -> Body6DModel {
        Body6DModel { position: self.position, rotation_matrix: self.rotation_matrix@ }
    }
}

impl View for Body6DResidual {
    type V = Body6DResidualModel;

    open spec fn view(&self) -> Body6DResidualModel {
        Body6DResidualModel {
            position: self.position,
            rotation_matrix: self.rotation_matrix@,
            residual: self.residual,
        }
    }
}

impl View for Body6DEuler {
    type V = Body6DEulerModel;

    open spec fn view(&self) -> Body6DEulerModel {
        Body6DEulerModel { position: self.position, euler: self.euler@ }
    }
}

impl View for Body6DEulerResidual {
    type V = Body6DEulerResidualModel;

    open spec fn view(&self) -> Body6DEulerResidualModel {
        Body6DEulerResidualModel {
            position: self.position,
            euler: self.euler@,
            residual: self.residual,
        }
    }
}

impl View for SixDComponent {
    type V = RatedListModel<Body6DModel>;

    open spec fn view(&self) -> RatedListModel<Body6DModel> {
        RatedListModel {
            drop_rate: self.drop_rate,
            out_of_sync_rate: self.out_of_sync_rate,
            items: views(self.bodies@),
        }
    }
}

impl View for SixDResidualComponent {
    type V = RatedListModel<Body6DResidualModel>;

    open spec fn view(&self) -> RatedListModel<Body6DResidualModel> {
        RatedListModel {
            drop_rate: self.drop_rate,
            out_of_sync_rate: self.out_of_sync_rate,
            items: views(self.bodies@),
        }
    }
}

impl View for SixDEulerComponent {
    type V = RatedListModel<Body6DEulerModel>;

    open spec fn view(&self) -> RatedListModel<Body6DEulerModel> {
        RatedListModel {
            drop_rate: self.drop_rate,
            out_of_sync_rate: self.out_of_sync_rate,
            items: views(self.bodies@),
        }
    }
}

impl View for SixDEulerResidualComponent {
    type V = RatedListModel<Body6DEulerResidualModel>;

    open spec fn view(&self) -> RatedListModel<Body6DEulerResidualModel> {
        RatedListModel {
            drop_rate: self.drop_rate,
            out_of_sync_rate: self.out_of_sync_rate,
            items: views(self.bodies@),
        }
    }
}

impl View for AnalogDevice {
    type V = AnalogDeviceModel;

    open spec fn view(&self) -> AnalogDeviceModel {
        AnalogDeviceModel {
            device_id: self.device_id,
            channel_count: self.channel_count,
            sample_count: self.sample_count,
            sample_number: self.sample_number,
            channels: views(self.channels@),
        }
    }
}

impl View for AnalogComponent {
    type V = Seq<AnalogDeviceModel>;

    open spec fn view(&self) -> Seq<AnalogDeviceModel> {
        views(self.devices@)
    }
}

impl View for AnalogSingleDevice {
    type V = AnalogSingleDeviceModel;

    open spec fn view(&self) -> AnalogSingleDeviceModel {
        AnalogSingleDeviceModel {
            device_id: self.device_id,
            channel_count: self.channel_count,
            samples: self.samples@,
        }
    }
}

impl View for AnalogSingleComponent {
    type V = Seq<AnalogSingleDeviceModel>;

    open spec fn view(&self) -> Seq<AnalogSingleDeviceModel> {
        views(self.devices@)
    }
}

impl View for ForceSample {
    type V = ForceSampleModel;

    open spec fn view(&self) -> ForceSampleModel {
        ForceSampleModel {
            force: self.force@,
            moment: self.moment@,
            application_point: self.application_point@,
        }
    }
}

impl View for ForcePlate {
    type V = ForcePlateModel;

    open spec fn view(&self) -> ForcePlateModel {
        ForcePlateModel {
            plate_id: self.plate_id,
            force_number: self.force_number,
            samples: views(self.samples@),
        }
    }
}

impl View for ForceComponent {
    type V = Seq<ForcePlateModel>;

    open spec fn view(&self) -> Seq<ForcePlateModel> {
        views(self.plates@)
    }
}

impl View for ForceSinglePlate {
    type V = ForceSinglePlateModel;

    open spec fn view(&self) -> ForceSinglePlateModel {
        ForceSinglePlateModel { plate_id: self.plate_id, sample: self.sample@ }
    }
}

impl View for ForceSingleComponent {
    type V = Seq<ForceSinglePlateModel>;

    open spec fn view(&self) -> Seq<ForceSinglePlateModel> {
        views(self.plates@)
    }
}

impl View for GazeVectorSeries {
    type V = SeriesModel<GazeVectorSample>;

    open spec fn view(&self) -> SeriesModel<GazeVectorSample> {
        SeriesModel { sample_number: self.sample_number, samples: views(self.samples@) }
    }
}

impl View for GazeVectorComponent {
    type V = Seq<SeriesModel<GazeVectorSample>>;

    open spec fn view(&self) -> Seq<SeriesModel<GazeVectorSample>> {
        views(self.vectors@)
    }
}

impl View for EyeTrackerSeries {
    type V = SeriesModel<EyeTrackerSample>;

    open spec fn view(&self) -> SeriesModel<EyeTrackerSample> {
        SeriesModel { sample_number: self.sample_number, samples: views(self.samples@) }
    }
}

impl View for EyeTrackerComponent {
    type V = Seq<SeriesModel<EyeTrackerSample>>;

    open spec fn view(&self) -> Seq<SeriesModel<EyeTrackerSample>> {
        views(self.trackers@)
    }
}

impl View for Image {
    type V = ImageModel;

    open spec fn view(&self) -> ImageModel {
        ImageModel {
            camera_id: self.camera_id,
            format: self.format,
            width: self.width,
            height: self.height,
            crop_left: self.crop_left,
            crop_top: self.crop_top,
            crop_right: self.crop_right,
            crop_bottom: self.crop_bottom,
            data: self.data@,
        }
    }
}

impl View for ImageComponent {
    type V = Seq<ImageModel>;

    open spec fn view(&self) -> Seq<ImageModel> {
        views(self.images@)
    }
}

impl View for TimecodeComponent {
    type V = Seq<TimecodeEntry>;

    open spec fn view(&self) -> Seq<TimecodeEntry> {
        views(self.entries@)
    }
}

impl View for Skeleton {
    type V = Seq<SkeletonSegment>;

    open spec fn view(&self) -> Seq<SkeletonSegment> {
        views(self.segments@)
    }
}

impl View for SkeletonComponent {
    type V = Seq<Seq<SkeletonSegment>>;

    open spec fn view(&self) -> Seq<Seq<SkeletonSegment>> {
        views(self.skeletons@)
    }
}

impl View for ComponentData {
    type V = ComponentDataModel;

    open spec fn view(&self) -> ComponentDataModel {
        match self {
            ComponentData::TwoD(c) => ComponentDataModel::TwoD(c@),
            ComponentData::TwoDLinearized(c) => ComponentDataModel::TwoDLinearized(c@),
            ComponentData::ThreeD(c) => ComponentDataModel::ThreeD(c@),
            ComponentData::ThreeDResidual(c) => ComponentDataModel::ThreeDResidual(c@),
            ComponentData::ThreeDNoLabels(c) => ComponentDataModel::ThreeDNoLabels(c@),
            ComponentData::ThreeDNoLabelsResidual(c) => ComponentDataModel::ThreeDNoLabelsResidual(c@),
            ComponentData::SixD(c) => ComponentDataModel::SixD(c@),
            ComponentData::SixDResidual(c) => ComponentDataModel::SixDResidual(c@),
            ComponentData::SixDEuler(c) => ComponentDataModel::SixDEuler(c@),
            ComponentData::SixDEulerResidual(c) => ComponentDataModel::SixDEulerResidual(c@),
            ComponentData::Analog(c) => ComponentDataModel::Analog(c@),
            ComponentData::AnalogSingle(c) => ComponentDataModel::AnalogSingle(c@),
            ComponentData::Force(c) => ComponentDataModel::Force(c@),
            ComponentData::ForceSingle(c) => ComponentDataModel::ForceSingle(c@),
            ComponentData::GazeVector(c) => ComponentDataModel::GazeVector(c@),
            ComponentData::EyeTracker(c) => ComponentDataModel::EyeTracker(c@),
            ComponentData::Image(c) => ComponentDataModel::Image(c@),
            ComponentData::Timecode(c) => ComponentDataModel::Timecode(c@),
            ComponentData::Skeleton(c) => ComponentDataModel::Skeleton(c@),
            ComponentData::Raw(b) => ComponentDataModel::Raw(b@),
        }
    }
}

impl View for Component {
    type V = ComponentModel;

    open spec fn view(&self) -> ComponentModel {
        ComponentModel { id: self.id, data: self.data@ }
    }
}

impl View for DataPacket {
    type V = DataPacketModel;

    open spec fn view(&self) -> DataPacketModel {
        DataPacketModel {
            timestamp: self.timestamp,
            frame_number: self.frame_number,
            components: views(self.components@),
        }
    }
}

impl View for Packet {
    type V = PacketModel;

    open spec fn view(&self) -> PacketModel {
        match self {
            Packet::Error(s) => PacketModel::Error(s@),
            Packet::Command(s) => PacketModel::Command(s@),
            Packet::Xml(s) => PacketModel::Xml(s@),
            Packet::Data(d) => PacketModel::Data(d@),
            Packet::NoMoreData => PacketModel::NoMoreData,
            Packet::Event(e) => PacketModel::Event(*e),
            Packet::Binary { packet_type, payload } => PacketModel::Binary {
                packet_type: *packet_type,
                payload: payload@,
            },
        }
    }
}


impl DataPacket {
    /// The first component whose id is that of `component_type`, if any.
    pub fn component(&self, component_type: ComponentType) -> (r: Option<&Component>)
        ensures
            match r {
                Some(c) => exists|i: int|
                    0 <= i < self.components@.len() && self.components@[i] == *c
                        && c.id == component_type.spec_value() && forall|j: int|
                        0 <= j < i ==> #[trigger] self.components@[j].id
                            != component_type.spec_value(),
                None => forall|j: int|
                    0 <= j < self.components@.len() ==> #[trigger] self.components@[j].id
                        != component_type.spec_value(),
            },
    {
        let id = component_type.value();
        let mut i: usize = 0;
        while i < self.components.len()
            invariant
                0 <= i <= self.components@.len(),
                id == component_type.spec_value(),
                forall|j: int| 0 <= j < i ==> #[trigger] self.components@[j].id != id,
            decreases self.components.len() - i,
        {
            if self.components[i].id == id {
                return Some(&self.components[i]);
            }
            i = i + 1;
        }
        None
    }
}

impl Component {
    /// The kind this component's id names, if any.
    pub fn component_type(&self) -> (r: Option<ComponentType>)
        ensures
            r == ComponentType::spec_from_value(self.id),
    {
        match ComponentType::try_from_u32(self.id) {
            Ok(t) => Some(t),
            Err(_) => None,
        }
    }
}

} // verus!
