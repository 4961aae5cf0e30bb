//! Decoding of component payloads.
//!
//! Three layouts cover every component kind:
//! - a rated list with an unsigned count (2D, 2D linearized and the 3D kinds):
//!   `u32` count, `i16` drop rate, `i16` out-of-sync rate, the items;
//! - a rated list with a signed count (the 6D kinds): the same with an
//!   `i32` count that must not be negative;
//! - a counted list (every other kind): `i32` count, not negative, then
//!   the items.
//!
//! In each, the items must use up the payload exactly.

use vstd::prelude::*;

use crate::error::QtmError;
use crate::packet::{views, AnalogComponent, AnalogDevice, AnalogSingleComponent, AnalogSingleDevice, Body6D, Body6DEuler, Body6DEulerResidual, Body6DResidual, Camera2D, ComponentData, ComponentDataModel, EyeTrackerComponent, EyeTrackerSeries, ForceComponent, ForcePlate, ForceSingleComponent, ForceSinglePlate, GazeVectorComponent, GazeVectorSeries, Image, ImageComponent, Point3, Point3NoLabel, Point3NoLabelResidual, Point3Residual, RatedListModel, SixDComponent, SixDEulerComponent, SixDEulerResidualComponent, SixDResidualComponent, Skeleton, SkeletonComponent, ThreeDComponent, ThreeDNoLabelsComponent, ThreeDNoLabelsResidualComponent, ThreeDResidualComponent, TimecodeComponent, TimecodeEntry, TwoDComponent};
use crate::protocol::ComponentType;
use crate::records::{read_list, WireRecord};
use crate::wire::{fits, le_i16, le_i32, le_u32, repeat, Cursor, Read};

verus! {

/// What a reader reads when it must use up all of `s`.
pub open spec fn whole<T>(r: Read<T>, s: Seq<u8>) -> Option<T> {
    match r {
        Some((v, end)) => if end == s.len() {
            Some(v)
        } else {
            None
        },
        None => None,
    }
}

/// Whether an exec result agrees with a whole-payload decoding.
pub open spec fn decodes<T: View>(expected: Option<T::V>, r: Result<T, QtmError>) -> bool {
    match r {
        Ok(v) => expected == Some(v@),
        Err(e) => expected is None && e is InvalidPacket,
    }
}

/// A rated list: count (unsigned, or signed and not negative), drop rate,
/// out-of-sync rate and the items, filling the payload exactly.
pub open spec fn spec_rated_list<T>(
    s: Seq<u8>,
    signed: bool,
    item: spec_fn(Seq<u8>, int) -> Read<T>,
) -> Option<RatedListModel<T>> {
    let count: int = if signed {
        le_i32(s, 0) as int
    } else {
        le_u32(s, 0) as int
    };
    if !fits(s, 0, 8) || count < 0 {
        None
    } else {
        match whole(repeat(s, 8, count as nat, item), s) {
            Some(items) => Some(
                RatedListModel { drop_rate: le_i16(s, 4), out_of_sync_rate: le_i16(s, 6), items },
            ),
            None => None,
        }
    }
}

/// A counted list: a signed count, not negative, and the items, filling
/// the payload exactly.
pub open spec fn spec_counted_list<T>(
    s: Seq<u8>,
    item: spec_fn(Seq<u8>, int) -> Read<T>,
) -> Option<Seq<T>> {
    if !fits(s, 0, 4) || le_i32(s, 0) < 0 {
        None
    } else {
        whole(repeat(s, 4, le_i32(s, 0) as nat, item), s)
    }
}

/// Decodes a rated list.
fn parse_rated_list<T: WireRecord>(payload: &[u8], signed: bool, context: &str) -> (r: Result<
    (i16, i16, Vec<T>),
    QtmError,
>)
    ensures
        match r {
            Ok((drop_rate, out_of_sync_rate, items)) => spec_rated_list(
                payload@,
                signed,
                T::record(),
            ) == Some(RatedListModel { drop_rate, out_of_sync_rate, items: views(items@) }),
            Err(e) => spec_rated_list(payload@, signed, T::record()) is None && e is InvalidPacket,
        },
{
    let mut cursor = Cursor::new(payload);
    let count: usize = if signed {
        let count = cursor.read_i32()?;
        crate::wire::to_usize_non_negative(count)?
    } else {
        let count = cursor.read_u32()?;
        crate::wire::to_usize(count)
    };
    let drop_rate = cursor.read_i16()?;
    let out_of_sync_rate = cursor.read_i16()?;
    let items = read_list::<T>(&mut cursor, count)?;
    cursor.expect_exhausted(context)?;
    Ok((drop_rate, out_of_sync_rate, items))
}

/// Decodes a counted list.
fn parse_counted_list<T: WireRecord>(payload: &[u8], context: &str) -> (r: Result<
    Vec<T>,
    QtmError,
>)
    ensures
        match r {
            Ok(items) => spec_counted_list(payload@, T::record()) == Some(views(items@)),
            Err(e) => spec_counted_list(payload@, T::record()) is None && e is InvalidPacket,
        },
{
    let mut cursor = Cursor::new(payload);
    let count = cursor.read_i32()?;
    let count = crate::wire::to_usize_non_negative(count)?;
    let items = read_list::<T>(&mut cursor, count)?;
    cursor.expect_exhausted(context)?;
    Ok(items)
}

pub fn parse_2d_component(payload: &[u8]) -> (r: Result<TwoDComponent, QtmError>)
    ensures
        decodes(spec_rated_list(payload@, false, Camera2D::record()), r),
{
    let (drop_rate, out_of_sync_rate, cameras) = parse_rated_list::<Camera2D>(payload, false, "2D component")?;
    Ok(TwoDComponent { drop_rate, out_of_sync_rate, cameras })
}

pub fn parse_3d_component(payload: &[u8]) -> (r: Result<ThreeDComponent, QtmError>)
    ensures
        decodes(spec_rated_list(payload@, false, Point3::record()), r),
{
    let (drop_rate, out_of_sync_rate, markers) = parse_rated_list::<Point3>(payload, false, "3D component")?;
    Ok(ThreeDComponent { drop_rate, out_of_sync_rate, markers })
}

pub fn parse_3d_residual_component(payload: &[u8]) -> (r: Result<ThreeDResidualComponent, QtmError>)
    ensures
        decodes(spec_rated_list(payload@, false, Point3Residual::record()), r),
{
    let (drop_rate, out_of_sync_rate, markers) = parse_rated_list::<Point3Residual>(payload, false, "3D residual component")?;
    Ok(ThreeDResidualComponent { drop_rate, out_of_sync_rate, markers })
}

pub fn parse_3d_nolabels_component(payload: &[u8]) -> (r: Result<ThreeDNoLabelsComponent, QtmError>)
    ensures
        decodes(spec_rated_list(payload@, false, Point3NoLabel::record()), r),
{
    let (drop_rate, out_of_sync_rate, markers) = parse_rated_list::<Point3NoLabel>(payload, false, "3D no-label component")?;
    Ok(ThreeDNoLabelsComponent { drop_rate, out_of_sync_rate, markers })
}

pub fn parse_3d_nolabels_residual_component(payload: &[u8]) -> (r: Result<ThreeDNoLabelsResidualComponent, QtmError>)
    ensures
        decodes(spec_rated_list(payload@, false, Point3NoLabelResidual::record()), r),
{
    let (drop_rate, out_of_sync_rate, markers) = parse_rated_list::<Point3NoLabelResidual>(payload, false, "3D no-label residual component")?;
    Ok(ThreeDNoLabelsResidualComponent { drop_rate, out_of_sync_rate, markers })
}

pub fn parse_6d_component(payload: &[u8]) -> (r: Result<SixDComponent, QtmError>)
    ensures
        decodes(spec_rated_list(payload@, true, Body6D::record()), r),
{
    let (drop_rate, out_of_sync_rate, bodies) = parse_rated_list::<Body6D>(payload, true, "6D component")?;
    Ok(SixDComponent { drop_rate, out_of_sync_rate, bodies })
}

pub fn parse_6d_residual_component(payload: &[u8]) -> (r: Result<SixDResidualComponent, QtmError>)
    ensures
        decodes(spec_rated_list(payload@, true, Body6DResidual::record()), r),
{
    let (drop_rate, out_of_sync_rate, bodies) = parse_rated_list::<Body6DResidual>(payload, true, "6D residual component")?;
    Ok(SixDResidualComponent { drop_rate, out_of_sync_rate, bodies })
}

pub fn parse_6d_euler_component(payload: &[u8]) -> (r: Result<SixDEulerComponent, QtmError>)
    ensures
        decodes(spec_rated_list(payload@, true, Body6DEuler::record()), r),
{
    let (drop_rate, out_of_sync_rate, bodies) = parse_rated_list::<Body6DEuler>(payload, true, "6D euler component")?;
    Ok(SixDEulerComponent { drop_rate, out_of_sync_rate, bodies })
}

pub fn parse_6d_euler_residual_component(payload: &[u8]) -> (r: Result<SixDEulerResidualComponent, QtmError>)
    ensures
        decodes(spec_rated_list(payload@, true, Body6DEulerResidual::record()), r),
{
    let (drop_rate, out_of_sync_rate, bodies) = parse_rated_list::<Body6DEulerResidual>(payload, true, "6D euler residual component")?;
    Ok(SixDEulerResidualComponent { drop_rate, out_of_sync_rate, bodies })
}

pub fn parse_analog_component(payload: &[u8]) -> (r: Result<AnalogComponent, QtmError>)
    ensures
        decodes(spec_counted_list(payload@, AnalogDevice::record()), r),
{
    let devices = parse_counted_list::<AnalogDevice>(payload, "analog component")?;
    Ok(AnalogComponent { devices })
}

pub fn parse_analog_single_component(payload: &[u8]) -> (r: Result<AnalogSingleComponent, QtmError>)
    ensures
        decodes(spec_counted_list(payload@, AnalogSingleDevice::record()), r),
{
    let devices = parse_counted_list::<AnalogSingleDevice>(payload, "analog single component")?;
    Ok(AnalogSingleComponent { devices })
}

pub fn parse_force_component(payload: &[u8]) -> (r: Result<ForceComponent, QtmError>)
    ensures
        decodes(spec_counted_list(payload@, ForcePlate::record()), r),
{
    let plates = parse_counted_list::<ForcePlate>(payload, "force component")?;
    Ok(ForceComponent { plates })
}

pub fn parse_force_single_component(payload: &[u8]) -> (r: Result<ForceSingleComponent, QtmError>)
    ensures
        decodes(spec_counted_list(payload@, ForceSinglePlate::record()), r),
{
    let plates = parse_counted_list::<ForceSinglePlate>(payload, "force single component")?;
    Ok(ForceSingleComponent { plates })
}

pub fn parse_gaze_vector_component(payload: &[u8]) -> (r: Result<GazeVectorComponent, QtmError>)
    ensures
        decodes(spec_counted_list(payload@, GazeVectorSeries::record()), r),
{
    let vectors = parse_counted_list::<GazeVectorSeries>(payload, "gaze vector component")?;
    Ok(GazeVectorComponent { vectors })
}

pub fn parse_eye_tracker_component(payload: &[u8]) -> (r: Result<EyeTrackerComponent, QtmError>)
    ensures
        decodes(spec_counted_list(payload@, EyeTrackerSeries::record()), r),
{
    let trackers = parse_counted_list::<EyeTrackerSeries>(payload, "eye tracker component")?;
    Ok(EyeTrackerComponent { trackers })
}

pub fn parse_image_component(payload: &[u8]) -> (r: Result<ImageComponent, QtmError>)
    ensures
        decodes(spec_counted_list(payload@, Image::record()), r),
{
    let images = parse_counted_list::<Image>(payload, "image component")?;
    Ok(ImageComponent { images })
}

pub fn parse_timecode_component(payload: &[u8]) -> (r: Result<TimecodeComponent, QtmError>)
    ensures
        decodes(spec_counted_list(payload@, TimecodeEntry::record()), r),
{
    let entries = parse_counted_list::<TimecodeEntry>(payload, "timecode component")?;
    Ok(TimecodeComponent { entries })
}

pub fn parse_skeleton_component(payload: &[u8]) -> (r: Result<SkeletonComponent, QtmError>)
    ensures
        decodes(spec_counted_list(payload@, Skeleton::record()), r),
{
    let skeletons = parse_counted_list::<Skeleton>(payload, "skeleton component")?;
    Ok(SkeletonComponent { skeletons })
}

/// What a component payload decodes as, by its id: the layout of the kind
/// the id names, or the raw bytes for an id no kind has.
pub open spec fn spec_component_data(id: u32, p: Seq<u8>) -> Option<ComponentDataModel> {
    match ComponentType::spec_from_value(id) {
        Some(ComponentType::TwoD) => match spec_rated_list(p, false, Camera2D::record()) {
            Some(m) => Some(ComponentDataModel::TwoD(m)),
            None => None,
        },
        Some(ComponentType::TwoDLinearized) => match spec_rated_list(p, false, Camera2D::record()) {
            Some(m) => Some(ComponentDataModel::TwoDLinearized(m)),
            None => None,
        },
        Some(ComponentType::ThreeD) => match spec_rated_list(p, false, Point3::record()) {
            Some(m) => Some(ComponentDataModel::ThreeD(m)),
            None => None,
        },
        Some(ComponentType::ThreeDResidual) => match spec_rated_list(p, false, Point3Residual::record()) {
            Some(m) => Some(ComponentDataModel::ThreeDResidual(m)),
            None => None,
        },
        Some(ComponentType::ThreeDNoLabels) => match spec_rated_list(p, false, Point3NoLabel::record()) {
            Some(m) => Some(ComponentDataModel::ThreeDNoLabels(m)),
            None => None,
        },
        Some(ComponentType::ThreeDNoLabelsResidual) => match spec_rated_list(p, false, Point3NoLabelResidual::record()) {
            Some(m) => Some(ComponentDataModel::ThreeDNoLabelsResidual(m)),
            None => None,
        },
        Some(ComponentType::SixD) => match spec_rated_list(p, true, Body6D::record()) {
            Some(m) => Some(ComponentDataModel::SixD(m)),
            None => None,
        },
        Some(ComponentType::SixDResidual) => match spec_rated_list(p, true, Body6DResidual::record()) {
            Some(m) => Some(ComponentDataModel::SixDResidual(m)),
            None => None,
        },
        Some(ComponentType::SixDEuler) => match spec_rated_list(p, true, Body6DEuler::record()) {
            Some(m) => Some(ComponentDataModel::SixDEuler(m)),
            None => None,
        },
        Some(ComponentType::SixDEulerResidual) => match spec_rated_list(p, true, Body6DEulerResidual::record()) {
            Some(m) => Some(ComponentDataModel::SixDEulerResidual(m)),
            None => None,
        },
        Some(ComponentType::Analog) => match spec_counted_list(p, AnalogDevice::record()) {
            Some(m) => Some(ComponentDataModel::Analog(m)),
            None => None,
        },
        Some(ComponentType::AnalogSingle) => match spec_counted_list(p, AnalogSingleDevice::record()) {
            Some(m) => Some(ComponentDataModel::AnalogSingle(m)),
            None => None,
        },
        Some(ComponentType::Force) => match spec_counted_list(p, ForcePlate::record()) {
            Some(m) => Some(ComponentDataModel::Force(m)),
            None => None,
        },
        Some(ComponentType::ForceSingle) => match spec_counted_list(p, ForceSinglePlate::record()) {
            Some(m) => Some(ComponentDataModel::ForceSingle(m)),
            None => None,
        },
        Some(ComponentType::GazeVector) => match spec_counted_list(p, GazeVectorSeries::record()) {
            Some(m) => Some(ComponentDataModel::GazeVector(m)),
            None => None,
        },
        Some(ComponentType::EyeTracker) => match spec_counted_list(p, EyeTrackerSeries::record()) {
            Some(m) => Some(ComponentDataModel::EyeTracker(m)),
            None => None,
        },
        Some(ComponentType::Image) => match spec_counted_list(p, Image::record()) {
            Some(m) => Some(ComponentDataModel::Image(m)),
            None => None,
        },
        Some(ComponentType::Timecode) => match spec_counted_list(p, TimecodeEntry::record()) {
            Some(m) => Some(ComponentDataModel::Timecode(m)),
            None => None,
        },
        Some(ComponentType::Skeleton) => match spec_counted_list(p, Skeleton::record()) {
            Some(m) => Some(ComponentDataModel::Skeleton(m)),
            None => None,
        },
        None => Some(ComponentDataModel::Raw(p)),
    }
}

/// Decodes a component payload by its id.
pub fn parse_component(component_id: u32, payload: &[u8]) -> (r: Result<ComponentData, QtmError>)
    ensures
        decodes(spec_component_data(component_id, payload@), r),
{
    let data = match ComponentType::try_from_u32(component_id) {
        Ok(ComponentType::TwoD) => ComponentData::TwoD(parse_2d_component(payload)?),
        Ok(ComponentType::TwoDLinearized) => ComponentData::TwoDLinearized(parse_2d_component(payload)?),
        Ok(ComponentType::ThreeD) => ComponentData::ThreeD(parse_3d_component(payload)?),
        Ok(ComponentType::ThreeDResidual) => ComponentData::ThreeDResidual(parse_3d_residual_component(payload)?),
        Ok(ComponentType::ThreeDNoLabels) => ComponentData::ThreeDNoLabels(parse_3d_nolabels_component(payload)?),
        Ok(ComponentType::ThreeDNoLabelsResidual) => ComponentData::ThreeDNoLabelsResidual(parse_3d_nolabels_residual_component(payload)?),
        Ok(ComponentType::SixD) => ComponentData::SixD(parse_6d_component(payload)?),
        Ok(ComponentType::SixDResidual) => ComponentData::SixDResidual(parse_6d_residual_component(payload)?),
        Ok(ComponentType::SixDEuler) => ComponentData::SixDEuler(parse_6d_euler_component(payload)?),
        Ok(ComponentType::SixDEulerResidual) => ComponentData::SixDEulerResidual(parse_6d_euler_residual_component(payload)?),
        Ok(ComponentType::Analog) => ComponentData::Analog(parse_analog_component(payload)?),
        Ok(ComponentType::AnalogSingle) => ComponentData::AnalogSingle(parse_analog_single_component(payload)?),
        Ok(ComponentType::Force) => ComponentData::Force(parse_force_component(payload)?),
        Ok(ComponentType::ForceSingle) => ComponentData::ForceSingle(parse_force_single_component(payload)?),
        Ok(ComponentType::GazeVector) => ComponentData::GazeVector(parse_gaze_vector_component(payload)?),
        Ok(ComponentType::EyeTracker) => ComponentData::EyeTracker(parse_eye_tracker_component(payload)?),
        Ok(ComponentType::Image) => ComponentData::Image(parse_image_component(payload)?),
        Ok(ComponentType::Timecode) => ComponentData::Timecode(parse_timecode_component(payload)?),
        Ok(ComponentType::Skeleton) => ComponentData::Skeleton(parse_skeleton_component(payload)?),
        Err(_) => ComponentData::Raw(vstd::slice::slice_to_vec(payload)),
    };
    Ok(data)
}

} // verus!
