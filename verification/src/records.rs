//! The records that make up component payloads: what bytes read as each of
//! them, and the exec readers that decode them from a cursor.

use vstd::prelude::*;

use crate::error::QtmError;
use crate::packet::{
    lemma_views_push, views, AnalogDevice, AnalogDeviceModel, AnalogSingleDevice,
    AnalogSingleDeviceModel, Body6D, Body6DEuler, Body6DEulerModel, Body6DEulerResidual,
    Body6DEulerResidualModel, Body6DModel, Body6DResidual, Body6DResidualModel, Camera2D,
    Camera2DModel, EyeTrackerSample, EyeTrackerSeries, ForcePlate, ForcePlateModel, ForceSample,
    ForceSampleModel, ForceSinglePlate, ForceSinglePlateModel, GazeVectorSample,
    GazeVectorSeries, Image, ImageModel, Marker2D, Point3, Point3NoLabel, Point3NoLabelResidual,
    Point3Residual, Quaternion, SeriesModel, Skeleton, SkeletonSegment, TimecodeEntry,
};
use crate::wire::{
    fits, le_i16, le_i32, le_u32, lemma_repeat_fails, lemma_repeat_step, rd_u32, reads, repeat,
    to_usize_non_negative, Cursor, Read,
};
use vstd::slice::slice_to_vec;

verus! {

/// A value that can be read from the wire, one record at a time.
pub trait WireRecord: View + Sized {
    /// What the bytes at an offset read as.
    spec fn record() -> spec_fn(Seq<u8>, int) -> Read<Self::V>;

    /// Reads one record at the cursor.
    fn read_record(c: &mut Cursor) -> (r: Result<Self, QtmError>)
        requires
            old(c).wf(),
        ensures
            final(c).wf(),
            final(c).data() == old(c).data(),
            reads(Self::record()(old(c).data(), old(c).offset as int), r, final(c).offset as int),
    ;
}

/// Whether an exec list agrees with a repetition of a reader.
pub open spec fn reads_list<T: View>(
    expected: Read<Seq<T::V>>,
    r: Result<Vec<T>, QtmError>,
    end: int,
) -> bool {
    match r {
        Ok(v) => expected == Some((views(v@), end)),
        Err(e) => expected is None && e is InvalidPacket,
    }
}

/// Reads `n` records one after the other.
pub fn read_list<T: WireRecord>(c: &mut Cursor, n: usize) -> (r: Result<Vec<T>, QtmError>)
    requires
        old(c).wf(),
    ensures
        final(c).wf(),
        final(c).data() == old(c).data(),
        reads_list(
            repeat(old(c).data(), old(c).offset as int, n as nat, T::record()),
            r,
            final(c).offset as int,
        ),
{
    let ghost s = c.data();
    let ghost o = c.offset as int;
    let mut v: Vec<T> = Vec::new();
    let mut i: usize = 0;
    assert(views(v@) =~= Seq::<T::V>::empty());
    while i < n
        invariant
            c.wf(),
            c.data() == s,
            s == old(c).data(),
            o == old(c).offset as int,
            0 <= i <= n,
            repeat(s, o, i as nat, T::record()) == Some((views(v@), c.offset as int)),
        decreases n - i,
    {
        let ghost before = c.offset as int;
        proof {
            lemma_repeat_step(s, o, i as nat, T::record(), views(v@), before);
        }
        match T::read_record(c) {
            Ok(x) => {
                proof {
                    lemma_views_push(v@, x);
                }
                v.push(x);
            },
            Err(e) => {
                proof {
                    lemma_repeat_fails(s, o, (i + 1) as nat, n as nat, T::record());
                }
                return Err(e);
            },
        }
        i = i + 1;
    }
    Ok(v)
}

/// The little-endian `u32` words at offset `o`, `n` of them.
pub open spec fn u32s_at(s: Seq<u8>, o: int, n: nat) -> Seq<u32> {
    Seq::new(n, |i: int| le_u32(s, o + 4 * i))
}

pub open spec fn point3_at(s: Seq<u8>, o: int) -> Point3 {
    Point3 { x: le_u32(s, o), y: le_u32(s, o + 4), z: le_u32(s, o + 8) }
}

} // verus!

verus! {

pub open spec fn rd_word(s: Seq<u8>, o: int) -> Read<u32> {
    rd_u32(s, o)
}

impl WireRecord for u32 {
    open spec fn record() -> spec_fn(Seq<u8>, int) -> Read<u32> {
        |s: Seq<u8>, o: int| rd_word(s, o)
    }

    fn read_record(c: &mut Cursor) -> (r: Result<u32, QtmError>) {
        c.read_u32()
    }
}

pub open spec fn rd_marker2d(s: Seq<u8>, o: int) -> Read<Marker2D> {
    if fits(s, o, 12) {
        Some(
            (
                Marker2D {
                    x: le_i32(s, o),
                    y: le_i32(s, o + 4),
                    diameter_x: le_i16(s, o + 8),
                    diameter_y: le_i16(s, o + 10),
                },
                o + 12,
            ),
        )
    } else {
        None
    }
}

impl WireRecord for Marker2D {
    open spec fn record() -> spec_fn(Seq<u8>, int) -> Read<Marker2D> {
        |s: Seq<u8>, o: int| rd_marker2d(s, o)
    }

    fn read_record(c: &mut Cursor) -> (r: Result<Marker2D, QtmError>) {
        let x = c.read_i32()?;
        let y = c.read_i32()?;
        let diameter_x = c.read_i16()?;
        let diameter_y = c.read_i16()?;
        Ok(Marker2D { x, y, diameter_x, diameter_y })
    }
}

pub open spec fn rd_point3(s: Seq<u8>, o: int) -> Read<Point3> {
    if fits(s, o, 12) {
        Some((point3_at(s, o), o + 12))
    } else {
        None
    }
}

/// Reads three words as a point.
pub fn read_point3(c: &mut Cursor) -> (r: Result<Point3, QtmError>)
    requires
        old(c).wf(),
    ensures
        final(c).wf(),
        final(c).data() == old(c).data(),
        reads(rd_point3(old(c).data(), old(c).offset as int), r, final(c).offset as int),
{
    let x = c.read_u32()?;
    let y = c.read_u32()?;
    let z = c.read_u32()?;
    Ok(Point3 { x, y, z })
}

impl WireRecord for Point3 {
    open spec fn record() -> spec_fn(Seq<u8>, int) -> Read<Point3> {
        |s: Seq<u8>, o: int| rd_point3(s, o)
    }

    fn read_record(c: &mut Cursor) -> (r: Result<Point3, QtmError>) {
        read_point3(c)
    }
}

pub open spec fn rd_point3_residual(s: Seq<u8>, o: int) -> Read<Point3Residual> {
    if fits(s, o, 16) {
        Some(
            (
                Point3Residual {
                    x: le_u32(s, o),
                    y: le_u32(s, o + 4),
                    z: le_u32(s, o + 8),
                    residual: le_u32(s, o + 12),
                },
                o + 16,
            ),
        )
    } else {
        None
    }
}

impl WireRecord for Point3Residual {
    open spec fn record() -> spec_fn(Seq<u8>, int) -> Read<Point3Residual> {
        |s: Seq<u8>, o: int| rd_point3_residual(s, o)
    }

    fn read_record(c: &mut Cursor) -> (r: Result<Point3Residual, QtmError>) {
        let x = c.read_u32()?;
        let y = c.read_u32()?;
        let z = c.read_u32()?;
        let residual = c.read_u32()?;
        Ok(Point3Residual { x, y, z, residual })
    }
}

pub open spec fn rd_point3_nolabel(s: Seq<u8>, o: int) -> Read<Point3NoLabel> {
    if fits(s, o, 16) {
        Some(
            (
                Point3NoLabel {
                    x: le_u32(s, o),
                    y: le_u32(s, o + 4),
                    z: le_u32(s, o + 8),
                    id: le_i32(s, o + 12),
                },
                o + 16,
            ),
        )
    } else {
        None
    }
}

impl WireRecord for Point3NoLabel {
    open spec fn record() -> spec_fn(Seq<u8>, int) -> Read<Point3NoLabel> {
        |s: Seq<u8>, o: int| rd_point3_nolabel(s, o)
    }

    fn read_record(c: &mut Cursor) -> (r: Result<Point3NoLabel, QtmError>) {
        let x = c.read_u32()?;
        let y = c.read_u32()?;
        let z = c.read_u32()?;
        let id = c.read_i32()?;
        Ok(Point3NoLabel { x, y, z, id })
    }
}

pub open spec fn rd_point3_nolabel_residual(s: Seq<u8>, o: int) -> Read<Point3NoLabelResidual> {
    if fits(s, o, 20) {
        Some(
            (
                Point3NoLabelResidual {
                    x: le_u32(s, o),
                    y: le_u32(s, o + 4),
                    z: le_u32(s, o + 8),
                    id: le_i32(s, o + 12),
                    residual: le_u32(s, o + 16),
                },
                o + 20,
            ),
        )
    } else {
        None
    }
}

impl WireRecord for Point3NoLabelResidual {
    open spec fn record() -> spec_fn(Seq<u8>, int) -> Read<Point3NoLabelResidual> {
        |s: Seq<u8>, o: int| rd_point3_nolabel_residual(s, o)
    }

    fn read_record(c: &mut Cursor) -> (r: Result<Point3NoLabelResidual, QtmError>) {
        let x = c.read_u32()?;
        let y = c.read_u32()?;
        let z = c.read_u32()?;
        let id = c.read_i32()?;
        let residual = c.read_u32()?;
        Ok(Point3NoLabelResidual { x, y, z, id, residual })
    }
}

/// Three words in a row.
pub open spec fn rd_words3(s: Seq<u8>, o: int) -> Read<Seq<u32>> {
    if fits(s, o, 12) {
        Some((u32s_at(s, o, 3), o + 12))
    } else {
        None
    }
}

/// Nine words in a row.
pub open spec fn rd_words9(s: Seq<u8>, o: int) -> Read<Seq<u32>> {
    if fits(s, o, 36) {
        Some((u32s_at(s, o, 9), o + 36))
    } else {
        None
    }
}

pub fn read_words3(c: &mut Cursor) -> (r: Result<[u32; 3], QtmError>)
    requires
        old(c).wf(),
    ensures
        final(c).wf(),
        final(c).data() == old(c).data(),
        reads(rd_words3(old(c).data(), old(c).offset as int), r, final(c).offset as int),
{
    let ghost s = c.data();
    let ghost o = c.offset as int;
    let a = c.read_u32()?;
    let b = c.read_u32()?;
    let d = c.read_u32()?;
    let words = [a, b, d];
    assert(words@ =~= u32s_at(s, o, 3));
    Ok(words)
}

pub fn read_words9(c: &mut Cursor) -> (r: Result<[u32; 9], QtmError>)
    requires
        old(c).wf(),
    ensures
        final(c).wf(),
        final(c).data() == old(c).data(),
        reads(rd_words9(old(c).data(), old(c).offset as int), r, final(c).offset as int),
{
    let ghost s = c.data();
    let ghost o = c.offset as int;
    let w0 = c.read_u32()?;
    let w1 = c.read_u32()?;
    let w2 = c.read_u32()?;
    let w3 = c.read_u32()?;
    let w4 = c.read_u32()?;
    let w5 = c.read_u32()?;
    let w6 = c.read_u32()?;
    let w7 = c.read_u32()?;
    let w8 = c.read_u32()?;
    let words = [w0, w1, w2, w3, w4, w5, w6, w7, w8];
    assert(words@ =~= u32s_at(s, o, 9));
    Ok(words)
}


/// The models of 32-bit words are the words themselves.
pub proof fn lemma_views_words(v: Seq<u32>)
    ensures
        views(v) == v,
{
    assert(views(v) =~= v);
}

pub open spec fn rd_body6d(s: Seq<u8>, o: int) -> Read<Body6DModel> {
    if fits(s, o, 48) {
        Some((Body6DModel { position: point3_at(s, o), rotation_matrix: u32s_at(s, o + 12, 9) }, o + 48))
    } else {
        None
    }
}

impl WireRecord for Body6D {
    open spec fn record() -> spec_fn(Seq<u8>, int) -> Read<Body6DModel> {
        |s: Seq<u8>, o: int| rd_body6d(s, o)
    }

    fn read_record(c: &mut Cursor) -> (r: Result<Body6D, QtmError>) {
        let position = read_point3(c)?;
        let rotation_matrix = read_words9(c)?;
        Ok(Body6D { position, rotation_matrix })
    }
}

pub open spec fn rd_body6d_residual(s: Seq<u8>, o: int) -> Read<Body6DResidualModel> {
    if fits(s, o, 52) {
        Some(
            (
                Body6DResidualModel {
                    position: point3_at(s, o),
                    rotation_matrix: u32s_at(s, o + 12, 9),
                    residual: le_u32(s, o + 48),
                },
                o + 52,
            ),
        )
    } else {
        None
    }
}

impl WireRecord for Body6DResidual {
    open spec fn record() -> spec_fn(Seq<u8>, int) -> Read<Body6DResidualModel> {
        |s: Seq<u8>, o: int| rd_body6d_residual(s, o)
    }

    fn read_record(c: &mut Cursor) -> (r: Result<Body6DResidual, QtmError>) {
        let position = read_point3(c)?;
        let rotation_matrix = read_words9(c)?;
        let residual = c.read_u32()?;
        Ok(Body6DResidual { position, rotation_matrix, residual })
    }
}

pub open spec fn rd_body6d_euler(s: Seq<u8>, o: int) -> Read<Body6DEulerModel> {
    if fits(s, o, 24) {
        Some((Body6DEulerModel { position: point3_at(s, o), euler: u32s_at(s, o + 12, 3) }, o + 24))
    } else {
        None
    }
}

impl WireRecord for Body6DEuler {
    open spec fn record() -> spec_fn(Seq<u8>, int) -> Read<Body6DEulerModel> {
        |s: Seq<u8>, o: int| rd_body6d_euler(s, o)
    }

    fn read_record(c: &mut Cursor) -> (r: Result<Body6DEuler, QtmError>) {
        let position = read_point3(c)?;
        let euler = read_words3(c)?;
        Ok(Body6DEuler { position, euler })
    }
}

pub open spec fn rd_body6d_euler_residual(s: Seq<u8>, o: int) -> Read<Body6DEulerResidualModel> {
    if fits(s, o, 28) {
        Some(
            (
                Body6DEulerResidualModel {
                    position: point3_at(s, o),
                    euler: u32s_at(s, o + 12, 3),
                    residual: le_u32(s, o + 24),
                },
                o + 28,
            ),
        )
    } else {
        None
    }
}

impl WireRecord for Body6DEulerResidual {
    open spec fn record() -> spec_fn(Seq<u8>, int) -> Read<Body6DEulerResidualModel> {
        |s: Seq<u8>, o: int| rd_body6d_euler_residual(s, o)
    }

    fn read_record(c: &mut Cursor) -> (r: Result<Body6DEulerResidual, QtmError>) {
        let position = read_point3(c)?;
        let euler = read_words3(c)?;
        let residual = c.read_u32()?;
        Ok(Body6DEulerResidual { position, euler, residual })
    }
}

pub open spec fn force_sample_at(s: Seq<u8>, o: int) -> ForceSampleModel {
    ForceSampleModel {
        force: u32s_at(s, o, 3),
        moment: u32s_at(s, o + 12, 3),
        application_point: u32s_at(s, o + 24, 3),
    }
}

pub open spec fn rd_force_sample(s: Seq<u8>, o: int) -> Read<ForceSampleModel> {
    if fits(s, o, 36) {
        Some((force_sample_at(s, o), o + 36))
    } else {
        None
    }
}

pub fn read_force_sample(c: &mut Cursor) -> (r: Result<ForceSample, QtmError>)
    requires
        old(c).wf(),
    ensures
        final(c).wf(),
        final(c).data() == old(c).data(),
        reads(rd_force_sample(old(c).data(), old(c).offset as int), r, final(c).offset as int),
{
    let force = read_words3(c)?;
    let moment = read_words3(c)?;
    let application_point = read_words3(c)?;
    Ok(ForceSample { force, moment, application_point })
}

impl WireRecord for ForceSample {
    open spec fn record() -> spec_fn(Seq<u8>, int) -> Read<ForceSampleModel> {
        |s: Seq<u8>, o: int| rd_force_sample(s, o)
    }

    fn read_record(c: &mut Cursor) -> (r: Result<ForceSample, QtmError>) {
        read_force_sample(c)
    }
}

pub open spec fn rd_force_single_plate(s: Seq<u8>, o: int) -> Read<ForceSinglePlateModel> {
    if fits(s, o, 40) {
        Some(
            (
                ForceSinglePlateModel { plate_id: le_i32(s, o), sample: force_sample_at(s, o + 4) },
                o + 40,
            ),
        )
    } else {
        None
    }
}

impl WireRecord for ForceSinglePlate {
    open spec fn record() -> spec_fn(Seq<u8>, int) -> Read<ForceSinglePlateModel> {
        |s: Seq<u8>, o: int| rd_force_single_plate(s, o)
    }

    fn read_record(c: &mut Cursor) -> (r: Result<ForceSinglePlate, QtmError>) {
        let plate_id = c.read_i32()?;
        let sample = read_force_sample(c)?;
        Ok(ForceSinglePlate { plate_id, sample })
    }
}

pub open spec fn rd_gaze_sample(s: Seq<u8>, o: int) -> Read<GazeVectorSample> {
    if fits(s, o, 24) {
        Some(
            (
                GazeVectorSample { direction: point3_at(s, o), position: point3_at(s, o + 12) },
                o + 24,
            ),
        )
    } else {
        None
    }
}

impl WireRecord for GazeVectorSample {
    open spec fn record() -> spec_fn(Seq<u8>, int) -> Read<GazeVectorSample> {
        |s: Seq<u8>, o: int| rd_gaze_sample(s, o)
    }

    fn read_record(c: &mut Cursor) -> (r: Result<GazeVectorSample, QtmError>) {
        let direction = read_point3(c)?;
        let position = read_point3(c)?;
        Ok(GazeVectorSample { direction, position })
    }
}

pub open spec fn rd_eye_sample(s: Seq<u8>, o: int) -> Read<EyeTrackerSample> {
    if fits(s, o, 8) {
        Some(
            (
                EyeTrackerSample {
                    left_pupil_diameter: le_u32(s, o),
                    right_pupil_diameter: le_u32(s, o + 4),
                },
                o + 8,
            ),
        )
    } else {
        None
    }
}

impl WireRecord for EyeTrackerSample {
    open spec fn record() -> spec_fn(Seq<u8>, int) -> Read<EyeTrackerSample> {
        |s: Seq<u8>, o: int| rd_eye_sample(s, o)
    }

    fn read_record(c: &mut Cursor) -> (r: Result<EyeTrackerSample, QtmError>) {
        let left_pupil_diameter = c.read_u32()?;
        let right_pupil_diameter = c.read_u32()?;
        Ok(EyeTrackerSample { left_pupil_diameter, right_pupil_diameter })
    }
}

pub open spec fn rd_timecode(s: Seq<u8>, o: int) -> Read<TimecodeEntry> {
    if fits(s, o, 12) {
        Some(
            (
                TimecodeEntry {
                    timecode_type: le_i32(s, o),
                    high: le_u32(s, o + 4),
                    low: le_u32(s, o + 8),
                },
                o + 12,
            ),
        )
    } else {
        None
    }
}

impl WireRecord for TimecodeEntry {
    open spec fn record() -> spec_fn(Seq<u8>, int) -> Read<TimecodeEntry> {
        |s: Seq<u8>, o: int| rd_timecode(s, o)
    }

    fn read_record(c: &mut Cursor) -> (r: Result<TimecodeEntry, QtmError>) {
        let timecode_type = c.read_i32()?;
        let high = c.read_u32()?;
        let low = c.read_u32()?;
        Ok(TimecodeEntry { timecode_type, high, low })
    }
}

pub open spec fn rd_skeleton_segment(s: Seq<u8>, o: int) -> Read<SkeletonSegment> {
    if fits(s, o, 32) {
        Some(
            (
                SkeletonSegment {
                    id: le_i32(s, o),
                    position: point3_at(s, o + 4),
                    rotation: Quaternion {
                        x: le_u32(s, o + 16),
                        y: le_u32(s, o + 20),
                        z: le_u32(s, o + 24),
                        w: le_u32(s, o + 28),
                    },
                },
                o + 32,
            ),
        )
    } else {
        None
    }
}

impl WireRecord for SkeletonSegment {
    open spec fn record() -> spec_fn(Seq<u8>, int) -> Read<SkeletonSegment> {
        |s: Seq<u8>, o: int| rd_skeleton_segment(s, o)
    }

    fn read_record(c: &mut Cursor) -> (r: Result<SkeletonSegment, QtmError>) {
        let id = c.read_i32()?;
        let position = read_point3(c)?;
        let x = c.read_u32()?;
        let y = c.read_u32()?;
        let z = c.read_u32()?;
        let w = c.read_u32()?;
        Ok(SkeletonSegment { id, position, rotation: Quaternion { x, y, z, w } })
    }
}

/// A 2D camera: a signed marker count, a status byte and the markers.
pub open spec fn rd_camera2d(s: Seq<u8>, o: int) -> Read<Camera2DModel> {
    if !fits(s, o, 5) || le_i32(s, o) < 0 {
        None
    } else {
        match repeat(s, o + 5, le_i32(s, o) as nat, Marker2D::record()) {
            Some((markers, end)) => Some((Camera2DModel { status_flag: s[o + 4], markers }, end)),
            None => None,
        }
    }
}

impl WireRecord for Camera2D {
    open spec fn record() -> spec_fn(Seq<u8>, int) -> Read<Camera2DModel> {
        |s: Seq<u8>, o: int| rd_camera2d(s, o)
    }

    fn read_record(c: &mut Cursor) -> (r: Result<Camera2D, QtmError>) {
        let marker_count = c.read_i32()?;
        let marker_count = to_usize_non_negative(marker_count)?;
        let status_flag = c.read_u8()?;
        let markers = read_list::<Marker2D>(c, marker_count)?;
        Ok(Camera2D { status_flag, markers })
    }
}

/// One analog channel: `samples` words.
pub open spec fn analog_channel(samples: nat) -> spec_fn(Seq<u8>, int) -> Read<Seq<u32>> {
    |s: Seq<u8>, o: int| repeat(s, o, samples, u32::record())
}

/// An analog device: id, channel count, sample count, the number of the
/// first sample when there is at least one, then each channel's samples.
pub open spec fn rd_analog_device(s: Seq<u8>, o: int) -> Read<AnalogDeviceModel> {
    if !fits(s, o, 12) || le_i32(s, o + 4) < 0 || le_i32(s, o + 8) < 0 {
        None
    } else {
        let channel_count = le_i32(s, o + 4);
        let sample_count = le_i32(s, o + 8);
        if sample_count > 0 && !fits(s, o + 12, 4) {
            None
        } else {
            let sample_number = if sample_count > 0 { Some(le_i32(s, o + 12)) } else { None };
            let start = if sample_count > 0 { o + 16 } else { o + 12 };
            match repeat(s, start, channel_count as nat, analog_channel(sample_count as nat)) {
                Some((channels, end)) => Some(
                    (
                        AnalogDeviceModel {
                            device_id: le_i32(s, o),
                            channel_count: channel_count as u32,
                            sample_count: sample_count as u32,
                            sample_number,
                            channels,
                        },
                        end,
                    ),
                ),
                None => None,
            }
        }
    }
}

impl WireRecord for AnalogDevice {
    open spec fn record() -> spec_fn(Seq<u8>, int) -> Read<AnalogDeviceModel> {
        |s: Seq<u8>, o: int| rd_analog_device(s, o)
    }

    fn read_record(c: &mut Cursor) -> (r: Result<AnalogDevice, QtmError>) {
        let ghost s = c.data();
        let ghost o0 = c.offset as int;
        let device_id = c.read_i32()?;
        let channel_count = c.read_i32()?;
        let channel_count_usize = to_usize_non_negative(channel_count)?;
        let sample_count = c.read_i32()?;
        let sample_count_usize = to_usize_non_negative(sample_count)?;
        let sample_number = if sample_count_usize > 0 {
            Some(c.read_i32()?)
        } else {
            None
        };
        let ghost start = c.offset as int;
        let ghost item = analog_channel(sample_count_usize as nat);
        let mut channels: Vec<Vec<u32>> = Vec::new();
        let mut i: usize = 0;
        assert(views(channels@) =~= Seq::<Seq<u32>>::empty());
        while i < channel_count_usize
            invariant
                c.wf(),
                c.data() == s,
                s == old(c).data(),
                o0 == old(c).offset as int,
                fits(s, o0, 12),
                device_id == le_i32(s, o0),
                channel_count_usize as int == le_i32(s, o0 + 4) as int,
                sample_count_usize as int == le_i32(s, o0 + 8) as int,
                channel_count_usize as int == channel_count as int,
                sample_count_usize > 0 ==> fits(s, o0 + 12, 4) && sample_number == Some(le_i32(s, o0 + 12)) && start == o0 + 16,
                sample_count_usize == 0 ==> sample_number is None && start == o0 + 12,
                0 <= i <= channel_count_usize,
                item == analog_channel(sample_count_usize as nat),
                repeat(s, start, i as nat, item) == Some((views(channels@), c.offset as int)),
            decreases channel_count_usize - i,
        {
            let ghost before = c.offset as int;
            proof {
                lemma_repeat_step(s, start, i as nat, item, views(channels@), before);
            }
            match read_list::<u32>(c, sample_count_usize) {
                Ok(samples) => {
                    proof {
                        lemma_views_words(samples@);
                        lemma_views_push(channels@, samples);
                    }
                    channels.push(samples);
                },
                Err(e) => {
                    proof {
                        lemma_repeat_fails(s, start, (i + 1) as nat, channel_count_usize as nat, item);
                    }
                    return Err(e);
                },
            }
            i = i + 1;
        }
        Ok(
            AnalogDevice {
                device_id,
                channel_count: channel_count_usize as u32,
                sample_count: sample_count_usize as u32,
                sample_number,
                channels,
            },
        )
    }
}

/// A device of the single-sample analog component: id, channel count and
/// one sample per channel.
pub open spec fn rd_analog_single_device(s: Seq<u8>, o: int) -> Read<AnalogSingleDeviceModel> {
    if !fits(s, o, 8) || le_i32(s, o + 4) < 0 {
        None
    } else {
        match repeat(s, o + 8, le_i32(s, o + 4) as nat, u32::record()) {
            Some((samples, end)) => Some(
                (
                    AnalogSingleDeviceModel {
                        device_id: le_i32(s, o),
                        channel_count: le_i32(s, o + 4) as u32,
                        samples,
                    },
                    end,
                ),
            ),
            None => None,
        }
    }
}

impl WireRecord for AnalogSingleDevice {
    open spec fn record() -> spec_fn(Seq<u8>, int) -> Read<AnalogSingleDeviceModel> {
        |s: Seq<u8>, o: int| rd_analog_single_device(s, o)
    }

    fn read_record(c: &mut Cursor) -> (r: Result<AnalogSingleDevice, QtmError>) {
        let device_id = c.read_i32()?;
        let channel_count = c.read_i32()?;
        let channel_count_usize = to_usize_non_negative(channel_count)?;
        let samples = read_list::<u32>(c, channel_count_usize)?;
        proof {
            lemma_views_words(samples@);
        }
        Ok(AnalogSingleDevice { device_id, channel_count: channel_count_usize as u32, samples })
    }
}

/// A force plate: id, sample count, number of the first sample, samples.
pub open spec fn rd_force_plate(s: Seq<u8>, o: int) -> Read<ForcePlateModel> {
    if !fits(s, o, 12) || le_i32(s, o + 4) < 0 {
        None
    } else {
        match repeat(s, o + 12, le_i32(s, o + 4) as nat, ForceSample::record()) {
            Some((samples, end)) => Some(
                (
                    ForcePlateModel {
                        plate_id: le_i32(s, o),
                        force_number: le_i32(s, o + 8),
                        samples,
                    },
                    end,
                ),
            ),
            None => None,
        }
    }
}

impl WireRecord for ForcePlate {
    open spec fn record() -> spec_fn(Seq<u8>, int) -> Read<ForcePlateModel> {
        |s: Seq<u8>, o: int| rd_force_plate(s, o)
    }

    fn read_record(c: &mut Cursor) -> (r: Result<ForcePlate, QtmError>) {
        let plate_id = c.read_i32()?;
        let force_count = c.read_i32()?;
        let force_count_usize = to_usize_non_negative(force_count)?;
        let force_number = c.read_i32()?;
        let samples = read_list::<ForceSample>(c, force_count_usize)?;
        Ok(ForcePlate { plate_id, force_number, samples })
    }
}

/// A series: sample count, number of the first sample, samples.
pub open spec fn rd_series<T>(
    s: Seq<u8>,
    o: int,
    item: spec_fn(Seq<u8>, int) -> Read<T>,
) -> Read<SeriesModel<T>> {
    if !fits(s, o, 8) || le_i32(s, o) < 0 {
        None
    } else {
        match repeat(s, o + 8, le_i32(s, o) as nat, item) {
            Some((samples, end)) => Some(
                (SeriesModel { sample_number: le_i32(s, o + 4), samples }, end),
            ),
            None => None,
        }
    }
}

impl WireRecord for GazeVectorSeries {
    open spec fn record() -> spec_fn(Seq<u8>, int) -> Read<SeriesModel<GazeVectorSample>> {
        |s: Seq<u8>, o: int| rd_series(s, o, GazeVectorSample::record())
    }

    fn read_record(c: &mut Cursor) -> (r: Result<GazeVectorSeries, QtmError>) {
        let sample_count = c.read_i32()?;
        let sample_count_usize = to_usize_non_negative(sample_count)?;
        let sample_number = c.read_i32()?;
        let samples = read_list::<GazeVectorSample>(c, sample_count_usize)?;
        Ok(GazeVectorSeries { sample_number, samples })
    }
}

impl WireRecord for EyeTrackerSeries {
    open spec fn record() -> spec_fn(Seq<u8>, int) -> Read<SeriesModel<EyeTrackerSample>> {
        |s: Seq<u8>, o: int| rd_series(s, o, EyeTrackerSample::record())
    }

    fn read_record(c: &mut Cursor) -> (r: Result<EyeTrackerSeries, QtmError>) {
        let sample_count = c.read_i32()?;
        let sample_count_usize = to_usize_non_negative(sample_count)?;
        let sample_number = c.read_i32()?;
        let samples = read_list::<EyeTrackerSample>(c, sample_count_usize)?;
        Ok(EyeTrackerSeries { sample_number, samples })
    }
}

/// An image: camera, format, size, crop (four `f32` bit patterns), the
/// signed byte count and the image bytes.
pub open spec fn rd_image(s: Seq<u8>, o: int) -> Read<ImageModel> {
    if !fits(s, o, 36) || le_i32(s, o + 32) < 0 || !fits(s, o + 36, le_i32(s, o + 32) as int) {
        None
    } else {
        let size = le_i32(s, o + 32) as int;
        Some(
            (
                ImageModel {
                    camera_id: le_i32(s, o),
                    format: le_i32(s, o + 4),
                    width: le_i32(s, o + 8),
                    height: le_i32(s, o + 12),
                    crop_left: le_u32(s, o + 16),
                    crop_top: le_u32(s, o + 20),
                    crop_right: le_u32(s, o + 24),
                    crop_bottom: le_u32(s, o + 28),
                    data: s.subrange(o + 36, o + 36 + size),
                },
                o + 36 + size,
            ),
        )
    }
}

impl WireRecord for Image {
    open spec fn record() -> spec_fn(Seq<u8>, int) -> Read<ImageModel> {
        |s: Seq<u8>, o: int| rd_image(s, o)
    }

    fn read_record(c: &mut Cursor) -> (r: Result<Image, QtmError>) {
        let camera_id = c.read_i32()?;
        let format = c.read_i32()?;
        let width = c.read_i32()?;
        let height = c.read_i32()?;
        let crop_left = c.read_u32()?;
        let crop_top = c.read_u32()?;
        let crop_right = c.read_u32()?;
        let crop_bottom = c.read_u32()?;
        let image_size = c.read_i32()?;
        let image_size = to_usize_non_negative(image_size)?;
        let bytes = c.take(image_size)?;
        let data = slice_to_vec(bytes);
        Ok(
            Image {
                camera_id,
                format,
                width,
                height,
                crop_left,
                crop_top,
                crop_right,
                crop_bottom,
                data,
            },
        )
    }
}

/// A skeleton: signed segment count and the segments.
pub open spec fn rd_skeleton(s: Seq<u8>, o: int) -> Read<Seq<SkeletonSegment>> {
    if !fits(s, o, 4) || le_i32(s, o) < 0 {
        None
    } else {
        repeat(s, o + 4, le_i32(s, o) as nat, SkeletonSegment::record())
    }
}

impl WireRecord for Skeleton {
    open spec fn record() -> spec_fn(Seq<u8>, int) -> Read<Seq<SkeletonSegment>> {
        |s: Seq<u8>, o: int| rd_skeleton(s, o)
    }

    fn read_record(c: &mut Cursor) -> (r: Result<Skeleton, QtmError>) {
        let segment_count = c.read_i32()?;
        let segment_count = to_usize_non_negative(segment_count)?;
        let segments = read_list::<SkeletonSegment>(c, segment_count)?;
        Ok(Skeleton { segments })
    }
}

} // verus!
