//! Typed helpers for the mocap-related subset of QTM `GetParameters` XML:
//! the `3D`, `6D` and `Skeleton` sections.
//!
//! Real-valued settings are kept as their trimmed text, checked to be text
//! that `str::parse::<f32>` accepts; a caller turns them into numbers.

use vstd::prelude::*;

use crate::error::QtmError;
use crate::numbers::{check_float_text, is_float_text, parse_bool, parse_i32, parse_u32, parse_u8, spec_parse_bool, spec_parse_signed, spec_parse_unsigned};
use crate::packet::{lemma_views_push, views};
use crate::text::{chars_of, push_str, starts_with, str_eq, str_starts_with, trim, trim_chars};
use crate::xml::{attr, attr_value, child_element, child_text, find_attribute, find_child, is_child_element, is_child_named, nodes_view, optional_attr, optional_child_text, parse_xml_nodes, trimmed_nonempty, trimmed_text, xml_document_nodes, XmlNode, XmlNodeModel};

verus! {

// ---------------------------------------------------------------------------
// The parsed settings and their models.
/// The mocap sections found in one settings document.
#[derive(Debug)]
pub struct MocapParameters {
    /// The tag name of the document's root element.
    pub envelope_name: String,
    pub three_d: Option<MocapThreeDParameters>,
    pub six_d: Option<MocapSixDParameters>,
    pub skeletons: Option<MocapSkeletonParameters>,
}

#[derive(Debug, Clone)]
pub struct MocapThreeDParameters {
    pub axis_upwards: Option<String>,
    pub calibration_time: Option<String>,
    pub labels: Vec<MocapThreeDLabel>,
    pub bones: Vec<MocapThreeDBone>,
}

#[derive(Debug, Clone)]
pub struct MocapThreeDLabel {
    pub name: String,
    pub rgb_color: Option<u32>,
    pub trajectory_type: Option<String>,
}

#[derive(Debug, Clone)]
pub struct MocapThreeDBone {
    pub from_name: String,
    pub to_name: String,
    pub color: Option<u32>,
}

#[derive(Debug, Clone)]
pub struct MocapSixDParameters {
    pub bodies: Vec<MocapRigidBody>,
}

#[derive(Debug, Clone)]
pub struct MocapRigidBody {
    pub name: String,
    pub enabled: Option<bool>,
    pub color_rgb: Option<[u8; 3]>,
    /// Text of an `f32`.
    pub maximum_residual: Option<String>,
    pub minimum_markers_in_body: Option<u32>,
    /// Text of an `f32`.
    pub bone_length_tolerance: Option<String>,
    pub filter_preset: Option<String>,
    pub points: Vec<MocapRigidBodyPoint>,
    pub data_origin: Option<MocapOrigin>,
    pub data_orientation: Option<MocapOrientation>,
}

#[derive(Debug, Clone)]
pub struct MocapRigidBodyPoint {
    /// Texts of `f32` coordinates.
    pub position: [String; 3],
    pub virtual_point: Option<bool>,
    pub physical_id: Option<i32>,
    pub name: Option<String>,
}

#[derive(Debug, Clone)]
pub struct MocapOrigin {
    pub origin_type: Option<i32>,
    pub position: Option<[String; 3]>,
    pub relative_body: Option<i32>,
}

#[derive(Debug, Clone)]
pub struct MocapOrientation {
    /// Texts of the `f32` entries, row by row.
    pub rotation_matrix: Option<[String; 9]>,
    pub relative_body: Option<i32>,
}

#[derive(Debug)]
pub struct MocapSkeletonParameters {
    pub skeletons: Vec<MocapSkeleton>,
}

#[derive(Debug)]
pub struct MocapSkeleton {
    pub name: String,
    pub scale: Option<String>,
    pub segments: Vec<MocapSkeletonSegment>,
}

#[derive(Debug)]
pub struct MocapSkeletonSegment {
    pub name: String,
    pub id: Option<i32>,
    pub solver: Option<String>,
    pub transform: Option<MocapTransform>,
    pub default_transform: Option<MocapTransform>,
    pub endpoint: Option<[String; 3]>,
    pub markers: Vec<MocapSkeletonMarker>,
    pub rigid_bodies: Vec<MocapSkeletonRigidBody>,
    pub child_segments: Vec<MocapSkeletonSegment>,
}

#[derive(Debug, Clone)]
pub struct MocapTransform {
    pub position: Option<[String; 3]>,
    pub rotation_xyzw: Option<[String; 4]>,
}

#[derive(Debug, Clone)]
pub struct MocapSkeletonMarker {
    pub name: String,
    pub position: Option<[String; 3]>,
    pub weight: Option<String>,
}

#[derive(Debug, Clone)]
pub struct MocapSkeletonRigidBody {
    pub name: String,
    pub transform: Option<MocapTransform>,
    pub weight: Option<String>,
}

pub open spec fn opt_text(o: Option<String>) -> Option<Seq<char>> {
    match o {
        Some(s) => Some(s@),
        None => None,
    }
}

pub open spec fn texts<const N: usize>(a: [String; N]) -> Seq<Seq<char>> {
    a@.map_values(|s: String| s@)
}

pub open spec fn opt_texts<const N: usize>(o: Option<[String; N]>) -> Option<Seq<Seq<char>>> {
    match o {
        Some(a) => Some(texts(a)),
        None => None,
    }
}

pub open spec fn opt_view<T: View>(o: Option<T>) -> Option<T::V> {
    match o {
        Some(x) => Some(x@),
        None => None,
    }
}

pub struct MocapParametersModel {
    pub envelope_name: Seq<char>,
    pub three_d: Option<ThreeDModel>,
    pub six_d: Option<SixDModel>,
    pub skeletons: Option<SkeletonsModel>,
}

pub struct ThreeDModel {
    pub axis_upwards: Option<Seq<char>>,
    pub calibration_time: Option<Seq<char>>,
    pub labels: Seq<LabelModel>,
    pub bones: Seq<BoneModel>,
}

pub struct LabelModel {
    pub name: Seq<char>,
    pub rgb_color: Option<u32>,
    pub trajectory_type: Option<Seq<char>>,
}

pub struct BoneModel {
    pub from_name: Seq<char>,
    pub to_name: Seq<char>,
    pub color: Option<u32>,
}

pub struct SixDModel {
    pub bodies: Seq<RigidBodyModel>,
}

pub struct RigidBodyModel {
    pub name: Seq<char>,
    pub enabled: Option<bool>,
    pub color_rgb: Option<Seq<u8>>,
    pub maximum_residual: Option<Seq<char>>,
    pub minimum_markers_in_body: Option<u32>,
    pub bone_length_tolerance: Option<Seq<char>>,
    pub filter_preset: Option<Seq<char>>,
    pub points: Seq<PointModel>,
    pub data_origin: Option<OriginModel>,
    pub data_orientation: Option<OrientationModel>,
}

pub struct PointModel {
    pub position: Seq<Seq<char>>,
    pub virtual_point: Option<bool>,
    pub physical_id: Option<i32>,
    pub name: Option<Seq<char>>,
}

pub struct OriginModel {
    pub origin_type: Option<i32>,
    pub position: Option<Seq<Seq<char>>>,
    pub relative_body: Option<i32>,
}

pub struct OrientationModel {
    pub rotation_matrix: Option<Seq<Seq<char>>>,
    pub relative_body: Option<i32>,
}

pub struct SkeletonsModel {
    pub skeletons: Seq<SkeletonModel>,
}

pub struct SkeletonModel {
    pub name: Seq<char>,
    pub scale: Option<Seq<char>>,
    pub segments: Seq<SegmentModel>,
}

pub struct SegmentModel {
    pub name: Seq<char>,
    pub id: Option<i32>,
    pub solver: Option<Seq<char>>,
    pub transform: Option<TransformModel>,
    pub default_transform: Option<TransformModel>,
    pub endpoint: Option<Seq<Seq<char>>>,
    pub markers: Seq<MarkerModel>,
    pub rigid_bodies: Seq<SkeletonRigidBodyModel>,
    pub child_segments: Seq<SegmentModel>,
}

pub struct TransformModel {
    pub position: Option<Seq<Seq<char>>>,
    pub rotation_xyzw: Option<Seq<Seq<char>>>,
}

pub struct MarkerModel {
    pub name: Seq<char>,
    pub position: Option<Seq<Seq<char>>>,
    pub weight: Option<Seq<char>>,
}

pub struct SkeletonRigidBodyModel {
    pub name: Seq<char>,
    pub transform: Option<TransformModel>,
    pub weight: Option<Seq<char>>,
}

impl View for MocapThreeDLabel {
    type V = LabelModel;

    open spec fn view(&self) -> LabelModel {
        LabelModel {
            name: self.name@,
            rgb_color: self.rgb_color,
            trajectory_type: opt_text(self.trajectory_type),
        }
    }
}

impl View for MocapThreeDBone {
    type V = BoneModel;

    open spec fn view(&self) -> BoneModel {
        BoneModel { from_name: self.from_name@, to_name: self.to_name@, color: self.color }
    }
}

impl View for MocapThreeDParameters {
    type V = ThreeDModel;

    open spec fn view(&self) -> ThreeDModel {
        ThreeDModel {
            axis_upwards: opt_text(self.axis_upwards),
            calibration_time: opt_text(self.calibration_time),
            labels: views(self.labels@),
            bones: views(self.bones@),
        }
    }
}

impl View for MocapRigidBodyPoint {
    type V = PointModel;

    open spec fn view(&self) -> PointModel {
        PointModel {
            position: texts(self.position),
            virtual_point: self.virtual_point,
            physical_id: self.physical_id,
            name: opt_text(self.name),
        }
    }
}

impl View for MocapOrigin {
    type V = OriginModel;

    open spec fn view(&self) -> OriginModel {
        OriginModel {
            origin_type: self.origin_type,
            position: opt_texts(self.position),
            relative_body: self.relative_body,
        }
    }
}

impl View for MocapOrientation {
    type V = OrientationModel;

    open spec fn view(&self) -> OrientationModel {
        OrientationModel {
            rotation_matrix: opt_texts(self.rotation_matrix),
            relative_body: self.relative_body,
        }
    }
}

impl View for MocapRigidBody {
    type V = RigidBodyModel;

    open spec fn view(&self) -> RigidBodyModel {
        RigidBodyModel {
            name: self.name@,
            enabled: self.enabled,
            color_rgb: match self.color_rgb {
                Some(c) => Some(c@),
                None => None,
            },
            maximum_residual: opt_text(self.maximum_residual),
            minimum_markers_in_body: self.minimum_markers_in_body,
            bone_length_tolerance: opt_text(self.bone_length_tolerance),
            filter_preset: opt_text(self.filter_preset),
            points: views(self.points@),
            data_origin: opt_view(self.data_origin),
            data_orientation: opt_view(self.data_orientation),
        }
    }
}

impl View for MocapSixDParameters {
    type V = SixDModel;

    open spec fn view(&self) -> SixDModel {
        SixDModel { bodies: views(self.bodies@) }
    }
}

impl View for MocapTransform {
    type V = TransformModel;

    open spec fn view(&self) -> TransformModel {
        TransformModel {
            position: opt_texts(self.position),
            rotation_xyzw: opt_texts(self.rotation_xyzw),
        }
    }
}

impl View for MocapSkeletonMarker {
    type V = MarkerModel;

    open spec fn view(&self) -> MarkerModel {
        MarkerModel {
            name: self.name@,
            position: opt_texts(self.position),
            weight: opt_text(self.weight),
        }
    }
}

impl View for MocapSkeletonRigidBody {
    type V = SkeletonRigidBodyModel;

    open spec fn view(&self) -> SkeletonRigidBodyModel {
        SkeletonRigidBodyModel {
            name: self.name@,
            transform: opt_view(self.transform),
            weight: opt_text(self.weight),
        }
    }
}

/// The model of a segment and, recursively, of its child segments.
pub open spec fn segment_view(s: MocapSkeletonSegment) -> SegmentModel
    decreases s,
{
    SegmentModel {
        name: s.name@,
        id: s.id,
        solver: opt_text(s.solver),
        transform: opt_view(s.transform),
        default_transform: opt_view(s.default_transform),
        endpoint: opt_texts(s.endpoint),
        markers: views(s.markers@),
        rigid_bodies: views(s.rigid_bodies@),
        child_segments: Seq::new(
            s.child_segments@.len(),
            |i: int|
                {
                    if 0 <= i < s.child_segments@.len() {
                        segment_view(s.child_segments@[i])
                    } else {
                        arbitrary()
                    }
                },
        ),
    }
}

impl View for MocapSkeletonSegment {
    type V = SegmentModel;

    open spec fn view(&self) -> SegmentModel {
        segment_view(*self)
    }
}

impl View for MocapSkeleton {
    type V = SkeletonModel;

    open spec fn view(&self) -> SkeletonModel {
        SkeletonModel {
            name: self.name@,
            scale: opt_text(self.scale),
            segments: views(self.segments@),
        }
    }
}

impl View for MocapSkeletonParameters {
    type V = SkeletonsModel;

    open spec fn view(&self) -> SkeletonsModel {
        SkeletonsModel { skeletons: views(self.skeletons@) }
    }
}

impl View for MocapParameters {
    type V = MocapParametersModel;

    open spec fn view(&self) -> MocapParametersModel {
        MocapParametersModel {
            envelope_name: self.envelope_name@,
            three_d: opt_view(self.three_d),
            six_d: opt_view(self.six_d),
            skeletons: opt_view(self.skeletons),
        }
    }
}

// ---------------------------------------------------------------------------
// What the settings document says, over its nodes. `None` stands for a
// document that the parser refuses as invalid mocap settings.
/// A value as `str::parse` reads it after trimming: the text of an `f32`.
pub open spec fn float_text(v: Seq<char>) -> Option<Seq<char>> {
    if is_float_text(trim(v)) {
        Some(trim(v))
    } else {
        None
    }
}

pub open spec fn u32_text(v: Seq<char>) -> Option<u32> {
    match spec_parse_unsigned(trim(v), u32::MAX as nat) {
        Some(x) => Some(x as u32),
        None => None,
    }
}

pub open spec fn u8_text(v: Seq<char>) -> Option<u8> {
    match spec_parse_unsigned(trim(v), u8::MAX as nat) {
        Some(x) => Some(x as u8),
        None => None,
    }
}

pub open spec fn i32_text(v: Seq<char>) -> Option<i32> {
    match spec_parse_signed(trim(v), i32::MIN as int, i32::MAX as int) {
        Some(x) => Some(x as i32),
        None => None,
    }
}

/// An optional value read with `f`: absent is fine, present must read.
pub open spec fn parse_opt<T>(o: Option<Seq<char>>, f: spec_fn(Seq<char>) -> Option<T>) -> Option<
    Option<T>,
> {
    match o {
        None => Some(None),
        Some(v) => match f(v) {
            Some(x) => Some(Some(x)),
            None => None,
        },
    }
}

/// An optional child element read with `f`.
pub open spec fn opt_child<T>(c: Option<int>, f: spec_fn(int) -> Option<T>) -> Option<Option<T>> {
    match c {
        None => Some(None),
        Some(i) => match f(i) {
            Some(x) => Some(Some(x)),
            None => None,
        },
    }
}

/// The element children of `p` named `name` before node `k`, each read
/// with `f`, in document order; `None` where one of them does not read.
pub open spec fn collect_children<T>(
    n: Seq<XmlNodeModel>,
    p: int,
    name: Seq<char>,
    k: int,
    f: spec_fn(int) -> Option<T>,
) -> Option<Seq<T>>
    decreases k,
{
    if p < 0 || k <= p + 1 {
        Some(Seq::empty())
    } else {
        match collect_children(n, p, name, k - 1, f) {
            None => None,
            Some(prev) => if is_child_named(n, p, k - 1, name) {
                match f(k - 1) {
                    Some(x) => Some(prev.push(x)),
                    None => None,
                }
            } else {
                Some(prev)
            },
        }
    }
}

pub open spec fn children_parsed<T>(
    n: Seq<XmlNodeModel>,
    p: int,
    name: Seq<char>,
    f: spec_fn(int) -> Option<T>,
) -> Option<Seq<T>> {
    collect_children(n, p, name, n.len() as int, f)
}

/// The `item` children of the first `container` child, or none where
/// there is no container.
pub open spec fn nested_children<T>(
    n: Seq<XmlNodeModel>,
    p: int,
    container: Seq<char>,
    item: Seq<char>,
    f: spec_fn(int) -> Option<T>,
) -> Option<Seq<T>> {
    match child_element(n, p, container) {
        None => Some(Seq::empty()),
        Some(c) => children_parsed(n, c, item, f),
    }
}

/// A required attribute read with `f`.
pub open spec fn required_attr_value<T>(
    n: Seq<XmlNodeModel>,
    i: int,
    name: Seq<char>,
    f: spec_fn(Seq<char>) -> Option<T>,
) -> Option<T> {
    match optional_attr(n, i, seq![name]) {
        Some(v) => f(v),
        None => None,
    }
}

pub open spec fn float_fn() -> spec_fn(Seq<char>) -> Option<Seq<char>> {
    |v: Seq<char>| float_text(v)
}

pub open spec fn u32_fn() -> spec_fn(Seq<char>) -> Option<u32> {
    |v: Seq<char>| u32_text(v)
}

pub open spec fn u8_fn() -> spec_fn(Seq<char>) -> Option<u8> {
    |v: Seq<char>| u8_text(v)
}

pub open spec fn i32_fn() -> spec_fn(Seq<char>) -> Option<i32> {
    |v: Seq<char>| i32_text(v)
}

pub open spec fn bool_fn() -> spec_fn(Seq<char>) -> Option<bool> {
    |v: Seq<char>| spec_parse_bool(v)
}

/// The required `X`, `Y` and `Z` attributes, each the text of an `f32`.
pub open spec fn spec_xyz(n: Seq<XmlNodeModel>, i: int) -> Option<Seq<Seq<char>>> {
    let x = required_attr_value(n, i, "X"@, float_fn());
    let y = required_attr_value(n, i, "Y"@, float_fn());
    let z = required_attr_value(n, i, "Z"@, float_fn());
    if x is Some && y is Some && z is Some {
        Some(seq![x->0, y->0, z->0])
    } else {
        None
    }
}

/// The required `X`, `Y`, `Z` and `W` attributes.
pub open spec fn spec_xyzw(n: Seq<XmlNodeModel>, i: int) -> Option<Seq<Seq<char>>> {
    let w = required_attr_value(n, i, "W"@, float_fn());
    match spec_xyz(n, i) {
        Some(xyz) => if w is Some {
            Some(xyz.push(w->0))
        } else {
            None
        },
        None => None,
    }
}

/// `X`, `Y` and `Z` all absent, or all present and each the text of an
/// `f32`.
pub open spec fn spec_optional_xyz(n: Seq<XmlNodeModel>, i: int) -> Option<Option<Seq<Seq<char>>>> {
    let x = optional_attr(n, i, seq!["X"@]);
    let y = optional_attr(n, i, seq!["Y"@]);
    let z = optional_attr(n, i, seq!["Z"@]);
    if x is None && y is None && z is None {
        Some(None)
    } else if x is Some && y is Some && z is Some {
        if float_text(x->0) is Some && float_text(y->0) is Some && float_text(z->0) is Some {
            Some(Some(seq![float_text(x->0)->0, float_text(y->0)->0, float_text(z->0)->0]))
        } else {
            None
        }
    } else {
        None
    }
}

pub open spec fn rotation_names() -> Seq<Seq<char>> {
    seq!["R11"@, "R12"@, "R13"@, "R21"@, "R22"@, "R23"@, "R31"@, "R32"@, "R33"@]
}

pub open spec fn rotation_values(n: Seq<XmlNodeModel>, i: int) -> Seq<Option<Seq<char>>> {
    rotation_names().map_values(|name: Seq<char>| optional_attr(n, i, seq![name]))
}

/// The nine attributes `R11` to `R33`: all absent, or all present and each
/// the text of an `f32`.
pub open spec fn spec_rotation_matrix(n: Seq<XmlNodeModel>, i: int) -> Option<
    Option<Seq<Seq<char>>>,
> {
    let vals = rotation_values(n, i);
    if forall|k: int| 0 <= k < 9 ==> #[trigger] vals[k] is None {
        Some(None)
    } else if exists|k: int| 0 <= k < 9 && #[trigger] vals[k] is None {
        None
    } else if forall|k: int| 0 <= k < 9 ==> #[trigger] float_text(vals[k]->0) is Some {
        Some(Some(vals.map_values(|v: Option<Seq<char>>| float_text(v->0)->0)))
    } else {
        None
    }
}

pub open spec fn spec_label(n: Seq<XmlNodeModel>, j: int) -> Option<LabelModel> {
    let name = optional_child_text(n, j, "Name"@);
    let rgb = parse_opt(optional_child_text(n, j, "RGBColor"@), u32_fn());
    if name is Some && rgb is Some {
        Some(
            LabelModel {
                name: name->0,
                rgb_color: rgb->0,
                trajectory_type: optional_child_text(n, j, "Trajectory_Type"@),
            },
        )
    } else {
        None
    }
}

pub open spec fn spec_bone(n: Seq<XmlNodeModel>, j: int) -> Option<BoneModel> {
    let from = optional_attr(n, j, seq!["From"@, "FromName"@, "fromName"@]);
    let to = optional_attr(n, j, seq!["To"@, "ToName"@, "toName"@]);
    let color = parse_opt(optional_attr(n, j, seq!["Color"@]), u32_fn());
    if from is Some && to is Some && color is Some {
        Some(BoneModel { from_name: from->0, to_name: to->0, color: color->0 })
    } else {
        None
    }
}

pub open spec fn label_fn(n: Seq<XmlNodeModel>) -> spec_fn(int) -> Option<LabelModel> {
    |j: int| spec_label(n, j)
}

pub open spec fn bone_fn(n: Seq<XmlNodeModel>) -> spec_fn(int) -> Option<BoneModel> {
    |j: int| spec_bone(n, j)
}

pub open spec fn spec_three_d(n: Seq<XmlNodeModel>, i: int) -> Option<ThreeDModel> {
    let labels = children_parsed(n, i, "Label"@, label_fn(n));
    let bones = nested_children(n, i, "Bones"@, "Bone"@, bone_fn(n));
    if labels is Some && bones is Some {
        Some(
            ThreeDModel {
                axis_upwards: optional_child_text(n, i, "AxisUpwards"@),
                calibration_time: optional_child_text(n, i, "CalibrationTime"@),
                labels: labels->0,
                bones: bones->0,
            },
        )
    } else {
        None
    }
}

pub open spec fn spec_point(n: Seq<XmlNodeModel>, j: int) -> Option<PointModel> {
    let position = spec_xyz(n, j);
    let virtual_point = parse_opt(optional_attr(n, j, seq!["Virtual"@]), bool_fn());
    let physical_id = parse_opt(optional_attr(n, j, seq!["PhysicalId"@]), i32_fn());
    if position is Some && virtual_point is Some && physical_id is Some {
        Some(
            PointModel {
                position: position->0,
                virtual_point: virtual_point->0,
                physical_id: physical_id->0,
                name: optional_attr(n, j, seq!["Name"@]),
            },
        )
    } else {
        None
    }
}

pub open spec fn point_fn(n: Seq<XmlNodeModel>) -> spec_fn(int) -> Option<PointModel> {
    |j: int| spec_point(n, j)
}

pub open spec fn spec_origin(n: Seq<XmlNodeModel>, j: int) -> Option<OriginModel> {
    let origin_type = parse_opt(trimmed_nonempty(n[j].text), i32_fn());
    let position = spec_optional_xyz(n, j);
    let relative_body = parse_opt(optional_attr(n, j, seq!["Relative_body"@]), i32_fn());
    if origin_type is Some && position is Some && relative_body is Some {
        Some(
            OriginModel {
                origin_type: origin_type->0,
                position: position->0,
                relative_body: relative_body->0,
            },
        )
    } else {
        None
    }
}

pub open spec fn spec_orientation(n: Seq<XmlNodeModel>, j: int) -> Option<OrientationModel> {
    let rotation_matrix = spec_rotation_matrix(n, j);
    let relative_body = parse_opt(optional_attr(n, j, seq!["Relative_body"@]), i32_fn());
    if rotation_matrix is Some && relative_body is Some {
        Some(
            OrientationModel {
                rotation_matrix: rotation_matrix->0,
                relative_body: relative_body->0,
            },
        )
    } else {
        None
    }
}

pub open spec fn spec_color(n: Seq<XmlNodeModel>, c: int) -> Option<Seq<u8>> {
    let r = required_attr_value(n, c, "R"@, u8_fn());
    let g = required_attr_value(n, c, "G"@, u8_fn());
    let b = required_attr_value(n, c, "B"@, u8_fn());
    if r is Some && g is Some && b is Some {
        Some(seq![r->0, g->0, b->0])
    } else {
        None
    }
}

pub open spec fn spec_filter_preset(n: Seq<XmlNodeModel>, j: int) -> Option<Seq<char>> {
    match child_element(n, j, "Filter"@) {
        Some(f) => crate::xml::attribute(n, f, "Preset"@),
        None => None,
    }
}

pub open spec fn spec_body(n: Seq<XmlNodeModel>, j: int) -> Option<RigidBodyModel> {
    let color = opt_child(child_element(n, j, "Color"@), |c: int| spec_color(n, c));
    let points = nested_children(n, j, "Points"@, "Point"@, point_fn(n));
    let name = optional_child_text(n, j, "Name"@);
    let enabled = parse_opt(optional_child_text(n, j, "Enabled"@), bool_fn());
    let maximum_residual = parse_opt(optional_child_text(n, j, "MaximumResidual"@), float_fn());
    let minimum_markers = parse_opt(optional_child_text(n, j, "MinimumMarkersInBody"@), u32_fn());
    let tolerance = parse_opt(optional_child_text(n, j, "BoneLengthTolerance"@), float_fn());
    let origin = opt_child(child_element(n, j, "Data_origin"@), |c: int| spec_origin(n, c));
    let orientation = opt_child(
        child_element(n, j, "Data_orientation"@),
        |c: int| spec_orientation(n, c),
    );
    if color is Some && points is Some && name is Some && enabled is Some && maximum_residual is Some
        && minimum_markers is Some && tolerance is Some && origin is Some && orientation is Some {
        Some(
            RigidBodyModel {
                name: name->0,
                enabled: enabled->0,
                color_rgb: color->0,
                maximum_residual: maximum_residual->0,
                minimum_markers_in_body: minimum_markers->0,
                bone_length_tolerance: tolerance->0,
                filter_preset: spec_filter_preset(n, j),
                points: points->0,
                data_origin: origin->0,
                data_orientation: orientation->0,
            },
        )
    } else {
        None
    }
}

pub open spec fn body_fn(n: Seq<XmlNodeModel>) -> spec_fn(int) -> Option<RigidBodyModel> {
    |j: int| spec_body(n, j)
}

pub open spec fn spec_six_d(n: Seq<XmlNodeModel>, i: int) -> Option<SixDModel> {
    match children_parsed(n, i, "Body"@, body_fn(n)) {
        Some(bodies) => Some(SixDModel { bodies }),
        None => None,
    }
}

pub open spec fn spec_transform(n: Seq<XmlNodeModel>, j: int) -> Option<TransformModel> {
    let position = opt_child(child_element(n, j, "Position"@), |c: int| spec_xyz(n, c));
    let rotation = opt_child(child_element(n, j, "Rotation"@), |c: int| spec_xyzw(n, c));
    if position is Some && rotation is Some {
        Some(TransformModel { position: position->0, rotation_xyzw: rotation->0 })
    } else {
        None
    }
}

pub open spec fn spec_marker(n: Seq<XmlNodeModel>, j: int) -> Option<MarkerModel> {
    let name = optional_attr(n, j, seq!["Name"@]);
    let position = opt_child(child_element(n, j, "Position"@), |c: int| spec_xyz(n, c));
    let weight = parse_opt(optional_child_text(n, j, "Weight"@), float_fn());
    if name is Some && position is Some && weight is Some {
        Some(MarkerModel { name: name->0, position: position->0, weight: weight->0 })
    } else {
        None
    }
}

pub open spec fn spec_skeleton_rigid_body(n: Seq<XmlNodeModel>, j: int) -> Option<
    SkeletonRigidBodyModel,
> {
    let name = optional_attr(n, j, seq!["Name"@]);
    let transform = opt_child(child_element(n, j, "Transform"@), |c: int| spec_transform(n, c));
    let weight = parse_opt(optional_child_text(n, j, "Weight"@), float_fn());
    if name is Some && transform is Some && weight is Some {
        Some(SkeletonRigidBodyModel { name: name->0, transform: transform->0, weight: weight->0 })
    } else {
        None
    }
}

pub open spec fn marker_fn(n: Seq<XmlNodeModel>) -> spec_fn(int) -> Option<MarkerModel> {
    |j: int| spec_marker(n, j)
}

pub open spec fn skeleton_rigid_body_fn(n: Seq<XmlNodeModel>) -> spec_fn(int) -> Option<
    SkeletonRigidBodyModel,
> {
    |j: int| spec_skeleton_rigid_body(n, j)
}

/// A `Segment` element and, recursively, its child segments.
pub open spec fn spec_segment(n: Seq<XmlNodeModel>, i: int) -> Option<SegmentModel>
    decreases n.len() - i, n.len() + 1,
{
    if i < 0 || i >= n.len() {
        None
    } else {
        let markers = nested_children(n, i, "Markers"@, "Marker"@, marker_fn(n));
        let rigid_bodies = nested_children(
            n,
            i,
            "RigidBodies"@,
            "RigidBody"@,
            skeleton_rigid_body_fn(n),
        );
        let children = segments_upto(n, i, n.len() as int);
        let name = optional_attr(n, i, seq!["Name"@]);
        let id = parse_opt(optional_attr(n, i, seq!["ID"@]), i32_fn());
        let transform = opt_child(child_element(n, i, "Transform"@), |c: int| spec_transform(n, c));
        let default_transform = opt_child(
            child_element(n, i, "DefaultTransform"@),
            |c: int| spec_transform(n, c),
        );
        let endpoint = opt_child(child_element(n, i, "Endpoint"@), |c: int| spec_xyz(n, c));
        if markers is Some && rigid_bodies is Some && children is Some && name is Some && id is Some
            && transform is Some && default_transform is Some && endpoint is Some {
            Some(
                SegmentModel {
                    name: name->0,
                    id: id->0,
                    solver: optional_child_text(n, i, "Solver"@),
                    transform: transform->0,
                    default_transform: default_transform->0,
                    endpoint: endpoint->0,
                    markers: markers->0,
                    rigid_bodies: rigid_bodies->0,
                    child_segments: children->0,
                },
            )
        } else {
            None
        }
    }
}

/// The `Segment` children of `p` before node `k`, each read as a segment.
pub open spec fn segments_upto(n: Seq<XmlNodeModel>, p: int, k: int) -> Option<Seq<SegmentModel>>
    decreases n.len() - p, k,
{
    if p < 0 || k <= p + 1 {
        Some(Seq::empty())
    } else {
        match segments_upto(n, p, k - 1) {
            None => None,
            Some(prev) => if is_child_named(n, p, k - 1, "Segment"@) {
                match spec_segment(n, k - 1) {
                    Some(x) => Some(prev.push(x)),
                    None => None,
                }
            } else {
                Some(prev)
            },
        }
    }
}

pub open spec fn spec_skeleton(n: Seq<XmlNodeModel>, j: int) -> Option<SkeletonModel> {
    let segments = match child_element(n, j, "Segments"@) {
        None => Some(Seq::empty()),
        Some(s) => segments_upto(n, s, n.len() as int),
    };
    let name = optional_attr(n, j, seq!["Name"@]);
    let scale = parse_opt(optional_child_text(n, j, "Scale"@), float_fn());
    if segments is Some && name is Some && scale is Some {
        Some(SkeletonModel { name: name->0, scale: scale->0, segments: segments->0 })
    } else {
        None
    }
}

pub open spec fn skeleton_fn(n: Seq<XmlNodeModel>) -> spec_fn(int) -> Option<SkeletonModel> {
    |j: int| spec_skeleton(n, j)
}

pub open spec fn spec_skeletons(n: Seq<XmlNodeModel>, i: int) -> Option<SkeletonsModel> {
    match children_parsed(n, i, "Skeleton"@, skeleton_fn(n)) {
        Some(skeletons) => Some(SkeletonsModel { skeletons }),
        None => None,
    }
}

/// The sections found so far among the element children of an envelope.
pub struct SectionsModel {
    pub three_d: Option<ThreeDModel>,
    pub six_d: Option<SixDModel>,
    pub skeletons: Option<SkeletonsModel>,
}

/// Why an envelope is refused: a second section of this name, or a
/// section that does not read.
pub enum EnvelopeFailure {
    Duplicate(Seq<char>),
    Section,
}

/// The element children of envelope `r` before node `k`, read in order:
/// `The_3D`, `The_6D` and `Skeletons` each at most once, others ignored.
pub open spec fn envelope_upto(n: Seq<XmlNodeModel>, r: int, k: int) -> Result<
    SectionsModel,
    EnvelopeFailure,
>
    decreases k,
{
    if r < 0 || k <= r + 1 {
        Ok(SectionsModel { three_d: None, six_d: None, skeletons: None })
    } else {
        match envelope_upto(n, r, k - 1) {
            Err(f) => Err(f),
            Ok(s) => if is_child_element(n, r, k - 1) {
                let name = n[k - 1].name;
                if name == "The_3D"@ {
                    match spec_three_d(n, k - 1) {
                        Some(t) => if s.three_d is None {
                            Ok(SectionsModel { three_d: Some(t), ..s })
                        } else {
                            Err(EnvelopeFailure::Duplicate(name))
                        },
                        None => Err(EnvelopeFailure::Section),
                    }
                } else if name == "The_6D"@ {
                    match spec_six_d(n, k - 1) {
                        Some(t) => if s.six_d is None {
                            Ok(SectionsModel { six_d: Some(t), ..s })
                        } else {
                            Err(EnvelopeFailure::Duplicate(name))
                        },
                        None => Err(EnvelopeFailure::Section),
                    }
                } else if name == "Skeletons"@ {
                    match spec_skeletons(n, k - 1) {
                        Some(t) => if s.skeletons is None {
                            Ok(SectionsModel { skeletons: Some(t), ..s })
                        } else {
                            Err(EnvelopeFailure::Duplicate(name))
                        },
                        None => Err(EnvelopeFailure::Section),
                    }
                } else {
                    Ok(s)
                }
            } else {
                Ok(s)
            },
        }
    }
}

/// The first element child of node `p` at or after node `k`.
pub open spec fn first_element_from(n: Seq<XmlNodeModel>, p: int, k: int) -> Option<int>
    decreases n.len() - k,
{
    if k < 0 || k >= n.len() {
        None
    } else if is_child_element(n, p, k) {
        Some(k)
    } else {
        first_element_from(n, p, k + 1)
    }
}

/// The document's root element: the first element child of the document
/// node, which comes first.
pub open spec fn root_element(n: Seq<XmlNodeModel>) -> Option<int> {
    first_element_from(n, 0, 1)
}

/// A root element named like a settings envelope.
pub open spec fn is_envelope_name(name: Seq<char>) -> bool {
    starts_with(name, "QTM_Parameters_Ver_"@) || name == "QTM_Settings"@
}

/// The mocap settings of a document: a single section as its root
/// element, or any of them inside a settings envelope. `None` where the
/// document is refused.
pub open spec fn spec_mocap_parameters(n: Seq<XmlNodeModel>) -> Option<MocapParametersModel> {
    match root_element(n) {
        None => None,
        Some(r) => {
            let name = n[r].name;
            if name == "The_3D"@ {
                match spec_three_d(n, r) {
                    Some(t) => Some(
                        MocapParametersModel {
                            envelope_name: name,
                            three_d: Some(t),
                            six_d: None,
                            skeletons: None,
                        },
                    ),
                    None => None,
                }
            } else if name == "The_6D"@ {
                match spec_six_d(n, r) {
                    Some(t) => Some(
                        MocapParametersModel {
                            envelope_name: name,
                            three_d: None,
                            six_d: Some(t),
                            skeletons: None,
                        },
                    ),
                    None => None,
                }
            } else if name == "Skeletons"@ {
                match spec_skeletons(n, r) {
                    Some(t) => Some(
                        MocapParametersModel {
                            envelope_name: name,
                            three_d: None,
                            six_d: None,
                            skeletons: Some(t),
                        },
                    ),
                    None => None,
                }
            } else if is_envelope_name(name) {
                match envelope_upto(n, r, n.len() as int) {
                    Ok(s) => Some(
                        MocapParametersModel {
                            envelope_name: name,
                            three_d: s.three_d,
                            six_d: s.six_d,
                            skeletons: s.skeletons,
                        },
                    ),
                    Err(_) => None,
                }
            } else {
                None
            }
        },
    }
}

/// The message that refuses a document for its root: no root element, a
/// root element of no known kind, or a settings envelope holding a section
/// twice. `None` where the root is not why a document is refused.
pub open spec fn root_refusal(n: Seq<XmlNodeModel>) -> Option<Seq<char>> {
    match root_element(n) {
        None => Some("document has no root element"@),
        Some(r) => {
            let name = n[r].name;
            if name == "The_3D"@ || name == "The_6D"@ || name == "Skeletons"@ {
                None
            } else if is_envelope_name(name) {
                match envelope_upto(n, r, n.len() as int) {
                    Err(EnvelopeFailure::Duplicate(x)) => Some(duplicate_message(x)),
                    _ => None,
                }
            } else {
                Some("unsupported root element `"@ + name + "`"@)
            }
        },
    }
}

/// An outcome agrees with a model outcome: `Ok` with the model's value,
/// or an `InvalidParametersXml` error where the model has none.
pub open spec fn agrees<T: View>(r: Result<T, QtmError>, m: Option<T::V>) -> bool {
    match r {
        Ok(v) => m == Some(v@),
        Err(e) => m is None && e is InvalidParametersXml,
    }
}

pub open spec fn agrees_seq<T: View>(r: Result<Vec<T>, QtmError>, m: Option<Seq<T::V>>) -> bool {
    match r {
        Ok(v) => m == Some(views(v@)),
        Err(e) => m is None && e is InvalidParametersXml,
    }
}

// ---------------------------------------------------------------------------
// Reading values.
/// The texts one after the other.
pub open spec fn concat_texts(ps: Seq<Seq<char>>) -> Seq<char>
    decreases ps.len(),
{
    if ps.len() == 0 {
        Seq::empty()
    } else {
        concat_texts(ps.drop_last()) + ps.last()
    }
}

/// Three texts one after the other.
proof fn lemma_concat_three(parts: Seq<&str>, a: Seq<char>, b: Seq<char>, c: Seq<char>)
    requires
        parts.len() == 3,
        parts[0]@ == a,
        parts[1]@ == b,
        parts[2]@ == c,
    ensures
        concat_texts(parts.map_values(|p: &str| p@)) == a + b + c,
{
    let ps = parts.map_values(|p: &str| p@);
    assert(ps =~= seq![a, b, c]);
    let p2 = seq![a, b];
    let p1 = seq![a];
    assert(ps.drop_last() =~= p2);
    assert(p2.drop_last() =~= p1);
    assert(p1.drop_last() =~= Seq::<Seq<char>>::empty());
    assert(concat_texts(p1.drop_last()) == Seq::<char>::empty());
    assert(p1.last() == a);
    assert(Seq::<char>::empty() + a =~= a);
    assert(concat_texts(p1) =~= a);
    assert(concat_texts(p2) =~= a + b);
    assert(concat_texts(ps) =~= a + b + c);
}

/// A text on its own.
proof fn lemma_concat_one(parts: Seq<&str>, a: Seq<char>)
    requires
        parts.len() == 1,
        parts[0]@ == a,
    ensures
        concat_texts(parts.map_values(|p: &str| p@)) == a,
{
    let ps = parts.map_values(|p: &str| p@);
    assert(ps =~= seq![a]);
    assert(ps.drop_last() =~= Seq::<Seq<char>>::empty());
    assert(concat_texts(ps.drop_last()) == Seq::<char>::empty());
    assert(ps.last() == a);
    assert(Seq::<char>::empty() + a =~= a);
    assert(concat_texts(ps) =~= a);
}

/// An `InvalidParametersXml` error whose message is the parts joined.
fn xml_error(parts: &[&str]) -> (e: QtmError)
    ensures
        e matches QtmError::InvalidParametersXml(m) && m@ == concat_texts(
            parts@.map_values(|p: &str| p@),
        ),
{
    let ghost ps = parts@.map_values(|p: &str| p@);
    let mut message = String::new();
    let mut i: usize = 0;
    assert(ps.take(0) =~= Seq::<Seq<char>>::empty());
    while i < parts.len()
        invariant
            0 <= i <= parts.len(),
            ps == parts@.map_values(|p: &str| p@),
            message@ == concat_texts(ps.take(i as int)),
        decreases parts.len() - i,
    {
        push_str(&mut message, parts[i]);
        assert(ps.take(i + 1).drop_last() =~= ps.take(i as int));
        assert(ps[i as int] == parts@[i as int]@);
        i = i + 1;
    }
    assert(ps.take(parts.len() as int) =~= ps);
    QtmError::InvalidParametersXml(message)
}

fn invalid_value(context: &str, value: &str) -> (e: QtmError)
    ensures
        e is InvalidParametersXml,
{
    xml_error(&["invalid `", context, "` value `", value, "`"])
}

/// `value.trim().parse::<f32>()`, keeping the trimmed text.
fn parse_float(value: &str, context: &str) -> (r: Result<String, QtmError>)
    ensures
        agrees(r, float_text(value@)),
{
    let cs = chars_of(value);
    let t = trim_chars(cs.as_slice());
    if check_float_text(t.as_slice()) {
        Ok(crate::text::string_of(t.as_slice()))
    } else {
        Err(invalid_value(context, value))
    }
}

/// `value.trim().parse::<u32>()`.
fn parse_u32_value(value: &str, context: &str) -> (r: Result<u32, QtmError>)
    ensures
        agrees(r, u32_text(value@)),
{
    let cs = chars_of(value);
    let t = trim_chars(cs.as_slice());
    match parse_u32(t.as_slice()) {
        Some(v) => Ok(v),
        None => Err(invalid_value(context, value)),
    }
}

/// `value.trim().parse::<u8>()`.
fn parse_u8_value(value: &str, context: &str) -> (r: Result<u8, QtmError>)
    ensures
        agrees(r, u8_text(value@)),
{
    let cs = chars_of(value);
    let t = trim_chars(cs.as_slice());
    match parse_u8(t.as_slice()) {
        Some(v) => Ok(v),
        None => Err(invalid_value(context, value)),
    }
}

/// `value.trim().parse::<i32>()`.
fn parse_i32_value(value: &str, context: &str) -> (r: Result<i32, QtmError>)
    ensures
        agrees(r, i32_text(value@)),
{
    let cs = chars_of(value);
    let t = trim_chars(cs.as_slice());
    match parse_i32(t.as_slice()) {
        Some(v) => Ok(v),
        None => Err(invalid_value(context, value)),
    }
}

/// A boolean as the settings write it.
fn parse_bool_value(value: &str, context: &str) -> (r: Result<bool, QtmError>)
    ensures
        agrees(r, spec_parse_bool(value@)),
{
    let cs = chars_of(value);
    match parse_bool(cs.as_slice()) {
        Some(b) => Ok(b),
        None => Err(xml_error(&["invalid boolean `", value, "` in ", context])),
    }
}

fn opt_float(o: Option<String>, context: &str) -> (r: Result<Option<String>, QtmError>)
    ensures
        match r {
            Ok(v) => parse_opt(opt_text(o), float_fn()) == Some(opt_text(v)),
            Err(e) => parse_opt(opt_text(o), float_fn()) is None && e is InvalidParametersXml,
        },
{
    match o {
        Some(v) => match parse_float(v.as_str(), context) {
            Ok(t) => Ok(Some(t)),
            Err(e) => Err(e),
        },
        None => Ok(None),
    }
}

fn opt_u32(o: Option<String>, context: &str) -> (r: Result<Option<u32>, QtmError>)
    ensures
        agrees(r, parse_opt(opt_text(o), u32_fn())),
{
    match o {
        Some(v) => match parse_u32_value(v.as_str(), context) {
            Ok(t) => Ok(Some(t)),
            Err(e) => Err(e),
        },
        None => Ok(None),
    }
}

fn opt_i32(o: Option<String>, context: &str) -> (r: Result<Option<i32>, QtmError>)
    ensures
        agrees(r, parse_opt(opt_text(o), i32_fn())),
{
    match o {
        Some(v) => match parse_i32_value(v.as_str(), context) {
            Ok(t) => Ok(Some(t)),
            Err(e) => Err(e),
        },
        None => Ok(None),
    }
}

fn opt_bool(o: Option<String>, context: &str) -> (r: Result<Option<bool>, QtmError>)
    ensures
        agrees(r, parse_opt(opt_text(o), bool_fn())),
{
    match o {
        Some(v) => match parse_bool_value(v.as_str(), context) {
            Ok(t) => Ok(Some(t)),
            Err(e) => Err(e),
        },
        None => Ok(None),
    }
}

/// The trimmed, non-empty text of a required child element.
fn required_child_text(nodes: &Vec<XmlNode>, p: usize, name: &str, context: &str) -> (r: Result<
    String,
    QtmError,
>)
    requires
        p < nodes.len(),
    ensures
        agrees(r, optional_child_text(nodes_view(nodes@), p as int, name@)),
{
    match child_text(nodes, p, name) {
        Some(t) => Ok(t),
        None => Err(xml_error(&["missing `", name, "` element in ", context])),
    }
}

/// The trimmed, non-empty value of a required attribute, under the first
/// of `names` that the node has.
fn required_attr(nodes: &Vec<XmlNode>, i: usize, names: &[&str], context: &str) -> (r: Result<
    String,
    QtmError,
>)
    requires
        i < nodes.len(),
    ensures
        agrees(r, optional_attr(nodes_view(nodes@), i as int, names@.map_values(|s: &str| s@))),
{
    match attr_value(nodes, i, names) {
        Some(t) => Ok(t),
        None => {
            let mut joined = String::new();
            let mut k: usize = 0;
            while k < names.len()
                invariant
                    0 <= k <= names.len(),
                decreases names.len() - k,
            {
                if k > 0 {
                    push_str(&mut joined, " or ");
                }
                push_str(&mut joined, names[k]);
                k = k + 1;
            }
            Err(xml_error(&["missing attribute `", joined.as_str(), "` in ", context]))
        },
    }
}

/// A required attribute read as the text of an `f32`.
fn required_float_attr(nodes: &Vec<XmlNode>, i: usize, name: &str, context: &str) -> (r: Result<
    String,
    QtmError,
>)
    requires
        i < nodes.len(),
    ensures
        agrees(r, required_attr_value(nodes_view(nodes@), i as int, name@, float_fn())),
{
    let names = [name];
    assert(names@.map_values(|s: &str| s@) =~= seq![name@]);
    let v = required_attr(nodes, i, names.as_slice(), context)?;
    parse_float(v.as_str(), context)
}

/// A required attribute read as a `u8`.
fn required_u8_attr(nodes: &Vec<XmlNode>, i: usize, name: &str, context: &str) -> (r: Result<
    u8,
    QtmError,
>)
    requires
        i < nodes.len(),
    ensures
        agrees(r, required_attr_value(nodes_view(nodes@), i as int, name@, u8_fn())),
{
    let names = [name];
    assert(names@.map_values(|s: &str| s@) =~= seq![name@]);
    let v = required_attr(nodes, i, names.as_slice(), context)?;
    parse_u8_value(v.as_str(), context)
}

/// The required `X`, `Y` and `Z` attributes.
fn parse_xyz_attrs(nodes: &Vec<XmlNode>, i: usize, context: &str) -> (r: Result<
    [String; 3],
    QtmError,
>)
    requires
        i < nodes.len(),
    ensures
        match r {
            Ok(a) => spec_xyz(nodes_view(nodes@), i as int) == Some(texts(a)),
            Err(e) => spec_xyz(nodes_view(nodes@), i as int) is None && e is InvalidParametersXml,
        },
{
    let x = required_float_attr(nodes, i, "X", context)?;
    let y = required_float_attr(nodes, i, "Y", context)?;
    let z = required_float_attr(nodes, i, "Z", context)?;
    let a = [x, y, z];
    assert(texts(a) =~= seq![a[0]@, a[1]@, a[2]@]);
    Ok(a)
}

/// The required `X`, `Y`, `Z` and `W` attributes.
fn parse_xyzw_attrs(nodes: &Vec<XmlNode>, i: usize, context: &str) -> (r: Result<
    [String; 4],
    QtmError,
>)
    requires
        i < nodes.len(),
    ensures
        match r {
            Ok(a) => spec_xyzw(nodes_view(nodes@), i as int) == Some(texts(a)),
            Err(e) => spec_xyzw(nodes_view(nodes@), i as int) is None && e is InvalidParametersXml,
        },
{
    let x = required_float_attr(nodes, i, "X", context)?;
    let y = required_float_attr(nodes, i, "Y", context)?;
    let z = required_float_attr(nodes, i, "Z", context)?;
    let w = required_float_attr(nodes, i, "W", context)?;
    let a = [x, y, z, w];
    assert(texts(a) =~= seq![a[0]@, a[1]@, a[2]@, a[3]@]);
    Ok(a)
}

/// `X`, `Y` and `Z`: all absent, or all present as `f32` texts.
fn optional_xyz_attrs(nodes: &Vec<XmlNode>, i: usize, context: &str) -> (r: Result<
    Option<[String; 3]>,
    QtmError,
>)
    requires
        i < nodes.len(),
    ensures
        match r {
            Ok(o) => spec_optional_xyz(nodes_view(nodes@), i as int) == Some(opt_texts(o)),
            Err(e) => spec_optional_xyz(nodes_view(nodes@), i as int) is None
                && e is InvalidParametersXml,
        },
{
    let x = attr(nodes, i, "X");
    let y = attr(nodes, i, "Y");
    let z = attr(nodes, i, "Z");
    match (x, y, z) {
        (None, None, None) => Ok(None),
        (Some(x), Some(y), Some(z)) => {
            let x = parse_float(x.as_str(), context)?;
            let y = parse_float(y.as_str(), context)?;
            let z = parse_float(z.as_str(), context)?;
            let a = [x, y, z];
            assert(texts(a) =~= seq![a[0]@, a[1]@, a[2]@]);
            Ok(Some(a))
        },
        _ => Err(xml_error(&["incomplete XYZ attributes in ", context])),
    }
}

/// The nine rotation matrix attributes `R11` to `R33`: all absent, or all
/// present as `f32` texts.
fn parse_optional_rotation_matrix(nodes: &Vec<XmlNode>, i: usize, context: &str) -> (r: Result<
    Option<[String; 9]>,
    QtmError,
>)
    requires
        i < nodes.len(),
    ensures
        match r {
            Ok(o) => spec_rotation_matrix(nodes_view(nodes@), i as int) == Some(opt_texts(o)),
            Err(e) => spec_rotation_matrix(nodes_view(nodes@), i as int) is None
                && e is InvalidParametersXml,
        },
{
    let ghost n = nodes_view(nodes@);
    let ghost vals = rotation_values(n, i as int);
    let names: [&str; 9] = ["R11", "R12", "R13", "R21", "R22", "R23", "R31", "R32", "R33"];
    assert(names@.map_values(|s: &str| s@) =~= rotation_names());
    let mut values: Vec<Option<String>> = Vec::new();
    let mut k: usize = 0;
    while k < 9
        invariant
            0 <= k <= 9,
            i < nodes.len(),
            n == nodes_view(nodes@),
            vals == rotation_values(n, i as int),
            vals.len() == 9,
            names@.map_values(|s: &str| s@) == rotation_names(),
            values.len() == k,
            forall|m: int| 0 <= m < k ==> opt_text(#[trigger] values@[m]) == vals[m],
        decreases 9 - k,
    {
        assert(names@.map_values(|s: &str| s@)[k as int] == names@[k as int]@);
        values.push(attr(nodes, i, names[k]));
        k = k + 1;
    }
    let mut all_absent = true;
    let mut any_absent = false;
    k = 0;
    while k < 9
        invariant
            0 <= k <= 9,
            values.len() == 9,
            vals.len() == 9,
            forall|m: int| 0 <= m < 9 ==> opt_text(#[trigger] values@[m]) == vals[m],
            all_absent == (forall|m: int| 0 <= m < k ==> (#[trigger] values@[m]) is None),
            any_absent == (exists|m: int| 0 <= m < k && (#[trigger] values@[m]) is None),
        decreases 9 - k,
    {
        if values[k].is_none() {
            any_absent = true;
        } else {
            all_absent = false;
        }
        k = k + 1;
    }
    proof {
        assert forall|m: int| #![trigger values@[m]] #![trigger vals[m]] 0 <= m < 9 implies (
        values@[m] is None <==> vals[m] is None) by {
            assert(opt_text(values@[m]) == vals[m]);
        }
    }
    assert(all_absent <==> forall|m: int| 0 <= m < 9 ==> #[trigger] vals[m] is None);
    assert(any_absent <==> exists|m: int| 0 <= m < 9 && #[trigger] vals[m] is None);
    if all_absent {
        return Ok(None);
    }
    if any_absent {
        return Err(xml_error(&["incomplete rotation matrix attributes in ", context]));
    }
    let mut parsed: Vec<String> = Vec::new();
    k = 0;
    while k < 9
        invariant
            0 <= k <= 9,
            values.len() == 9,
            vals.len() == 9,
            n == nodes_view(nodes@),
            vals == rotation_values(n, i as int),
            parsed.len() == k,
            forall|m: int| 0 <= m < 9 ==> opt_text(#[trigger] values@[m]) == vals[m],
            forall|m: int| 0 <= m < 9 ==> !(#[trigger] vals[m] is None),
            forall|m: int| 0 <= m < k ==> float_text(#[trigger] vals[m]->0) == Some(parsed@[m]@),
        decreases 9 - k,
    {
        assert(!(vals[k as int] is None));
        match &values[k] {
            Some(v) => {
                match parse_float(v.as_str(), context) {
                    Ok(t) => parsed.push(t),
                    Err(e) => {
                        assert(float_text(vals[k as int]->0) is None);
                        assert(!(forall|m: int| 0 <= m < 9 ==> #[trigger] vals[m] is None));
                        assert(!(exists|m: int| 0 <= m < 9 && #[trigger] vals[m] is None));
                        return Err(e);
                    },
                }
            },
            None => {},
        }
        k = k + 1;
    }
    let a = [
        parsed[0].clone(),
        parsed[1].clone(),
        parsed[2].clone(),
        parsed[3].clone(),
        parsed[4].clone(),
        parsed[5].clone(),
        parsed[6].clone(),
        parsed[7].clone(),
        parsed[8].clone(),
    ];
    assert(texts(a) =~= vals.map_values(|v: Option<Seq<char>>| float_text(v->0)->0)) by {
        assert forall|m: int| 0 <= m < 9 implies texts(a)[m] == vals.map_values(
            |v: Option<Seq<char>>| float_text(v->0)->0,
        )[m] by {
            assert(float_text(vals[m]->0) == Some(parsed@[m]@));
        }
    }
    Ok(Some(a))
}

// ---------------------------------------------------------------------------
// Reading sections.
/// Whether node `k` is an element child of node `p` named `name`.
fn child_named(nodes: &Vec<XmlNode>, p: usize, k: usize, name: &str) -> (r: bool)
    requires
        p < k < nodes.len(),
    ensures
        r == is_child_named(nodes_view(nodes@), p as int, k as int, name@),
{
    let node = &nodes[k];
    assert(nodes_view(nodes@)[k as int] == node@);
    assert(nodes_view(nodes@)[p as int] == nodes@[p as int]@);
    node.is_element && node.parent == Some(nodes[p].id) && str_eq(node.name.as_str(), name)
}

/// Once a child fails to read, the whole list fails.
pub proof fn lemma_collect_none<T>(
    n: Seq<XmlNodeModel>,
    p: int,
    name: Seq<char>,
    f: spec_fn(int) -> Option<T>,
    k: int,
    m: int,
)
    requires
        k <= m,
        collect_children(n, p, name, k, f) is None,
    ensures
        collect_children(n, p, name, m, f) is None,
    decreases m - k,
{
    if m > k {
        lemma_collect_none(n, p, name, f, k, m - 1);
    }
}

fn parse_three_d_label(nodes: &Vec<XmlNode>, j: usize) -> (r: Result<MocapThreeDLabel, QtmError>)
    requires
        j < nodes.len(),
    ensures
        agrees(r, spec_label(nodes_view(nodes@), j as int)),
{
    let name = required_child_text(nodes, j, "Name", "3D label")?;
    let rgb_color = opt_u32(child_text(nodes, j, "RGBColor"), "3D label RGBColor")?;
    let trajectory_type = child_text(nodes, j, "Trajectory_Type");
    Ok(MocapThreeDLabel { name, rgb_color, trajectory_type })
}

fn parse_three_d_bone(nodes: &Vec<XmlNode>, j: usize) -> (r: Result<MocapThreeDBone, QtmError>)
    requires
        j < nodes.len(),
    ensures
        agrees(r, spec_bone(nodes_view(nodes@), j as int)),
{
    let from_names = ["From", "FromName", "fromName"];
    let to_names = ["To", "ToName", "toName"];
    let color_names = ["Color"];
    assert(from_names@.map_values(|s: &str| s@) =~= seq!["From"@, "FromName"@, "fromName"@]);
    assert(to_names@.map_values(|s: &str| s@) =~= seq!["To"@, "ToName"@, "toName"@]);
    assert(color_names@.map_values(|s: &str| s@) =~= seq!["Color"@]);
    let from_name = required_attr(nodes, j, from_names.as_slice(), "3D bone")?;
    let to_name = required_attr(nodes, j, to_names.as_slice(), "3D bone")?;
    let color = opt_u32(attr_value(nodes, j, color_names.as_slice()), "3D bone color")?;
    Ok(MocapThreeDBone { from_name, to_name, color })
}

fn parse_labels(nodes: &Vec<XmlNode>, p: usize) -> (r: Result<Vec<MocapThreeDLabel>, QtmError>)
    requires
        p < nodes.len(),
    ensures
        agrees_seq(r, children_parsed(nodes_view(nodes@), p as int, "Label"@, label_fn(nodes_view(nodes@)))),
{
    let ghost n = nodes_view(nodes@);
    let mut out: Vec<MocapThreeDLabel> = Vec::new();
    let mut k = p + 1;
    while k < nodes.len()
        invariant
            p < k <= nodes.len(),
            n == nodes_view(nodes@),
            collect_children(n, p as int, "Label"@, k as int, label_fn(n)) == Some(views(out@)),
        decreases nodes.len() - k,
    {
        if child_named(nodes, p, k, "Label") {
            match parse_three_d_label(nodes, k) {
                Ok(x) => {
                    proof {
                        lemma_views_push(out@, x);
                    }
                    out.push(x);
                },
                Err(e) => {
                    proof {
                        lemma_collect_none(n, p as int, "Label"@, label_fn(n), k + 1, n.len() as int);
                    }
                    return Err(e);
                },
            }
        }
        k = k + 1;
    }
    Ok(out)
}

fn parse_bones(nodes: &Vec<XmlNode>, p: usize) -> (r: Result<Vec<MocapThreeDBone>, QtmError>)
    requires
        p < nodes.len(),
    ensures
        agrees_seq(r, children_parsed(nodes_view(nodes@), p as int, "Bone"@, bone_fn(nodes_view(nodes@)))),
{
    let ghost n = nodes_view(nodes@);
    let mut out: Vec<MocapThreeDBone> = Vec::new();
    let mut k = p + 1;
    while k < nodes.len()
        invariant
            p < k <= nodes.len(),
            n == nodes_view(nodes@),
            collect_children(n, p as int, "Bone"@, k as int, bone_fn(n)) == Some(views(out@)),
        decreases nodes.len() - k,
    {
        if child_named(nodes, p, k, "Bone") {
            match parse_three_d_bone(nodes, k) {
                Ok(x) => {
                    proof {
                        lemma_views_push(out@, x);
                    }
                    out.push(x);
                },
                Err(e) => {
                    proof {
                        lemma_collect_none(n, p as int, "Bone"@, bone_fn(n), k + 1, n.len() as int);
                    }
                    return Err(e);
                },
            }
        }
        k = k + 1;
    }
    Ok(out)
}

fn parse_three_d(nodes: &Vec<XmlNode>, i: usize) -> (r: Result<MocapThreeDParameters, QtmError>)
    requires
        i < nodes.len(),
    ensures
        agrees(r, spec_three_d(nodes_view(nodes@), i as int)),
{
    let labels = parse_labels(nodes, i)?;
    let bones = match find_child(nodes, i, "Bones") {
        Some(b) => parse_bones(nodes, b)?,
        None => {
            let v: Vec<MocapThreeDBone> = Vec::new();
            assert(views(v@) =~= Seq::<BoneModel>::empty());
            v
        },
    };
    Ok(
        MocapThreeDParameters {
            axis_upwards: child_text(nodes, i, "AxisUpwards"),
            calibration_time: child_text(nodes, i, "CalibrationTime"),
            labels,
            bones,
        },
    )
}

fn parse_six_d_point(nodes: &Vec<XmlNode>, j: usize) -> (r: Result<MocapRigidBodyPoint, QtmError>)
    requires
        j < nodes.len(),
    ensures
        agrees(r, spec_point(nodes_view(nodes@), j as int)),
{
    let position = parse_xyz_attrs(nodes, j, "6D point")?;
    let virtual_point = opt_bool(attr(nodes, j, "Virtual"), "6D point Virtual")?;
    let physical_id = opt_i32(attr(nodes, j, "PhysicalId"), "6D point PhysicalId")?;
    let name = attr(nodes, j, "Name");
    Ok(MocapRigidBodyPoint { position, virtual_point, physical_id, name })
}

fn parse_origin(nodes: &Vec<XmlNode>, j: usize) -> (r: Result<MocapOrigin, QtmError>)
    requires
        j < nodes.len(),
    ensures
        agrees(r, spec_origin(nodes_view(nodes@), j as int)),
{
    assert(nodes_view(nodes@)[j as int] == nodes@[j as int]@);
    let text = match &nodes[j].text {
        Some(t) => trimmed_text(t.as_str()),
        None => None,
    };
    let origin_type = opt_i32(text, "Data_origin value")?;
    let position = optional_xyz_attrs(nodes, j, "Data_origin")?;
    let relative_body = opt_i32(attr(nodes, j, "Relative_body"), "Data_origin Relative_body")?;
    Ok(MocapOrigin { origin_type, position, relative_body })
}

fn parse_orientation(nodes: &Vec<XmlNode>, j: usize) -> (r: Result<MocapOrientation, QtmError>)
    requires
        j < nodes.len(),
    ensures
        agrees(r, spec_orientation(nodes_view(nodes@), j as int)),
{
    let rotation_matrix = parse_optional_rotation_matrix(nodes, j, "Data_orientation")?;
    let relative_body = opt_i32(
        attr(nodes, j, "Relative_body"),
        "Data_orientation Relative_body",
    )?;
    Ok(MocapOrientation { rotation_matrix, relative_body })
}

fn parse_color(nodes: &Vec<XmlNode>, c: usize) -> (r: Result<[u8; 3], QtmError>)
    requires
        c < nodes.len(),
    ensures
        match r {
            Ok(a) => spec_color(nodes_view(nodes@), c as int) == Some(a@),
            Err(e) => spec_color(nodes_view(nodes@), c as int) is None && e is InvalidParametersXml,
        },
{
    let red = required_u8_attr(nodes, c, "R", "6D body color")?;
    let green = required_u8_attr(nodes, c, "G", "6D body color")?;
    let blue = required_u8_attr(nodes, c, "B", "6D body color")?;
    let a = [red, green, blue];
    assert(a@ =~= seq![red, green, blue]);
    Ok(a)
}

fn parse_points(nodes: &Vec<XmlNode>, p: usize) -> (r: Result<Vec<MocapRigidBodyPoint>, QtmError>)
    requires
        p < nodes.len(),
    ensures
        agrees_seq(r, children_parsed(nodes_view(nodes@), p as int, "Point"@, point_fn(nodes_view(nodes@)))),
{
    let ghost n = nodes_view(nodes@);
    let mut out: Vec<MocapRigidBodyPoint> = Vec::new();
    let mut k = p + 1;
    while k < nodes.len()
        invariant
            p < k <= nodes.len(),
            n == nodes_view(nodes@),
            collect_children(n, p as int, "Point"@, k as int, point_fn(n)) == Some(views(out@)),
        decreases nodes.len() - k,
    {
        if child_named(nodes, p, k, "Point") {
            match parse_six_d_point(nodes, k) {
                Ok(x) => {
                    proof {
                        lemma_views_push(out@, x);
                    }
                    out.push(x);
                },
                Err(e) => {
                    proof {
                        lemma_collect_none(n, p as int, "Point"@, point_fn(n), k + 1, n.len() as int);
                    }
                    return Err(e);
                },
            }
        }
        k = k + 1;
    }
    Ok(out)
}

fn parse_six_d_body(nodes: &Vec<XmlNode>, j: usize) -> (r: Result<MocapRigidBody, QtmError>)
    requires
        j < nodes.len(),
    ensures
        agrees(r, spec_body(nodes_view(nodes@), j as int)),
{
    let ghost n = nodes_view(nodes@);
    let color_rgb = match find_child(nodes, j, "Color") {
        Some(c) => Some(parse_color(nodes, c)?),
        None => None,
    };
    let points = match find_child(nodes, j, "Points") {
        Some(c) => parse_points(nodes, c)?,
        None => {
            let v: Vec<MocapRigidBodyPoint> = Vec::new();
            assert(views(v@) =~= Seq::<PointModel>::empty());
            v
        },
    };
    let name = required_child_text(nodes, j, "Name", "6D body")?;
    let enabled = opt_bool(child_text(nodes, j, "Enabled"), "Enabled")?;
    let maximum_residual = opt_float(child_text(nodes, j, "MaximumResidual"), "MaximumResidual")?;
    let minimum_markers_in_body = opt_u32(
        child_text(nodes, j, "MinimumMarkersInBody"),
        "6D MinimumMarkersInBody",
    )?;
    let bone_length_tolerance = opt_float(
        child_text(nodes, j, "BoneLengthTolerance"),
        "BoneLengthTolerance",
    )?;
    let filter_preset = match find_child(nodes, j, "Filter") {
        Some(f) => match find_attribute(nodes, f, "Preset") {
            Some(v) => Some(v.clone()),
            None => None,
        },
        None => None,
    };
    let data_origin = match find_child(nodes, j, "Data_origin") {
        Some(c) => Some(parse_origin(nodes, c)?),
        None => None,
    };
    let data_orientation = match find_child(nodes, j, "Data_orientation") {
        Some(c) => Some(parse_orientation(nodes, c)?),
        None => None,
    };
    Ok(
        MocapRigidBody {
            name,
            enabled,
            color_rgb,
            maximum_residual,
            minimum_markers_in_body,
            bone_length_tolerance,
            filter_preset,
            points,
            data_origin,
            data_orientation,
        },
    )
}

fn parse_bodies(nodes: &Vec<XmlNode>, p: usize) -> (r: Result<Vec<MocapRigidBody>, QtmError>)
    requires
        p < nodes.len(),
    ensures
        agrees_seq(r, children_parsed(nodes_view(nodes@), p as int, "Body"@, body_fn(nodes_view(nodes@)))),
{
    let ghost n = nodes_view(nodes@);
    let mut out: Vec<MocapRigidBody> = Vec::new();
    let mut k = p + 1;
    while k < nodes.len()
        invariant
            p < k <= nodes.len(),
            n == nodes_view(nodes@),
            collect_children(n, p as int, "Body"@, k as int, body_fn(n)) == Some(views(out@)),
        decreases nodes.len() - k,
    {
        if child_named(nodes, p, k, "Body") {
            match parse_six_d_body(nodes, k) {
                Ok(x) => {
                    proof {
                        lemma_views_push(out@, x);
                    }
                    out.push(x);
                },
                Err(e) => {
                    proof {
                        lemma_collect_none(n, p as int, "Body"@, body_fn(n), k + 1, n.len() as int);
                    }
                    return Err(e);
                },
            }
        }
        k = k + 1;
    }
    Ok(out)
}

fn parse_six_d(nodes: &Vec<XmlNode>, i: usize) -> (r: Result<MocapSixDParameters, QtmError>)
    requires
        i < nodes.len(),
    ensures
        agrees(r, spec_six_d(nodes_view(nodes@), i as int)),
{
    let bodies = parse_bodies(nodes, i)?;
    Ok(MocapSixDParameters { bodies })
}

fn parse_transform(nodes: &Vec<XmlNode>, j: usize) -> (r: Result<MocapTransform, QtmError>)
    requires
        j < nodes.len(),
    ensures
        agrees(r, spec_transform(nodes_view(nodes@), j as int)),
{
    let position = match find_child(nodes, j, "Position") {
        Some(c) => Some(parse_xyz_attrs(nodes, c, "Transform position")?),
        None => None,
    };
    let rotation_xyzw = match find_child(nodes, j, "Rotation") {
        Some(c) => Some(parse_xyzw_attrs(nodes, c, "Transform rotation")?),
        None => None,
    };
    Ok(MocapTransform { position, rotation_xyzw })
}

fn parse_skeleton_marker(nodes: &Vec<XmlNode>, j: usize) -> (r: Result<MocapSkeletonMarker, QtmError>)
    requires
        j < nodes.len(),
    ensures
        agrees(r, spec_marker(nodes_view(nodes@), j as int)),
{
    let names = ["Name"];
    assert(names@.map_values(|s: &str| s@) =~= seq!["Name"@]);
    let name = required_attr(nodes, j, names.as_slice(), "Skeleton marker")?;
    let position = match find_child(nodes, j, "Position") {
        Some(c) => Some(parse_xyz_attrs(nodes, c, "Skeleton marker position")?),
        None => None,
    };
    let weight = opt_float(child_text(nodes, j, "Weight"), "Weight")?;
    Ok(MocapSkeletonMarker { name, position, weight })
}

fn parse_skeleton_rigid_body(nodes: &Vec<XmlNode>, j: usize) -> (r: Result<
    MocapSkeletonRigidBody,
    QtmError,
>)
    requires
        j < nodes.len(),
    ensures
        agrees(r, spec_skeleton_rigid_body(nodes_view(nodes@), j as int)),
{
    let names = ["Name"];
    assert(names@.map_values(|s: &str| s@) =~= seq!["Name"@]);
    let name = required_attr(nodes, j, names.as_slice(), "Skeleton rigid body")?;
    let transform = match find_child(nodes, j, "Transform") {
        Some(c) => Some(parse_transform(nodes, c)?),
        None => None,
    };
    let weight = opt_float(child_text(nodes, j, "Weight"), "Weight")?;
    Ok(MocapSkeletonRigidBody { name, transform, weight })
}

fn parse_markers(nodes: &Vec<XmlNode>, p: usize) -> (r: Result<Vec<MocapSkeletonMarker>, QtmError>)
    requires
        p < nodes.len(),
    ensures
        agrees_seq(r, children_parsed(nodes_view(nodes@), p as int, "Marker"@, marker_fn(nodes_view(nodes@)))),
{
    let ghost n = nodes_view(nodes@);
    let mut out: Vec<MocapSkeletonMarker> = Vec::new();
    let mut k = p + 1;
    while k < nodes.len()
        invariant
            p < k <= nodes.len(),
            n == nodes_view(nodes@),
            collect_children(n, p as int, "Marker"@, k as int, marker_fn(n)) == Some(views(out@)),
        decreases nodes.len() - k,
    {
        if child_named(nodes, p, k, "Marker") {
            match parse_skeleton_marker(nodes, k) {
                Ok(x) => {
                    proof {
                        lemma_views_push(out@, x);
                    }
                    out.push(x);
                },
                Err(e) => {
                    proof {
                        lemma_collect_none(n, p as int, "Marker"@, marker_fn(n), k + 1, n.len() as int);
                    }
                    return Err(e);
                },
            }
        }
        k = k + 1;
    }
    Ok(out)
}

fn parse_skeleton_rigid_bodies(nodes: &Vec<XmlNode>, p: usize) -> (r: Result<Vec<MocapSkeletonRigidBody>, QtmError>)
    requires
        p < nodes.len(),
    ensures
        agrees_seq(r, children_parsed(nodes_view(nodes@), p as int, "RigidBody"@, skeleton_rigid_body_fn(nodes_view(nodes@)))),
{
    let ghost n = nodes_view(nodes@);
    let mut out: Vec<MocapSkeletonRigidBody> = Vec::new();
    let mut k = p + 1;
    while k < nodes.len()
        invariant
            p < k <= nodes.len(),
            n == nodes_view(nodes@),
            collect_children(n, p as int, "RigidBody"@, k as int, skeleton_rigid_body_fn(n)) == Some(views(out@)),
        decreases nodes.len() - k,
    {
        if child_named(nodes, p, k, "RigidBody") {
            match parse_skeleton_rigid_body(nodes, k) {
                Ok(x) => {
                    proof {
                        lemma_views_push(out@, x);
                    }
                    out.push(x);
                },
                Err(e) => {
                    proof {
                        lemma_collect_none(n, p as int, "RigidBody"@, skeleton_rigid_body_fn(n), k + 1, n.len() as int);
                    }
                    return Err(e);
                },
            }
        }
        k = k + 1;
    }
    Ok(out)
}

/// Once a child segment fails to read, the whole list fails.
pub proof fn lemma_segments_none(n: Seq<XmlNodeModel>, p: int, k: int, m: int)
    requires
        k <= m,
        segments_upto(n, p, k) is None,
    ensures
        segments_upto(n, p, m) is None,
    decreases m - k,
{
    if m > k {
        lemma_segments_none(n, p, k, m - 1);
    }
}

fn parse_skeleton_segment(nodes: &Vec<XmlNode>, i: usize) -> (r: Result<
    MocapSkeletonSegment,
    QtmError,
>)
    requires
        i < nodes.len(),
    ensures
        agrees(r, spec_segment(nodes_view(nodes@), i as int)),
    decreases nodes.len() - i, 1usize,
{
    let markers = match find_child(nodes, i, "Markers") {
        Some(c) => parse_markers(nodes, c)?,
        None => {
            let v: Vec<MocapSkeletonMarker> = Vec::new();
            assert(views(v@) =~= Seq::<MarkerModel>::empty());
            v
        },
    };
    let rigid_bodies = match find_child(nodes, i, "RigidBodies") {
        Some(c) => parse_skeleton_rigid_bodies(nodes, c)?,
        None => {
            let v: Vec<MocapSkeletonRigidBody> = Vec::new();
            assert(views(v@) =~= Seq::<SkeletonRigidBodyModel>::empty());
            v
        },
    };
    let child_segments = parse_segment_children(nodes, i)?;
    let names = ["Name"];
    assert(names@.map_values(|s: &str| s@) =~= seq!["Name"@]);
    let name = required_attr(nodes, i, names.as_slice(), "Skeleton segment")?;
    let id = opt_i32(attr(nodes, i, "ID"), "Skeleton segment ID")?;
    let solver = child_text(nodes, i, "Solver");
    let transform = match find_child(nodes, i, "Transform") {
        Some(c) => Some(parse_transform(nodes, c)?),
        None => None,
    };
    let default_transform = match find_child(nodes, i, "DefaultTransform") {
        Some(c) => Some(parse_transform(nodes, c)?),
        None => None,
    };
    let endpoint = match find_child(nodes, i, "Endpoint") {
        Some(c) => Some(parse_xyz_attrs(nodes, c, "Skeleton endpoint")?),
        None => None,
    };
    let segment = MocapSkeletonSegment {
        name,
        id,
        solver,
        transform,
        default_transform,
        endpoint,
        markers,
        rigid_bodies,
        child_segments,
    };
    assert(segment_view(segment).child_segments =~= views(segment.child_segments@));
    Ok(segment)
}

/// The `Segment` children of node `p`, each read as a segment.
fn parse_segment_children(nodes: &Vec<XmlNode>, p: usize) -> (r: Result<
    Vec<MocapSkeletonSegment>,
    QtmError,
>)
    requires
        p < nodes.len(),
    ensures
        agrees_seq(r, segments_upto(nodes_view(nodes@), p as int, nodes.len() as int)),
    decreases nodes.len() - p, 0usize,
{
    let ghost n = nodes_view(nodes@);
    let mut out: Vec<MocapSkeletonSegment> = Vec::new();
    let mut k = p + 1;
    while k < nodes.len()
        invariant
            p < k <= nodes.len(),
            n == nodes_view(nodes@),
            segments_upto(n, p as int, k as int) == Some(views(out@)),
        decreases nodes.len() - k,
    {
        if child_named(nodes, p, k, "Segment") {
            match parse_skeleton_segment(nodes, k) {
                Ok(x) => {
                    proof {
                        lemma_views_push(out@, x);
                    }
                    out.push(x);
                },
                Err(e) => {
                    proof {
                        lemma_segments_none(n, p as int, k + 1, n.len() as int);
                    }
                    return Err(e);
                },
            }
        }
        k = k + 1;
    }
    Ok(out)
}

fn parse_skeleton(nodes: &Vec<XmlNode>, j: usize) -> (r: Result<MocapSkeleton, QtmError>)
    requires
        j < nodes.len(),
    ensures
        agrees(r, spec_skeleton(nodes_view(nodes@), j as int)),
{
    let segments = match find_child(nodes, j, "Segments") {
        Some(c) => parse_segment_children(nodes, c)?,
        None => {
            let v: Vec<MocapSkeletonSegment> = Vec::new();
            assert(views(v@) =~= Seq::<SegmentModel>::empty());
            v
        },
    };
    let names = ["Name"];
    assert(names@.map_values(|s: &str| s@) =~= seq!["Name"@]);
    let name = required_attr(nodes, j, names.as_slice(), "Skeleton")?;
    let scale = opt_float(child_text(nodes, j, "Scale"), "Scale")?;
    Ok(MocapSkeleton { name, scale, segments })
}

fn parse_skeleton_list(nodes: &Vec<XmlNode>, p: usize) -> (r: Result<Vec<MocapSkeleton>, QtmError>)
    requires
        p < nodes.len(),
    ensures
        agrees_seq(r, children_parsed(nodes_view(nodes@), p as int, "Skeleton"@, skeleton_fn(nodes_view(nodes@)))),
{
    let ghost n = nodes_view(nodes@);
    let mut out: Vec<MocapSkeleton> = Vec::new();
    let mut k = p + 1;
    while k < nodes.len()
        invariant
            p < k <= nodes.len(),
            n == nodes_view(nodes@),
            collect_children(n, p as int, "Skeleton"@, k as int, skeleton_fn(n)) == Some(views(out@)),
        decreases nodes.len() - k,
    {
        if child_named(nodes, p, k, "Skeleton") {
            match parse_skeleton(nodes, k) {
                Ok(x) => {
                    proof {
                        lemma_views_push(out@, x);
                    }
                    out.push(x);
                },
                Err(e) => {
                    proof {
                        lemma_collect_none(n, p as int, "Skeleton"@, skeleton_fn(n), k + 1, n.len() as int);
                    }
                    return Err(e);
                },
            }
        }
        k = k + 1;
    }
    Ok(out)
}

fn parse_skeletons(nodes: &Vec<XmlNode>, i: usize) -> (r: Result<MocapSkeletonParameters, QtmError>)
    requires
        i < nodes.len(),
    ensures
        agrees(r, spec_skeletons(nodes_view(nodes@), i as int)),
{
    let skeletons = parse_skeleton_list(nodes, i)?;
    Ok(MocapSkeletonParameters { skeletons })
}

// ---------------------------------------------------------------------------
// The document.
impl MocapParameters {
    /// Settings with the given envelope name and no section.
    pub fn new(envelope_name: String) -> (p: MocapParameters)
        ensures
            p.envelope_name == envelope_name,
            p.three_d is None,
            p.six_d is None,
            p.skeletons is None,
    {
        MocapParameters { envelope_name, three_d: None, six_d: None, skeletons: None }
    }

    /// Whether no section was found.
    pub fn is_empty(&self) -> (r: bool)
        ensures
            r == (self.three_d is None && self.six_d is None && self.skeletons is None),
    {
        self.three_d.is_none() && self.six_d.is_none() && self.skeletons.is_none()
    }
}

/// The message that refuses a second section of the same name.
pub open spec fn duplicate_message(name: Seq<char>) -> Seq<char> {
    "duplicate `"@ + name + "` element"@
}

/// Fills an empty slot; a filled one is a duplicate section.
fn assign_once<T>(slot: &mut Option<T>, name: &str, value: T) -> (r: Result<(), QtmError>)
    ensures
        match r {
            Ok(()) => *old(slot) is None && *final(slot) == Some(value),
            Err(e) => *old(slot) is Some && *final(slot) == *old(slot) && (e matches QtmError::InvalidParametersXml(
                m,
            ) && m@ == duplicate_message(name@)),
        },
{
    if slot.is_some() {
        let parts = ["duplicate `", name, "` element"];
        let e = xml_error(parts.as_slice());
        proof {
            lemma_concat_three(parts@, "duplicate `"@, name@, "` element"@);
        }
        return Err(e);
    }
    *slot = Some(value);
    Ok(())
}

/// Once the envelope fails to read, it stays failed for the same reason.
proof fn lemma_envelope_failed(n: Seq<XmlNodeModel>, r: int, k: int, m: int)
    requires
        k <= m,
        envelope_upto(n, r, k) is Err,
    ensures
        envelope_upto(n, r, m) == envelope_upto(n, r, k),
    decreases m - k,
{
    if m > k {
        lemma_envelope_failed(n, r, k, m - 1);
    }
}

pub open spec fn sections_of(p: MocapParameters) -> SectionsModel {
    SectionsModel {
        three_d: opt_view(p.three_d),
        six_d: opt_view(p.six_d),
        skeletons: opt_view(p.skeletons),
    }
}

/// The sections inside a settings envelope `r`.
fn parse_envelope(nodes: &Vec<XmlNode>, r: usize, name: String) -> (res: Result<
    MocapParameters,
    QtmError,
>)
    requires
        r < nodes.len(),
    ensures
        match res {
            Ok(p) => p.envelope_name == name && envelope_upto(
                nodes_view(nodes@),
                r as int,
                nodes.len() as int,
            ) == Ok::<SectionsModel, EnvelopeFailure>(sections_of(p)),
            Err(e) => match envelope_upto(nodes_view(nodes@), r as int, nodes.len() as int) {
                Ok(_) => false,
                Err(EnvelopeFailure::Duplicate(x)) => e matches QtmError::InvalidParametersXml(m)
                    && m@ == duplicate_message(x),
                Err(EnvelopeFailure::Section) => e is InvalidParametersXml,
            },
        },
{
    let ghost n = nodes_view(nodes@);
    let mut parameters = MocapParameters::new(name);
    let mut k = r + 1;
    while k < nodes.len()
        invariant
            r < k <= nodes.len(),
            n == nodes_view(nodes@),
            parameters.envelope_name == name,
            envelope_upto(n, r as int, k as int) == Ok::<SectionsModel, EnvelopeFailure>(sections_of(parameters)),
        decreases nodes.len() - k,
    {
        let node = &nodes[k];
        assert(n[k as int] == node@);
        assert(n[r as int] == nodes@[r as int]@);
        if node.is_element && node.parent == Some(nodes[r].id) {
            let child = node.name.as_str();
            if str_eq(child, "The_3D") {
                match parse_three_d(nodes, k) {
                    Ok(t) => match assign_once(&mut parameters.three_d, "The_3D", t) {
                        Ok(()) => {},
                        Err(e) => {
                            proof {
                                lemma_envelope_failed(n, r as int, k + 1, n.len() as int);
                            }
                            return Err(e);
                        },
                    },
                    Err(e) => {
                        proof {
                            lemma_envelope_failed(n, r as int, k + 1, n.len() as int);
                        }
                        return Err(e);
                    },
                }
            } else if str_eq(child, "The_6D") {
                match parse_six_d(nodes, k) {
                    Ok(t) => match assign_once(&mut parameters.six_d, "The_6D", t) {
                        Ok(()) => {},
                        Err(e) => {
                            proof {
                                lemma_envelope_failed(n, r as int, k + 1, n.len() as int);
                            }
                            return Err(e);
                        },
                    },
                    Err(e) => {
                        proof {
                            lemma_envelope_failed(n, r as int, k + 1, n.len() as int);
                        }
                        return Err(e);
                    },
                }
            } else if str_eq(child, "Skeletons") {
                match parse_skeletons(nodes, k) {
                    Ok(t) => match assign_once(&mut parameters.skeletons, "Skeletons", t) {
                        Ok(()) => {},
                        Err(e) => {
                            proof {
                                lemma_envelope_failed(n, r as int, k + 1, n.len() as int);
                            }
                            return Err(e);
                        },
                    },
                    Err(e) => {
                        proof {
                            lemma_envelope_failed(n, r as int, k + 1, n.len() as int);
                        }
                        return Err(e);
                    },
                }
            }
        }
        k = k + 1;
    }
    Ok(parameters)
}

/// The document's root element.
fn find_root_element(nodes: &Vec<XmlNode>) -> (r: Option<usize>)
    ensures
        match r {
            Some(i) => root_element(nodes_view(nodes@)) == Some(i as int) && 0 < i < nodes.len(),
            None => root_element(nodes_view(nodes@)) is None,
        },
{
    let ghost n = nodes_view(nodes@);
    if nodes.len() == 0 {
        return None;
    }
    assert(n[0] == nodes@[0]@);
    let mut k: usize = 1;
    while k < nodes.len()
        invariant
            1 <= k <= nodes.len(),
            n == nodes_view(nodes@),
            n[0] == nodes@[0]@,
            root_element(n) == first_element_from(n, 0, k as int),
        decreases nodes.len() - k,
    {
        assert(n[k as int] == nodes@[k as int]@);
        if nodes[k].is_element && nodes[k].parent == Some(nodes[0].id) {
            return Some(k);
        }
        k = k + 1;
    }
    None
}

/// Reads the mocap settings from the nodes of a parsed settings document:
/// a `The_3D`, `The_6D` or `Skeletons` root element, or a settings
/// envelope (`QTM_Parameters_Ver_...` or `QTM_Settings`) holding any of
/// them at most once.
pub fn parse_mocap_parameters_nodes(nodes: &Vec<XmlNode>) -> (r: Result<MocapParameters, QtmError>)
    ensures
        agrees(r, spec_mocap_parameters(nodes_view(nodes@))),
        root_refusal(nodes_view(nodes@)) matches Some(message) ==> (r matches Err(
            QtmError::InvalidParametersXml(m),
        ) && m@ == message),
{
    let root = match find_root_element(nodes) {
        Some(root) => root,
        None => {
            let parts = ["document has no root element"];
            proof {
                lemma_concat_one(parts@, "document has no root element"@);
            }
            return Err(xml_error(parts.as_slice()));
        },
    };
    assert(nodes_view(nodes@)[root as int] == nodes@[root as int]@);
    let root_name = nodes[root].name.as_str();
    if str_eq(root_name, "The_3D") {
        let t = parse_three_d(nodes, root)?;
        let mut parameters = MocapParameters::new(root_name.to_owned());
        parameters.three_d = Some(t);
        Ok(parameters)
    } else if str_eq(root_name, "The_6D") {
        let t = parse_six_d(nodes, root)?;
        let mut parameters = MocapParameters::new(root_name.to_owned());
        parameters.six_d = Some(t);
        Ok(parameters)
    } else if str_eq(root_name, "Skeletons") {
        let t = parse_skeletons(nodes, root)?;
        let mut parameters = MocapParameters::new(root_name.to_owned());
        parameters.skeletons = Some(t);
        Ok(parameters)
    } else if str_starts_with(root_name, "QTM_Parameters_Ver_") || str_eq(root_name, "QTM_Settings") {
        parse_envelope(nodes, root, root_name.to_owned())
    } else {
        let parts = ["unsupported root element `", root_name, "`"];
        proof {
            lemma_concat_three(parts@, "unsupported root element `"@, root_name@, "`"@);
        }
        Err(xml_error(parts.as_slice()))
    }
}

/// Parses the mocap sections of QTM `GetParameters` XML. Text that is not
/// XML gives `QtmError::Xml`; XML that is not valid mocap settings gives
/// `QtmError::InvalidParametersXml`.
pub fn parse_mocap_parameters_xml(xml: &str) -> (r: Result<MocapParameters, QtmError>)
    ensures
        match xml_document_nodes(xml@) {
            None => r matches Err(QtmError::Xml(_)),
            Some(n) => agrees(r, spec_mocap_parameters(n)) && (root_refusal(n) matches Some(message)
                ==> (r matches Err(QtmError::InvalidParametersXml(m)) && m@ == message)),
        },
{
    match parse_xml_nodes(xml) {
        Ok(nodes) => parse_mocap_parameters_nodes(&nodes),
        Err(e) => Err(QtmError::Xml(e)),
    }
}

/// A `Data_orientation` rotation matrix is read row by row: entry
/// `3 * (r - 1) + (c - 1)` is the value of attribute `R<r><c>`.
pub proof fn law_orientation_row_major(n: Seq<XmlNodeModel>, j: int)
    requires
        spec_orientation(n, j) matches Some(o) && o.rotation_matrix is Some,
    ensures
        ({
            let m = spec_orientation(n, j)->0.rotation_matrix->0;
            &&& m.len() == 9
            &&& float_text(optional_attr(n, j, seq!["R11"@])->0) == Some(m[0])
            &&& float_text(optional_attr(n, j, seq!["R12"@])->0) == Some(m[1])
            &&& float_text(optional_attr(n, j, seq!["R13"@])->0) == Some(m[2])
            &&& float_text(optional_attr(n, j, seq!["R21"@])->0) == Some(m[3])
            &&& float_text(optional_attr(n, j, seq!["R22"@])->0) == Some(m[4])
            &&& float_text(optional_attr(n, j, seq!["R23"@])->0) == Some(m[5])
            &&& float_text(optional_attr(n, j, seq!["R31"@])->0) == Some(m[6])
            &&& float_text(optional_attr(n, j, seq!["R32"@])->0) == Some(m[7])
            &&& float_text(optional_attr(n, j, seq!["R33"@])->0) == Some(m[8])
        }),
{
    let vals = rotation_values(n, j);
    let m = spec_orientation(n, j)->0.rotation_matrix->0;
    assert(forall|k: int| 0 <= k < 9 ==> #[trigger] vals[k] == optional_attr(
        n,
        j,
        seq![rotation_names()[k]],
    ));
    assert(!(exists|k: int| 0 <= k < 9 && #[trigger] vals[k] is None));
    assert(forall|k: int| 0 <= k < 9 ==> #[trigger] float_text(vals[k]->0) is Some);
    assert(forall|k: int| 0 <= k < 9 ==> #[trigger] m[k] == float_text(vals[k]->0)->0);
    assert(vals[0] is Some && vals[1] is Some && vals[2] is Some);
    assert(vals[3] is Some && vals[4] is Some && vals[5] is Some);
    assert(vals[6] is Some && vals[7] is Some && vals[8] is Some);
}

} // verus!
