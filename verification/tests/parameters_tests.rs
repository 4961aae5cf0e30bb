use qualisys_rust_sdk::error::QtmError;
use qualisys_rust_sdk::parameters::{
    parse_mocap_parameters_nodes, parse_mocap_parameters_xml, MocapParameters,
};
use qualisys_rust_sdk::xml::{XmlAttribute, XmlNode};

const SAMPLE_PARAMETERS_XML: &str = r#"
<QTM_Parameters_Ver_1.27>
  <General>
    <Frequency>300</Frequency>
  </General>
  <The_3D>
    <AxisUpwards>+Z</AxisUpwards>
    <CalibrationTime>2026.04.10 12:30:00</CalibrationTime>
    <Labels>2</Labels>
    <Label>
      <Name>Head</Name>
      <RGBColor>255</RGBColor>
      <Trajectory_Type>Measured</Trajectory_Type>
    </Label>
    <Label>
      <Name>Hand</Name>
      <RGBColor>65280</RGBColor>
      <Trajectory_Type>Virtual</Trajectory_Type>
    </Label>
    <Bones>
      <Bone From="Head" To="Hand" Color="16711680" />
    </Bones>
  </The_3D>
  <The_6D>
    <Body>
      <Name>Torso</Name>
      <Enabled>true</Enabled>
      <Color R="1" G="2" B="3" />
      <MaximumResidual>0.5</MaximumResidual>
      <MinimumMarkersInBody>3</MinimumMarkersInBody>
      <BoneLengthTolerance>1.5</BoneLengthTolerance>
      <Filter Preset="Static pose" />
      <Points>
        <Point X="0.0" Y="1.0" Z="2.0" Virtual="0" PhysicalId="10" Name="P1" />
        <Point X="3.0" Y="4.0" Z="5.0" Virtual="1" PhysicalId="11" Name="P2" />
      </Points>
      <Data_origin X="10.0" Y="20.0" Z="30.0" Relative_body="0">1</Data_origin>
      <Data_orientation R11="1" R12="0" R13="0" R21="0" R22="1" R23="0" R31="0" R32="0" R33="1" Relative_body="0" />
    </Body>
  </The_6D>
  <Skeletons>
    <Skeleton Name="Human">
      <Scale>1.0</Scale>
      <Segments>
        <Segment Name="Pelvis" ID="10">
          <Solver>Global Optimization</Solver>
          <Transform>
            <Position X="1.0" Y="2.0" Z="3.0" />
            <Rotation X="0.0" Y="0.0" Z="0.0" W="1.0" />
          </Transform>
          <Markers>
            <Marker Name="PelvisMarker">
              <Position X="4.0" Y="5.0" Z="6.0" />
              <Weight>0.8</Weight>
            </Marker>
          </Markers>
          <RigidBodies>
            <RigidBody Name="Torso">
              <Transform>
                <Position X="7.0" Y="8.0" Z="9.0" />
                <Rotation X="0.0" Y="0.0" Z="0.0" W="1.0" />
              </Transform>
              <Weight>1.0</Weight>
            </RigidBody>
          </RigidBodies>
          <Segment Name="Thigh" ID="11">
            <Endpoint X="10.0" Y="11.0" Z="12.0" />
          </Segment>
        </Segment>
      </Segments>
    </Skeleton>
  </Skeletons>
</QTM_Parameters_Ver_1.27>
"#;

fn floats<const N: usize>(texts: &[String; N]) -> [f32; N] {
    texts.clone().map(|t| t.parse::<f32>().expect("f32 text"))
}

#[test]
fn parses_mocap_parameter_envelope() {
    let parameters = parse_mocap_parameters_xml(SAMPLE_PARAMETERS_XML).expect("valid mocap XML");

    assert_eq!(parameters.envelope_name, "QTM_Parameters_Ver_1.27");
    assert!(!parameters.is_empty());

    let three_d = parameters.three_d.expect("3D section");
    assert_eq!(three_d.axis_upwards.as_deref(), Some("+Z"));
    assert_eq!(three_d.labels.len(), 2);
    assert_eq!(three_d.labels[0].name, "Head");
    assert_eq!(three_d.labels[1].rgb_color, Some(65_280));
    assert_eq!(three_d.bones[0].from_name, "Head");
    assert_eq!(three_d.bones[0].to_name, "Hand");

    let six_d = parameters.six_d.expect("6D section");
    assert_eq!(six_d.bodies.len(), 1);
    assert_eq!(six_d.bodies[0].name, "Torso");
    assert_eq!(six_d.bodies[0].enabled, Some(true));
    assert_eq!(six_d.bodies[0].color_rgb, Some([1, 2, 3]));
    assert_eq!(six_d.bodies[0].points.len(), 2);
    assert_eq!(
        six_d.bodies[0].data_origin.as_ref().and_then(|o| o.origin_type),
        Some(1)
    );
    assert_eq!(
        six_d.bodies[0]
            .data_orientation
            .as_ref()
            .and_then(|o| o.rotation_matrix.as_ref())
            .map(floats),
        Some([1.0, 0.0, 0.0, 0.0, 1.0, 0.0, 0.0, 0.0, 1.0])
    );

    let skeletons = parameters.skeletons.expect("Skeleton section");
    assert_eq!(skeletons.skeletons.len(), 1);
    assert_eq!(skeletons.skeletons[0].name, "Human");
    assert_eq!(skeletons.skeletons[0].segments.len(), 1);
    assert_eq!(skeletons.skeletons[0].segments[0].name, "Pelvis");
    assert_eq!(skeletons.skeletons[0].segments[0].child_segments[0].id, Some(11));
}

#[test]
fn parses_direct_section_root() {
    let parameters = parse_mocap_parameters_xml(
        r#"
<The_6D>
  <Body>
    <Name>RigidBody</Name>
  </Body>
</The_6D>
"#,
    )
    .expect("valid direct 6D XML");

    assert_eq!(parameters.envelope_name, "The_6D");
    assert!(parameters.three_d.is_none());
    assert_eq!(parameters.six_d.expect("6D").bodies[0].name, "RigidBody");
}

#[test]
fn rejects_unknown_root() {
    let error = parse_mocap_parameters_xml("<General />").expect_err("unknown root");
    assert!(matches!(error, QtmError::InvalidParametersXml(_)));
}

#[test]
fn reads_every_detail_of_the_sample() {
    let parameters = parse_mocap_parameters_xml(SAMPLE_PARAMETERS_XML).expect("valid mocap XML");
    let three_d = parameters.three_d.as_ref().expect("3D");
    assert_eq!(three_d.calibration_time.as_deref(), Some("2026.04.10 12:30:00"));
    assert_eq!(three_d.labels[0].rgb_color, Some(255));
    assert_eq!(three_d.labels[0].trajectory_type.as_deref(), Some("Measured"));
    assert_eq!(three_d.bones[0].color, Some(16_711_680));

    let body = &parameters.six_d.as_ref().expect("6D").bodies[0];
    assert_eq!(body.maximum_residual.as_deref(), Some("0.5"));
    assert_eq!(body.minimum_markers_in_body, Some(3));
    assert_eq!(body.bone_length_tolerance.as_deref(), Some("1.5"));
    assert_eq!(body.filter_preset.as_deref(), Some("Static pose"));
    assert_eq!(floats(&body.points[1].position), [3.0, 4.0, 5.0]);
    assert_eq!(body.points[0].virtual_point, Some(false));
    assert_eq!(body.points[1].virtual_point, Some(true));
    assert_eq!(body.points[1].physical_id, Some(11));
    assert_eq!(body.points[0].name.as_deref(), Some("P1"));
    let origin = body.data_origin.as_ref().expect("origin");
    assert_eq!(origin.position.as_ref().map(floats), Some([10.0, 20.0, 30.0]));
    assert_eq!(origin.relative_body, Some(0));
    assert_eq!(body.data_orientation.as_ref().expect("orientation").relative_body, Some(0));

    let skeleton = &parameters.skeletons.as_ref().expect("skeletons").skeletons[0];
    assert_eq!(skeleton.scale.as_deref(), Some("1.0"));
    let pelvis = &skeleton.segments[0];
    assert_eq!(pelvis.id, Some(10));
    assert_eq!(pelvis.solver.as_deref(), Some("Global Optimization"));
    let transform = pelvis.transform.as_ref().expect("transform");
    assert_eq!(transform.position.as_ref().map(floats), Some([1.0, 2.0, 3.0]));
    assert_eq!(transform.rotation_xyzw.as_ref().map(floats), Some([0.0, 0.0, 0.0, 1.0]));
    assert!(pelvis.default_transform.is_none());
    assert_eq!(pelvis.markers[0].name, "PelvisMarker");
    assert_eq!(pelvis.markers[0].weight.as_deref(), Some("0.8"));
    assert_eq!(pelvis.rigid_bodies[0].name, "Torso");
    assert_eq!(pelvis.rigid_bodies[0].weight.as_deref(), Some("1.0"));
    let thigh = &pelvis.child_segments[0];
    assert_eq!(thigh.name, "Thigh");
    assert_eq!(thigh.endpoint.as_ref().map(floats), Some([10.0, 11.0, 12.0]));
    assert!(thigh.child_segments.is_empty());
}

#[test]
fn malformed_xml_is_an_xml_error() {
    let error = parse_mocap_parameters_xml("<The_3D>").expect_err("unclosed element");
    assert!(matches!(error, QtmError::Xml(_)));
}

#[test]
fn duplicate_section_is_refused() {
    let error = parse_mocap_parameters_xml("<QTM_Settings><The_6D/><The_6D/></QTM_Settings>")
        .expect_err("duplicate 6D");
    assert!(matches!(error, QtmError::InvalidParametersXml(_)));
}

#[test]
fn envelope_without_sections_is_empty() {
    let parameters = parse_mocap_parameters_xml("<QTM_Settings><General/></QTM_Settings>").expect("valid");
    assert_eq!(parameters.envelope_name, "QTM_Settings");
    assert!(parameters.is_empty());
    assert!(MocapParameters::new("X".to_owned()).is_empty());
}

#[test]
fn missing_required_values_are_refused() {
    for xml in [
        "<The_3D><Label><RGBColor>1</RGBColor></Label></The_3D>",
        "<The_3D><Label><Name>A</Name><RGBColor>-1</RGBColor></Label></The_3D>",
        "<The_3D><Bones><Bone To=\"B\"/></Bones></The_3D>",
        "<The_6D><Body><Name>B</Name><Enabled>maybe</Enabled></Body></The_6D>",
        "<The_6D><Body><Name>B</Name><Color R=\"256\" G=\"0\" B=\"0\"/></Body></The_6D>",
        "<The_6D><Body><Name>B</Name><MaximumResidual>abc</MaximumResidual></Body></The_6D>",
        "<The_6D><Body><Name>B</Name><Data_origin X=\"1\" Y=\"2\"/></Body></The_6D>",
        "<The_6D><Body><Name>B</Name><Data_orientation R11=\"1\"/></Body></The_6D>",
        "<Skeletons><Skeleton><Scale>1</Scale></Skeleton></Skeletons>",
        "<Skeletons><Skeleton Name=\"S\"><Segments><Segment Name=\"A\"><Segment ID=\"x\" Name=\"B\"/></Segment></Segments></Skeleton></Skeletons>",
    ] {
        let error = parse_mocap_parameters_xml(xml).expect_err(xml);
        assert!(matches!(error, QtmError::InvalidParametersXml(_)), "{xml}");
    }
}

#[test]
fn values_are_trimmed_and_bones_take_alternative_names() {
    let parameters = parse_mocap_parameters_xml(
        "<The_3D><Label><Name>  Knee </Name><RGBColor> 12 </RGBColor></Label><Bones><Bone fromName=\" A \" ToName=\"B\"/></Bones></The_3D>",
    )
    .expect("valid");
    let three_d = parameters.three_d.expect("3D");
    assert_eq!(three_d.labels[0].name, "Knee");
    assert_eq!(three_d.labels[0].rgb_color, Some(12));
    assert_eq!(three_d.bones[0].from_name, "A");
    assert_eq!(three_d.bones[0].to_name, "B");
    assert_eq!(three_d.bones[0].color, None);
}

fn node(id: usize, parent: Option<usize>, name: &str, attributes: Vec<XmlAttribute>) -> XmlNode {
    XmlNode {
        id,
        parent,
        is_element: !name.is_empty(),
        name: name.to_owned(),
        text: None,
        attributes,
    }
}

#[test]
fn parses_from_node_list() {
    let name = XmlAttribute { namespace: None, name: "Name".to_owned(), value: " S ".to_owned() };
    let nodes = vec![
        node(0, None, "", vec![]),
        node(1, Some(0), "Skeletons", vec![]),
        node(2, Some(1), "Skeleton", vec![name]),
    ];
    let parameters = parse_mocap_parameters_nodes(&nodes).expect("valid");
    assert_eq!(parameters.envelope_name, "Skeletons");
    assert_eq!(parameters.skeletons.expect("skeletons").skeletons[0].name, "S");
    assert!(matches!(parse_mocap_parameters_nodes(&Vec::new()), Err(QtmError::InvalidParametersXml(_))));
}

#[test]
fn namespaced_attributes_are_not_read() {
    let foreign = XmlAttribute {
        namespace: Some("urn:x".to_owned()),
        name: "Name".to_owned(),
        value: "S".to_owned(),
    };
    let nodes = vec![
        node(0, None, "", vec![]),
        node(1, Some(0), "Skeletons", vec![]),
        node(2, Some(1), "Skeleton", vec![foreign]),
    ];
    assert!(matches!(parse_mocap_parameters_nodes(&nodes), Err(QtmError::InvalidParametersXml(_))));
}

#[test]
fn duplicate_section_message_names_the_element() {
    let error = parse_mocap_parameters_xml(
        "<QTM_Parameters_Ver_1.27><Skeletons/><The_3D/><Skeletons/></QTM_Parameters_Ver_1.27>",
    )
    .expect_err("duplicate skeletons");
    match error {
        QtmError::InvalidParametersXml(message) => assert_eq!(message, "duplicate `Skeletons` element"),
        other => panic!("unexpected error {other:?}"),
    }
    let error = parse_mocap_parameters_xml("<QTM_Settings><The_6D/><The_6D/></QTM_Settings>")
        .expect_err("duplicate 6D");
    match error {
        QtmError::InvalidParametersXml(message) => assert_eq!(message, "duplicate `The_6D` element"),
        other => panic!("unexpected error {other:?}"),
    }
}

#[test]
fn root_refusals_name_the_reason() {
    match parse_mocap_parameters_xml("<General><Frequency>100</Frequency></General>") {
        Err(QtmError::InvalidParametersXml(message)) => assert_eq!(message, "unsupported root element `General`"),
        other => panic!("unexpected result {other:?}"),
    }
    match parse_mocap_parameters_xml("not xml") {
        Err(QtmError::Xml(_)) => {}
        other => panic!("unexpected result {other:?}"),
    }
}
