use qualisys_rust_sdk::cli::{
    component_label, component_type_label, normalize_token, parse_component, parse_component_list,
    parse_parameter, parse_parameter_list, parse_protocol_version, parse_stream_rate, split_list,
    summarize_component,
};
use qualisys_rust_sdk::packet::{
    AnalogComponent, AnalogDevice, Camera2D, Component, ComponentData, Marker2D, Skeleton,
    SkeletonComponent, TwoDComponent,
};
use qualisys_rust_sdk::protocol::{ComponentSelection, ComponentType, ParameterSelection, StreamRate};

#[test]
fn splits_and_normalizes_lists() {
    assert_eq!(split_list(" 3d, ,6D ,,skeleton "), vec!["3d", "6D", "skeleton"]);
    assert!(split_list("").is_empty());
    assert!(split_list(" , ").is_empty());
    assert_eq!(normalize_token("  Six_D-Res idual "), "sixdresidual");
    assert_eq!(normalize_token("Skeleton:Global"), "skeleton:global");
}

#[test]
fn parses_component_names() {
    assert_eq!(parse_component("3D"), Ok(ComponentSelection::ThreeD));
    assert_eq!(parse_component("2d-lin"), Ok(ComponentSelection::TwoDLinearized));
    assert_eq!(parse_component("6d_euler_residual"), Ok(ComponentSelection::SixDEulerResidual));
    assert_eq!(parse_component("analog"), Ok(ComponentSelection::Analog { channels: vec![] }));
    assert_eq!(parse_component("skeleton"), Ok(ComponentSelection::Skeleton { global: false }));
    assert_eq!(parse_component("skeleton:global"), Ok(ComponentSelection::Skeleton { global: true }));
    assert_eq!(parse_component("Skeleton Global"), Ok(ComponentSelection::Skeleton { global: true }));
    assert_eq!(parse_component("9d"), Err("unsupported component '9d'".to_owned()));
}

#[test]
fn parses_component_lists() {
    assert_eq!(
        parse_component_list("3d, 6d"),
        Ok(vec![ComponentSelection::ThreeD, ComponentSelection::SixD])
    );
    assert_eq!(parse_component_list(" , "), Err("component list cannot be empty".to_owned()));
    assert_eq!(parse_component_list("3d,bogus,worse"), Err("unsupported component 'bogus'".to_owned()));
}

#[test]
fn parses_parameter_lists() {
    assert_eq!(parse_parameter("General"), Ok(ParameterSelection::General));
    assert_eq!(parse_parameter("skeleton_global"), Ok(ParameterSelection::SkeletonGlobal));
    assert_eq!(parse_parameter("x"), Err("unsupported parameter selection 'x'".to_owned()));
    assert_eq!(
        parse_parameter_list("general,3d,6d,skeleton"),
        Ok(vec![
            ParameterSelection::General,
            ParameterSelection::ThreeD,
            ParameterSelection::SixD,
            ParameterSelection::Skeleton,
        ])
    );
    assert_eq!(parse_parameter_list("all"), Ok(vec![ParameterSelection::All]));
    assert_eq!(
        parse_parameter_list("all,3d"),
        Err("'all' cannot be combined with other parameter selections".to_owned())
    );
    assert_eq!(parse_parameter_list(""), Err("parameter list cannot be empty".to_owned()));
}

#[test]
fn parses_protocol_versions() {
    let v = parse_protocol_version("1.27").expect("version");
    assert_eq!((v.major, v.minor), (1, 27));
    assert_eq!(
        parse_protocol_version("127"),
        Err("protocol version must use MAJOR.MINOR format".to_owned())
    );
    assert_eq!(
        parse_protocol_version("a.1"),
        Err("protocol major version must be an unsigned integer".to_owned())
    );
    assert_eq!(
        parse_protocol_version("1.2.3"),
        Err("protocol minor version must be an unsigned integer".to_owned())
    );
}

#[test]
fn parses_stream_rates() {
    assert_eq!(parse_stream_rate(" AllFrames "), Ok(StreamRate::AllFrames));
    assert_eq!(parse_stream_rate("all"), Ok(StreamRate::AllFrames));
    assert_eq!(parse_stream_rate("frequency:100"), Ok(StreamRate::Frequency(100)));
    assert_eq!(parse_stream_rate("HZ:50"), Ok(StreamRate::Frequency(50)));
    assert_eq!(parse_stream_rate("divisor:4"), Ok(StreamRate::FrequencyDivisor(4)));
    assert_eq!(parse_stream_rate("frequencydivisor:2"), Ok(StreamRate::FrequencyDivisor(2)));
    assert_eq!(parse_stream_rate("hz:fast"), Err("frequency must be an unsigned integer".to_owned()));
    assert_eq!(
        parse_stream_rate("divisor:-1"),
        Err("frequency divisor must be an unsigned integer".to_owned())
    );
    assert_eq!(
        parse_stream_rate("often"),
        Err("stream rate must be allframes, frequency:<hz>, or divisor:<n>".to_owned())
    );
}

#[test]
fn summarizes_components() {
    let two_d = ComponentData::TwoD(TwoDComponent {
        drop_rate: 0,
        out_of_sync_rate: 0,
        cameras: vec![
            Camera2D { status_flag: 0, markers: vec![Marker2D { x: 1, y: 2, diameter_x: 3, diameter_y: 4 }; 2] },
            Camera2D { status_flag: 1, markers: vec![Marker2D { x: 1, y: 2, diameter_x: 3, diameter_y: 4 }; 3] },
        ],
    });
    assert_eq!(summarize_component(&two_d), "2 cameras, 5 markers");
    let analog = ComponentData::Analog(AnalogComponent {
        devices: vec![AnalogDevice {
            device_id: 1,
            channel_count: 2,
            sample_count: 1,
            sample_number: None,
            channels: vec![vec![0], vec![0]],
        }],
    });
    assert_eq!(summarize_component(&analog), "1 devices, 2 channels");
    let skeleton = ComponentData::Skeleton(SkeletonComponent {
        skeletons: vec![Skeleton { segments: vec![] }, Skeleton { segments: vec![] }],
    });
    assert_eq!(summarize_component(&skeleton), "2 skeletons, 0 segments");
    assert_eq!(summarize_component(&ComponentData::Raw(vec![1, 2, 3])), "3 raw bytes");
}

#[test]
fn labels_components() {
    assert_eq!(component_type_label(ComponentType::SixDResidual), "SixDResidual");
    let known = Component { id: 5, data: ComponentData::Raw(vec![]) };
    assert_eq!(component_label(&known), "SixD");
    let unknown = Component { id: 99, data: ComponentData::Raw(vec![]) };
    assert_eq!(component_label(&unknown), "component_99");
}

#[test]
fn command_words_read_back() {
    for p in [
        ParameterSelection::All,
        ParameterSelection::General,
        ParameterSelection::ThreeD,
        ParameterSelection::SixD,
        ParameterSelection::Analog,
        ParameterSelection::Force,
        ParameterSelection::GazeVector,
        ParameterSelection::EyeTracker,
        ParameterSelection::Image,
        ParameterSelection::Skeleton,
        ParameterSelection::SkeletonGlobal,
        ParameterSelection::Calibration,
    ] {
        assert_eq!(parse_parameter(p.as_command_fragment()), Ok(p));
    }
    for c in [
        ComponentSelection::TwoD,
        ComponentSelection::TwoDLinearized,
        ComponentSelection::ThreeD,
        ComponentSelection::ThreeDResidual,
        ComponentSelection::ThreeDNoLabels,
        ComponentSelection::ThreeDNoLabelsResidual,
        ComponentSelection::Analog { channels: vec![] },
        ComponentSelection::AnalogSingle { channels: vec![] },
        ComponentSelection::Force,
        ComponentSelection::ForceSingle,
        ComponentSelection::SixD,
        ComponentSelection::SixDResidual,
        ComponentSelection::SixDEuler,
        ComponentSelection::SixDEulerResidual,
        ComponentSelection::Image,
        ComponentSelection::GazeVector,
        ComponentSelection::EyeTracker,
        ComponentSelection::Timecode,
        ComponentSelection::Skeleton { global: false },
        ComponentSelection::Skeleton { global: true },
    ] {
        assert_eq!(parse_component(&c.as_command_fragment()), Ok(c.clone()));
    }
}

#[test]
fn stream_rate_words_read_back() {
    for rate in [
        StreamRate::AllFrames,
        StreamRate::Frequency(0),
        StreamRate::Frequency(100),
        StreamRate::Frequency(u32::MAX),
        StreamRate::FrequencyDivisor(1),
        StreamRate::FrequencyDivisor(4294967295),
    ] {
        assert_eq!(parse_stream_rate(&rate.as_command_fragment()), Ok(rate));
    }
}
