//! QTM RT protocol vocabulary: packet types, events, component kinds and the
//! text commands the client sends.

use vstd::prelude::*;

use crate::text::{decimal, push_char, push_decimal, push_str};

verus! {

/// Port base of the QTM RT interface.
pub const BASE_PORT: u16 = 22222;

/// Port of the little-endian RT interface.
pub const LITTLE_ENDIAN_PORT: u16 = BASE_PORT + 1;

/// Port of the big-endian RT interface.
pub const BIG_ENDIAN_PORT: u16 = BASE_PORT + 2;

/// Text of the command packet QTM sends when a client connects.
pub const INITIAL_GREETING: &'static str = "QTM RT Interface connected";

/// Version of the RT protocol that a client asks QTM for.
#[derive(Debug, Clone, Copy, PartialEq, Eq, Hash)]
pub struct ProtocolVersion {
    pub major: u32,
    pub minor: u32,
}

impl ProtocolVersion {
    pub fn new(major: u32, minor: u32) -> (v: Self)
        ensures
            v.major == major,
            v.minor == minor,
    {
        ProtocolVersion { major, minor }
    }
}

/// The newest protocol version this library speaks, 1.27.
pub fn latest_protocol_version() -> (v: ProtocolVersion)
    ensures
        v.major == 1,
        v.minor == 27,
{
    ProtocolVersion { major: 1, minor: 27 }
}

impl Default for ProtocolVersion {
    fn default() -> (v: Self)
        ensures
            v.major == 1,
            v.minor == 27,
    {
        latest_protocol_version()
    }
}

/// Kind of an RT packet, as carried in the second word of its header.
#[derive(Debug, Clone, Copy, PartialEq, Eq, Hash)]
pub enum PacketType {
    Error,
    Command,
    Xml,
    Data,
    NoMoreData,
    C3dFile,
    Event,
    Discover,
    QtmFile,
    PacketNone,
}

impl PacketType {
    /// The number that stands for this packet type on the wire.
    pub open spec fn spec_value(self) -> u32 {
        match self {
            PacketType::Error => 0,
            PacketType::Command => 1,
            PacketType::Xml => 2,
            PacketType::Data => 3,
            PacketType::NoMoreData => 4,
            PacketType::C3dFile => 5,
            PacketType::Event => 6,
            PacketType::Discover => 7,
            PacketType::QtmFile => 8,
            PacketType::PacketNone => 9,
        }
    }

    /// The number that stands for this packet type on the wire.
    pub fn value(self) -> (v: u32)
        ensures
            v == self.spec_value(),
    {
        match self {
            PacketType::Error => 0,
            PacketType::Command => 1,
            PacketType::Xml => 2,
            PacketType::Data => 3,
            PacketType::NoMoreData => 4,
            PacketType::C3dFile => 5,
            PacketType::Event => 6,
            PacketType::Discover => 7,
            PacketType::QtmFile => 8,
            PacketType::PacketNone => 9,
        }
    }

    /// The packet type a wire number stands for, if any.
    pub open spec fn spec_from_value(value: u32) -> Option<PacketType> {
        match value {
            0 => Some(PacketType::Error),
            1 => Some(PacketType::Command),
            2 => Some(PacketType::Xml),
            3 => Some(PacketType::Data),
            4 => Some(PacketType::NoMoreData),
            5 => Some(PacketType::C3dFile),
            6 => Some(PacketType::Event),
            7 => Some(PacketType::Discover),
            8 => Some(PacketType::QtmFile),
            9 => Some(PacketType::PacketNone),
            _ => None,
        }
    }

    /// The packet type a wire number stands for; numbers above 9 are
    /// handed back as the error.
    pub fn try_from_u32(value: u32) -> (r: Result<PacketType, u32>)
        ensures
            r == match PacketType::spec_from_value(value) {
                Some(t) => Ok::<PacketType, u32>(t),
                None => Err(value),
            },
            value <= 9 ==> (r matches Ok(t) && t.spec_value() == value),
            value > 9 ==> r == Err::<PacketType, u32>(value),
    {
        match value {
            0 => Ok(PacketType::Error),
            1 => Ok(PacketType::Command),
            2 => Ok(PacketType::Xml),
            3 => Ok(PacketType::Data),
            4 => Ok(PacketType::NoMoreData),
            5 => Ok(PacketType::C3dFile),
            6 => Ok(PacketType::Event),
            7 => Ok(PacketType::Discover),
            8 => Ok(PacketType::QtmFile),
            9 => Ok(PacketType::PacketNone),
            other => Err(other),
        }
    }
}

/// An event QTM reports to its clients.
#[derive(Debug, Clone, Copy, PartialEq, Eq, Hash)]
pub enum Event {
    Connected,
    ConnectionClosed,
    CaptureStarted,
    CaptureStopped,
    CaptureFetchingFinished,
    CalibrationStarted,
    CalibrationStopped,
    RtFromFileStarted,
    RtFromFileStopped,
    WaitingForTrigger,
    CameraSettingsChanged,
    QtmShuttingDown,
    CaptureSaved,
    ReprocessingStarted,
    ReprocessingStopped,
    Trigger,
}

impl Event {
    /// The byte that stands for this event on the wire.
    pub open spec fn spec_value(self) -> u8 {
        match self {
            Event::Connected => 1,
            Event::ConnectionClosed => 2,
            Event::CaptureStarted => 3,
            Event::CaptureStopped => 4,
            Event::CaptureFetchingFinished => 5,
            Event::CalibrationStarted => 6,
            Event::CalibrationStopped => 7,
            Event::RtFromFileStarted => 8,
            Event::RtFromFileStopped => 9,
            Event::WaitingForTrigger => 10,
            Event::CameraSettingsChanged => 11,
            Event::QtmShuttingDown => 12,
            Event::CaptureSaved => 13,
            Event::ReprocessingStarted => 14,
            Event::ReprocessingStopped => 15,
            Event::Trigger => 16,
        }
    }

    /// The byte that stands for this event on the wire.
    pub fn value(self) -> (v: u8)
        ensures
            v == self.spec_value(),
    {
        match self {
            Event::Connected => 1,
            Event::ConnectionClosed => 2,
            Event::CaptureStarted => 3,
            Event::CaptureStopped => 4,
            Event::CaptureFetchingFinished => 5,
            Event::CalibrationStarted => 6,
            Event::CalibrationStopped => 7,
            Event::RtFromFileStarted => 8,
            Event::RtFromFileStopped => 9,
            Event::WaitingForTrigger => 10,
            Event::CameraSettingsChanged => 11,
            Event::QtmShuttingDown => 12,
            Event::CaptureSaved => 13,
            Event::ReprocessingStarted => 14,
            Event::ReprocessingStopped => 15,
            Event::Trigger => 16,
        }
    }

    /// The event a wire byte stands for, if any.
    pub open spec fn spec_from_value(value: u8) -> Option<Event> {
        match value {
            1 => Some(Event::Connected),
            2 => Some(Event::ConnectionClosed),
            3 => Some(Event::CaptureStarted),
            4 => Some(Event::CaptureStopped),
            5 => Some(Event::CaptureFetchingFinished),
            6 => Some(Event::CalibrationStarted),
            7 => Some(Event::CalibrationStopped),
            8 => Some(Event::RtFromFileStarted),
            9 => Some(Event::RtFromFileStopped),
            10 => Some(Event::WaitingForTrigger),
            11 => Some(Event::CameraSettingsChanged),
            12 => Some(Event::QtmShuttingDown),
            13 => Some(Event::CaptureSaved),
            14 => Some(Event::ReprocessingStarted),
            15 => Some(Event::ReprocessingStopped),
            16 => Some(Event::Trigger),
            _ => None,
        }
    }

    /// The event a wire byte stands for; bytes outside 1..=16 are handed
    /// back as the error.
    pub fn try_from_u8(value: u8) -> (r: Result<Event, u8>)
        ensures
            r == match Event::spec_from_value(value) {
                Some(e) => Ok::<Event, u8>(e),
                None => Err(value),
            },
            1 <= value <= 16 ==> (r matches Ok(e) && e.spec_value() == value),
            !(1 <= value <= 16) ==> r == Err::<Event, u8>(value),
    {
        match value {
            1 => Ok(Event::Connected),
            2 => Ok(Event::ConnectionClosed),
            3 => Ok(Event::CaptureStarted),
            4 => Ok(Event::CaptureStopped),
            5 => Ok(Event::CaptureFetchingFinished),
            6 => Ok(Event::CalibrationStarted),
            7 => Ok(Event::CalibrationStopped),
            8 => Ok(Event::RtFromFileStarted),
            9 => Ok(Event::RtFromFileStopped),
            10 => Ok(Event::WaitingForTrigger),
            11 => Ok(Event::CameraSettingsChanged),
            12 => Ok(Event::QtmShuttingDown),
            13 => Ok(Event::CaptureSaved),
            14 => Ok(Event::ReprocessingStarted),
            15 => Ok(Event::ReprocessingStopped),
            16 => Ok(Event::Trigger),
            other => Err(other),
        }
    }
}

/// Kind of a component inside a data packet.
#[derive(Debug, Clone, Copy, PartialEq, Eq, Hash)]
pub enum ComponentType {
    ThreeD,
    ThreeDNoLabels,
    Analog,
    Force,
    SixD,
    SixDEuler,
    TwoD,
    TwoDLinearized,
    ThreeDResidual,
    ThreeDNoLabelsResidual,
    SixDResidual,
    SixDEulerResidual,
    AnalogSingle,
    Image,
    ForceSingle,
    GazeVector,
    Timecode,
    Skeleton,
    EyeTracker,
}

impl ComponentType {
    /// The component id that stands for this kind on the wire.
    pub open spec fn spec_value(self) -> u32 {
        match self {
            ComponentType::ThreeD => 1,
            ComponentType::ThreeDNoLabels => 2,
            ComponentType::Analog => 3,
            ComponentType::Force => 4,
            ComponentType::SixD => 5,
            ComponentType::SixDEuler => 6,
            ComponentType::TwoD => 7,
            ComponentType::TwoDLinearized => 8,
            ComponentType::ThreeDResidual => 9,
            ComponentType::ThreeDNoLabelsResidual => 10,
            ComponentType::SixDResidual => 11,
            ComponentType::SixDEulerResidual => 12,
            ComponentType::AnalogSingle => 13,
            ComponentType::Image => 14,
            ComponentType::ForceSingle => 15,
            ComponentType::GazeVector => 16,
            ComponentType::Timecode => 17,
            ComponentType::Skeleton => 18,
            ComponentType::EyeTracker => 19,
        }
    }

    /// The component id that stands for this kind on the wire.
    pub fn value(self) -> (v: u32)
        ensures
            v == self.spec_value(),
    {
        match self {
            ComponentType::ThreeD => 1,
            ComponentType::ThreeDNoLabels => 2,
            ComponentType::Analog => 3,
            ComponentType::Force => 4,
            ComponentType::SixD => 5,
            ComponentType::SixDEuler => 6,
            ComponentType::TwoD => 7,
            ComponentType::TwoDLinearized => 8,
            ComponentType::ThreeDResidual => 9,
            ComponentType::ThreeDNoLabelsResidual => 10,
            ComponentType::SixDResidual => 11,
            ComponentType::SixDEulerResidual => 12,
            ComponentType::AnalogSingle => 13,
            ComponentType::Image => 14,
            ComponentType::ForceSingle => 15,
            ComponentType::GazeVector => 16,
            ComponentType::Timecode => 17,
            ComponentType::Skeleton => 18,
            ComponentType::EyeTracker => 19,
        }
    }

    /// The kind a component id stands for, if any.
    pub open spec fn spec_from_value(value: u32) -> Option<ComponentType> {
        match value {
            1 => Some(ComponentType::ThreeD),
            2 => Some(ComponentType::ThreeDNoLabels),
            3 => Some(ComponentType::Analog),
            4 => Some(ComponentType::Force),
            5 => Some(ComponentType::SixD),
            6 => Some(ComponentType::SixDEuler),
            7 => Some(ComponentType::TwoD),
            8 => Some(ComponentType::TwoDLinearized),
            9 => Some(ComponentType::ThreeDResidual),
            10 => Some(ComponentType::ThreeDNoLabelsResidual),
            11 => Some(ComponentType::SixDResidual),
            12 => Some(ComponentType::SixDEulerResidual),
            13 => Some(ComponentType::AnalogSingle),
            14 => Some(ComponentType::Image),
            15 => Some(ComponentType::ForceSingle),
            16 => Some(ComponentType::GazeVector),
            17 => Some(ComponentType::Timecode),
            18 => Some(ComponentType::Skeleton),
            19 => Some(ComponentType::EyeTracker),
            _ => None,
        }
    }

    /// The kind a component id stands for; ids outside 1..=19 are handed
    /// back as the error.
    pub fn try_from_u32(value: u32) -> (r: Result<ComponentType, u32>)
        ensures
            r == match ComponentType::spec_from_value(value) {
                Some(t) => Ok::<ComponentType, u32>(t),
                None => Err(value),
            },
            1 <= value <= 19 ==> (r matches Ok(t) && t.spec_value() == value),
            !(1 <= value <= 19) ==> r == Err::<ComponentType, u32>(value),
    {
        match value {
            1 => Ok(ComponentType::ThreeD),
            2 => Ok(ComponentType::ThreeDNoLabels),
            3 => Ok(ComponentType::Analog),
            4 => Ok(ComponentType::Force),
            5 => Ok(ComponentType::SixD),
            6 => Ok(ComponentType::SixDEuler),
            7 => Ok(ComponentType::TwoD),
            8 => Ok(ComponentType::TwoDLinearized),
            9 => Ok(ComponentType::ThreeDResidual),
            10 => Ok(ComponentType::ThreeDNoLabelsResidual),
            11 => Ok(ComponentType::SixDResidual),
            12 => Ok(ComponentType::SixDEulerResidual),
            13 => Ok(ComponentType::AnalogSingle),
            14 => Ok(ComponentType::Image),
            15 => Ok(ComponentType::ForceSingle),
            16 => Ok(ComponentType::GazeVector),
            17 => Ok(ComponentType::Timecode),
            18 => Ok(ComponentType::Skeleton),
            19 => Ok(ComponentType::EyeTracker),
            other => Err(other),
        }
    }
}

impl TryFrom<u32> for PacketType {
    type Error = u32;

    /// The packet type a wire number stands for; other numbers are handed
    /// back as the error.
    fn try_from(value: u32) -> (r: Result<PacketType, u32>) {
        PacketType::try_from_u32(value)
    }
}

impl vstd::std_specs::convert::TryFromSpecImpl<u32> for PacketType {
    open spec fn obeys_try_from_spec() -> bool {
        true
    }

    open spec fn try_from_spec(value: u32) -> Result<PacketType, u32> {
        match PacketType::spec_from_value(value) {
            Some(t) => Ok(t),
            None => Err(value),
        }
    }
}

impl TryFrom<u8> for Event {
    type Error = u8;

    /// The event a wire byte stands for; other bytes are handed back as the
    /// error.
    fn try_from(value: u8) -> (r: Result<Event, u8>) {
        Event::try_from_u8(value)
    }
}

impl vstd::std_specs::convert::TryFromSpecImpl<u8> for Event {
    open spec fn obeys_try_from_spec() -> bool {
        true
    }

    open spec fn try_from_spec(value: u8) -> Result<Event, u8> {
        match Event::spec_from_value(value) {
            Some(e) => Ok(e),
            None => Err(value),
        }
    }
}

impl TryFrom<u32> for ComponentType {
    type Error = u32;

    /// The component kind a wire id stands for; other ids are handed back
    /// as the error.
    fn try_from(value: u32) -> (r: Result<ComponentType, u32>) {
        ComponentType::try_from_u32(value)
    }
}

impl vstd::std_specs::convert::TryFromSpecImpl<u32> for ComponentType {
    open spec fn obeys_try_from_spec() -> bool {
        true
    }

    open spec fn try_from_spec(value: u32) -> Result<ComponentType, u32> {
        match ComponentType::spec_from_value(value) {
            Some(t) => Ok(t),
            None => Err(value),
        }
    }
}

} // verus!

verus! {

/// A settings section that `GetParameters` can ask for.
#[derive(Debug, Clone, Copy, PartialEq, Eq)]
pub enum ParameterSelection {
    All,
    General,
    ThreeD,
    SixD,
    Analog,
    Force,
    GazeVector,
    EyeTracker,
    Image,
    Skeleton,
    SkeletonGlobal,
    Calibration,
}

impl ParameterSelection {
    /// The word that names this section in a `GetParameters` command.
    pub open spec fn spec_fragment(self) -> Seq<char> {
        match self {
            ParameterSelection::All => "all"@,
            ParameterSelection::General => "general"@,
            ParameterSelection::ThreeD => "3d"@,
            ParameterSelection::SixD => "6d"@,
            ParameterSelection::Analog => "analog"@,
            ParameterSelection::Force => "force"@,
            ParameterSelection::GazeVector => "gazevector"@,
            ParameterSelection::EyeTracker => "eyetracker"@,
            ParameterSelection::Image => "image"@,
            ParameterSelection::Skeleton => "skeleton"@,
            ParameterSelection::SkeletonGlobal => "skeleton:global"@,
            ParameterSelection::Calibration => "calibration"@,
        }
    }

    /// The word that names this section in a `GetParameters` command.
    pub fn as_command_fragment(self) -> (s: &'static str)
        ensures
            s@ == self.spec_fragment(),
    {
        match self {
            ParameterSelection::All => "all",
            ParameterSelection::General => "general",
            ParameterSelection::ThreeD => "3d",
            ParameterSelection::SixD => "6d",
            ParameterSelection::Analog => "analog",
            ParameterSelection::Force => "force",
            ParameterSelection::GazeVector => "gazevector",
            ParameterSelection::EyeTracker => "eyetracker",
            ParameterSelection::Image => "image",
            ParameterSelection::Skeleton => "skeleton",
            ParameterSelection::SkeletonGlobal => "skeleton:global",
            ParameterSelection::Calibration => "calibration",
        }
    }
}

/// A component that a frame request asks for.
#[derive(Debug, Clone, PartialEq, Eq)]
pub enum ComponentSelection {
    TwoD,
    TwoDLinearized,
    ThreeD,
    ThreeDResidual,
    ThreeDNoLabels,
    ThreeDNoLabelsResidual,
    Analog { channels: Vec<u32> },
    AnalogSingle { channels: Vec<u32> },
    Force,
    ForceSingle,
    SixD,
    SixDResidual,
    SixDEuler,
    SixDEulerResidual,
    Image,
    GazeVector,
    EyeTracker,
    Timecode,
    Skeleton { global: bool },
}

/// `prefix` alone when no channel is listed, else `prefix:c1,c2,...`.
pub open spec fn channels_fragment(prefix: Seq<char>, channels: Seq<u32>) -> Seq<char> {
    if channels.len() == 0 {
        prefix
    } else {
        prefix + ":"@ + crate::text::join(channels.map_values(|c: u32| decimal(c as nat)), ","@)
    }
}

/// The words joined by single spaces.
pub open spec fn words(parts: Seq<Seq<char>>) -> Seq<char> {
    crate::text::join(parts, " "@)
}

impl ComponentSelection {
    /// The component kind this selection asks for.
    pub open spec fn spec_component_type(self) -> ComponentType {
        match self {
            ComponentSelection::TwoD => ComponentType::TwoD,
            ComponentSelection::TwoDLinearized => ComponentType::TwoDLinearized,
            ComponentSelection::ThreeD => ComponentType::ThreeD,
            ComponentSelection::ThreeDResidual => ComponentType::ThreeDResidual,
            ComponentSelection::ThreeDNoLabels => ComponentType::ThreeDNoLabels,
            ComponentSelection::ThreeDNoLabelsResidual => ComponentType::ThreeDNoLabelsResidual,
            ComponentSelection::Analog { .. } => ComponentType::Analog,
            ComponentSelection::AnalogSingle { .. } => ComponentType::AnalogSingle,
            ComponentSelection::Force => ComponentType::Force,
            ComponentSelection::ForceSingle => ComponentType::ForceSingle,
            ComponentSelection::SixD => ComponentType::SixD,
            ComponentSelection::SixDResidual => ComponentType::SixDResidual,
            ComponentSelection::SixDEuler => ComponentType::SixDEuler,
            ComponentSelection::SixDEulerResidual => ComponentType::SixDEulerResidual,
            ComponentSelection::Image => ComponentType::Image,
            ComponentSelection::GazeVector => ComponentType::GazeVector,
            ComponentSelection::EyeTracker => ComponentType::EyeTracker,
            ComponentSelection::Timecode => ComponentType::Timecode,
            ComponentSelection::Skeleton { .. } => ComponentType::Skeleton,
        }
    }

    /// The component kind this selection asks for.
    pub fn component_type(&self) -> (t: ComponentType)
        ensures
            t == self.spec_component_type(),
    {
        match self {
            ComponentSelection::TwoD => ComponentType::TwoD,
            ComponentSelection::TwoDLinearized => ComponentType::TwoDLinearized,
            ComponentSelection::ThreeD => ComponentType::ThreeD,
            ComponentSelection::ThreeDResidual => ComponentType::ThreeDResidual,
            ComponentSelection::ThreeDNoLabels => ComponentType::ThreeDNoLabels,
            ComponentSelection::ThreeDNoLabelsResidual => ComponentType::ThreeDNoLabelsResidual,
            ComponentSelection::Analog { .. } => ComponentType::Analog,
            ComponentSelection::AnalogSingle { .. } => ComponentType::AnalogSingle,
            ComponentSelection::Force => ComponentType::Force,
            ComponentSelection::ForceSingle => ComponentType::ForceSingle,
            ComponentSelection::SixD => ComponentType::SixD,
            ComponentSelection::SixDResidual => ComponentType::SixDResidual,
            ComponentSelection::SixDEuler => ComponentType::SixDEuler,
            ComponentSelection::SixDEulerResidual => ComponentType::SixDEulerResidual,
            ComponentSelection::Image => ComponentType::Image,
            ComponentSelection::GazeVector => ComponentType::GazeVector,
            ComponentSelection::EyeTracker => ComponentType::EyeTracker,
            ComponentSelection::Timecode => ComponentType::Timecode,
            ComponentSelection::Skeleton { .. } => ComponentType::Skeleton,
        }
    }

    /// The word that asks for this component in a frame command.
    pub open spec fn spec_fragment(self) -> Seq<char> {
        match self {
            ComponentSelection::TwoD => "2d"@,
            ComponentSelection::TwoDLinearized => "2dlin"@,
            ComponentSelection::ThreeD => "3d"@,
            ComponentSelection::ThreeDResidual => "3dres"@,
            ComponentSelection::ThreeDNoLabels => "3dnolabels"@,
            ComponentSelection::ThreeDNoLabelsResidual => "3dnolabelsres"@,
            ComponentSelection::Analog { channels } => channels_fragment("analog"@, channels@),
            ComponentSelection::AnalogSingle { channels } => channels_fragment(
                "analogsingle"@,
                channels@,
            ),
            ComponentSelection::Force => "force"@,
            ComponentSelection::ForceSingle => "forcesingle"@,
            ComponentSelection::SixD => "6d"@,
            ComponentSelection::SixDResidual => "6dres"@,
            ComponentSelection::SixDEuler => "6deuler"@,
            ComponentSelection::SixDEulerResidual => "6deulerres"@,
            ComponentSelection::Image => "image"@,
            ComponentSelection::GazeVector => "gazevector"@,
            ComponentSelection::EyeTracker => "eyetracker"@,
            ComponentSelection::Timecode => "timecode"@,
            ComponentSelection::Skeleton { global } => if global {
                "skeleton:global"@
            } else {
                "skeleton"@
            },
        }
    }

    /// The word that asks for this component in a frame command.
    pub fn as_command_fragment(&self) -> (s: String)
        ensures
            s@ == self.spec_fragment(),
    {
        match self {
            ComponentSelection::TwoD => "2d".to_owned(),
            ComponentSelection::TwoDLinearized => "2dlin".to_owned(),
            ComponentSelection::ThreeD => "3d".to_owned(),
            ComponentSelection::ThreeDResidual => "3dres".to_owned(),
            ComponentSelection::ThreeDNoLabels => "3dnolabels".to_owned(),
            ComponentSelection::ThreeDNoLabelsResidual => "3dnolabelsres".to_owned(),
            ComponentSelection::Analog { channels } => format_channels("analog", channels),
            ComponentSelection::AnalogSingle { channels } => format_channels(
                "analogsingle",
                channels,
            ),
            ComponentSelection::Force => "force".to_owned(),
            ComponentSelection::ForceSingle => "forcesingle".to_owned(),
            ComponentSelection::SixD => "6d".to_owned(),
            ComponentSelection::SixDResidual => "6dres".to_owned(),
            ComponentSelection::SixDEuler => "6deuler".to_owned(),
            ComponentSelection::SixDEulerResidual => "6deulerres".to_owned(),
            ComponentSelection::Image => "image".to_owned(),
            ComponentSelection::GazeVector => "gazevector".to_owned(),
            ComponentSelection::EyeTracker => "eyetracker".to_owned(),
            ComponentSelection::Timecode => "timecode".to_owned(),
            ComponentSelection::Skeleton { global } => {
                if *global {
                    "skeleton:global".to_owned()
                } else {
                    "skeleton".to_owned()
                }
            },
        }
    }
}

/// `prefix` alone when no channel is listed, else `prefix:c1,c2,...`.
fn format_channels(prefix: &str, channels: &Vec<u32>) -> (s: String)
    ensures
        s@ == channels_fragment(prefix@, channels@),
{
    let mut s = prefix.to_owned();
    if channels.len() == 0 {
        return s;
    }
    push_char(&mut s, ':');
    let ghost parts = channels@.map_values(|c: u32| decimal(c as nat));
    proof {
        reveal_strlit(":");
        assert(crate::text::join(parts.take(0), ","@) =~= Seq::<char>::empty());
        assert(s@ =~= prefix@ + ":"@ + crate::text::join(parts.take(0), ","@));
    }
    let mut i: usize = 0;
    while i < channels.len()
        invariant
            0 <= i <= channels.len(),
            parts == channels@.map_values(|c: u32| decimal(c as nat)),
            s@ == prefix@ + ":"@ + crate::text::join(parts.take(i as int), ","@),
        decreases channels.len() - i,
    {
        let ghost before = s@;
        if i > 0 {
            push_char(&mut s, ',');
        }
        push_decimal(&mut s, channels[i] as u128);
        proof {
            crate::text::lemma_join_push(parts.take(i as int), ","@, parts[i as int]);
            assert(parts.take(i as int).push(parts[i as int]) =~= parts.take(i + 1));
            reveal_strlit(",");
            reveal_strlit(":");
            assert(","@ =~= seq![',']);
            assert(":"@ =~= seq![':']);
            if i == 0 {
                assert(crate::text::join(parts.take(0), ","@) =~= Seq::<char>::empty());
                assert(s@ =~= prefix@ + ":"@ + parts[0]);
            } else {
                assert(s@ =~= prefix@ + ":"@ + crate::text::join(parts.take(i as int), ","@) + ","@ + parts[i as int]);
            }
        }
        i = i + 1;
    }
    assert(parts.take(channels.len() as int) =~= parts);
    s
}

} // verus!

verus! {

/// How often QTM sends frames while streaming.
#[derive(Debug, Clone, Copy, PartialEq, Eq)]
pub enum StreamRate {
    AllFrames,
    Frequency(u32),
    FrequencyDivisor(u32),
}

impl StreamRate {
    /// The word that asks for this rate in a `StreamFrames` command.
    pub open spec fn spec_fragment(self) -> Seq<char> {
        match self {
            StreamRate::AllFrames => "allframes"@,
            StreamRate::Frequency(v) => "frequency:"@ + decimal(v as nat),
            StreamRate::FrequencyDivisor(v) => "frequencydivisor:"@ + decimal(v as nat),
        }
    }

    /// The word that asks for this rate in a `StreamFrames` command.
    pub fn as_command_fragment(self) -> (s: String)
        ensures
            s@ == self.spec_fragment(),
    {
        match self {
            StreamRate::AllFrames => "allframes".to_owned(),
            StreamRate::Frequency(value) => {
                let mut s = "frequency:".to_owned();
                push_decimal(&mut s, value as u128);
                s
            },
            StreamRate::FrequencyDivisor(value) => {
                let mut s = "frequencydivisor:".to_owned();
                push_decimal(&mut s, value as u128);
                s
            },
        }
    }
}

/// A socket address: an IPv4 or IPv6 address with a port.
#[derive(Debug, Clone, Copy, PartialEq, Eq)]
pub enum SocketAddress {
    V4 { octets: [u8; 4], port: u16 },
    V6 { segments: [u16; 8], port: u16, flowinfo: u32, scope_id: u32 },
}

impl SocketAddress {
    pub open spec fn spec_port(self) -> u16 {
        match self {
            SocketAddress::V4 { port, .. } => port,
            SocketAddress::V6 { port, .. } => port,
        }
    }

    /// The port of the address.
    pub fn port(&self) -> (p: u16)
        ensures
            p == self.spec_port(),
    {
        match self {
            SocketAddress::V4 { port, .. } => *port,
            SocketAddress::V6 { port, .. } => *port,
        }
    }
}

/// Where streamed frames travel: on the command connection, or as UDP
/// datagrams to a local socket bound at `bind_address`. `destination`, when
/// given, is the address QTM sends to, in its textual form.
#[derive(Debug, Clone, PartialEq, Eq)]
pub enum StreamTransport {
    Tcp,
    Udp { bind_address: SocketAddress, destination: Option<String> },
}

/// A request to start streaming frames.
#[derive(Debug, Clone, PartialEq, Eq)]
pub struct StreamFramesRequest {
    pub rate: StreamRate,
    pub transport: StreamTransport,
    pub components: Vec<ComponentSelection>,
}

/// The fragments of the selections, in order.
pub open spec fn component_fragments(components: Seq<ComponentSelection>) -> Seq<Seq<char>> {
    components.map_values(|c: ComponentSelection| c.spec_fragment())
}

proof fn lemma_component_fragments_take(components: Seq<ComponentSelection>, i: int)
    requires
        0 <= i < components.len(),
    ensures
        component_fragments(components.take(i + 1)) == component_fragments(components.take(i)).push(
            components[i].spec_fragment(),
        ),
{
    assert(components.take(i + 1) =~= components.take(i).push(components[i]));
    assert(component_fragments(components.take(i + 1)) =~= component_fragments(components.take(i)).push(
        components[i].spec_fragment(),
    ));
}

impl StreamFramesRequest {
    pub fn new(
        rate: StreamRate,
        transport: StreamTransport,
        components: Vec<ComponentSelection>,
    ) -> (r: Self)
        ensures
            r.rate == rate,
            r.transport == transport,
            r.components == components,
    {
        StreamFramesRequest { rate, transport, components }
    }

    /// The `udp:` word of the command: empty for TCP, otherwise
    /// `udp:<destination>:<port>` or `udp:<port>`, where the port is the
    /// override if given and the bind port otherwise.
    pub open spec fn spec_udp_words(self, udp_port_override: Option<u16>) -> Seq<Seq<char>> {
        match self.transport {
            StreamTransport::Tcp => Seq::empty(),
            StreamTransport::Udp { bind_address, destination } => {
                let port = match udp_port_override {
                    Some(p) => p,
                    None => bind_address.spec_port(),
                };
                match destination {
                    Some(address) => seq!["udp:"@ + address@ + ":"@ + decimal(port as nat)],
                    None => seq!["udp:"@ + decimal(port as nat)],
                }
            },
        }
    }

    /// The `StreamFrames` command for this request.
    pub open spec fn spec_command(self, udp_port_override: Option<u16>) -> Seq<char> {
        words(
            seq!["streamframes"@, self.rate.spec_fragment()] + self.spec_udp_words(
                udp_port_override,
            ) + component_fragments(self.components@),
        )
    }

    /// The `StreamFrames` command for this request.
    pub fn to_command(&self, udp_port_override: Option<u16>) -> (s: String)
        ensures
            s@ == self.spec_command(udp_port_override),
    {
        let mut parts: Vec<String> = Vec::new();
        parts.push("streamframes".to_owned());
        parts.push(self.rate.as_command_fragment());
        if let StreamTransport::Udp { bind_address, destination } = &self.transport {
            let port = match udp_port_override {
                Some(p) => p,
                None => bind_address.port(),
            };
            let mut token = "udp:".to_owned();
            match destination {
                Some(address) => {
                    push_str(&mut token, address.as_str());
                    push_char(&mut token, ':');
                    push_decimal(&mut token, port as u128);
                    proof {
                        reveal_strlit(":");
                        assert(token@ =~= "udp:"@ + address@ + ":"@ + decimal(port as nat));
                    }
                },
                None => {
                    push_decimal(&mut token, port as u128);
                },
            }
            parts.push(token);
        }
        let ghost head = crate::text::string_views(parts@);
        let mut i: usize = 0;
        while i < self.components.len()
            invariant
                0 <= i <= self.components.len(),
                head.len() + 0 <= parts@.len(),
                crate::text::string_views(parts@) =~= head + component_fragments(
                    self.components@.take(i as int),
                ),
                head =~= seq!["streamframes"@, self.rate.spec_fragment()] + self.spec_udp_words(
                    udp_port_override,
                ),
            decreases self.components.len() - i,
        {
            let ghost before = parts@;
            let frag = self.components[i].as_command_fragment();
            parts.push(frag);
            proof {
                crate::text::lemma_string_views_push(before, frag);
                lemma_component_fragments_take(self.components@, i as int);
            }
            i = i + 1;
        }
        assert(self.components@.take(self.components.len() as int) =~= self.components@);
        join_words(&parts)
    }
}

/// The strings joined by single spaces.
pub fn join_words(parts: &Vec<String>) -> (s: String)
    ensures
        s@ == words(crate::text::string_views(parts@)),
{
    let ghost all = crate::text::string_views(parts@);
    let mut s = String::new();
    let mut i: usize = 0;
    proof {
        assert(all.take(0) =~= Seq::<Seq<char>>::empty());
    }
    while i < parts.len()
        invariant
            0 <= i <= parts.len(),
            all == crate::text::string_views(parts@),
            s@ == words(all.take(i as int)),
        decreases parts.len() - i,
    {
        proof {
            crate::text::lemma_join_push(all.take(i as int), " "@, all[i as int]);
            assert(all.take(i as int).push(all[i as int]) =~= all.take(i + 1));
            reveal_strlit(" ");
        }
        if i > 0 {
            push_char(&mut s, ' ');
        }
        push_str(&mut s, parts[i].as_str());
        i = i + 1;
    }
    assert(all.take(parts.len() as int) =~= all);
    s
}

/// The `Version` command that asks QTM for the given protocol version.
pub fn build_version_command(version: ProtocolVersion) -> (s: String)
    ensures
        s@ == "version "@ + decimal(version.major as nat) + "."@ + decimal(version.minor as nat),
{
    let mut s = "version ".to_owned();
    push_decimal(&mut s, version.major as u128);
    push_char(&mut s, '.');
    push_decimal(&mut s, version.minor as u128);
    proof {
        reveal_strlit(".");
    }
    s
}

/// The fragments a `GetParameters` command lists: `all` when nothing is
/// selected, otherwise the selections in order.
pub open spec fn parameter_fragments(parameters: Seq<ParameterSelection>) -> Seq<Seq<char>> {
    if parameters.len() == 0 {
        seq!["all"@]
    } else {
        parameters.map_values(|p: ParameterSelection| p.spec_fragment())
    }
}

/// The `GetParameters` command for the given sections.
pub fn build_get_parameters_command(parameters: &[ParameterSelection]) -> (s: String)
    ensures
        s@ == "getparameters "@ + words(parameter_fragments(parameters@)),
{
    let mut fragments: Vec<String> = Vec::new();
    if parameters.len() == 0 {
        fragments.push(ParameterSelection::All.as_command_fragment().to_owned());
        assert(crate::text::string_views(fragments@) =~= parameter_fragments(parameters@));
    } else {
        let mut i: usize = 0;
        while i < parameters.len()
            invariant
                0 <= i <= parameters.len(),
                crate::text::string_views(fragments@) =~= parameters@.take(i as int).map_values(
                    |p: ParameterSelection| p.spec_fragment(),
                ),
            decreases parameters.len() - i,
        {
            let ghost before = fragments@;
            let frag = parameters[i].as_command_fragment().to_owned();
            fragments.push(frag);
            proof {
                crate::text::lemma_string_views_push(before, frag);
                assert(parameters@.take(i + 1) =~= parameters@.take(i as int).push(parameters@[i as int]));
                assert(parameters@.take(i + 1).map_values(|p: ParameterSelection| p.spec_fragment())
                    =~= parameters@.take(i as int).map_values(|p: ParameterSelection| p.spec_fragment()).push(frag@));
            }
            i = i + 1;
        }
        assert(parameters@.take(parameters.len() as int) =~= parameters@);
    }
    let mut s = "getparameters ".to_owned();
    let joined = join_words(&fragments);
    push_str(&mut s, joined.as_str());
    s
}

/// The `GetCurrentFrame` command for the given components.
pub fn build_get_current_frame_command(components: &[ComponentSelection]) -> (s: String)
    ensures
        s@ == "getcurrentframe "@ + words(component_fragments(components@)),
{
    let mut fragments: Vec<String> = Vec::new();
    let mut i: usize = 0;
    while i < components.len()
        invariant
            0 <= i <= components.len(),
            crate::text::string_views(fragments@) =~= component_fragments(components@.take(i as int)),
        decreases components.len() - i,
    {
        let ghost before = fragments@;
        let frag = components[i].as_command_fragment();
        fragments.push(frag);
        proof {
            crate::text::lemma_string_views_push(before, frag);
            lemma_component_fragments_take(components@, i as int);
        }
        i = i + 1;
    }
    assert(components@.take(components.len() as int) =~= components@);
    let mut s = "getcurrentframe ".to_owned();
    let joined = join_words(&fragments);
    push_str(&mut s, joined.as_str());
    s
}

/// The port named in a UDP `StreamFrames` command is the override when one
/// is given, whatever port the socket was bound to, and the bind port
/// otherwise: two UDP requests that differ only in their bind address give
/// the same command under the same override, and a request without an
/// override gives the command of any other request with its bind port as
/// the override.
pub proof fn law_udp_port_override(a: StreamFramesRequest, b: StreamFramesRequest, p: u16)
    requires
        a.rate == b.rate,
        a.components@ == b.components@,
        a.transport is Udp,
        b.transport is Udp,
        a.transport->destination == b.transport->destination,
    ensures
        a.spec_command(Some(p)) == b.spec_command(Some(p)),
        a.spec_command(None) == b.spec_command(Some(a.transport->bind_address.spec_port())),
{
}

} // verus!
