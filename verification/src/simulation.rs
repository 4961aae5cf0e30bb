//! The decisions of the QTM simulator: what it answers to each command,
//! which components and UDP target a stream request names, the settings
//! XML it serves and the components it builds from synthetic bodies.
//! Sockets, threads and the synthetic motion stay with the caller.

use vstd::prelude::*;

use crate::numbers::{parse_u16, spec_parse_unsigned};
use crate::packet::{
    views, Body6D, Body6DModel, Body6DResidual, Body6DResidualModel, Component, ComponentData,
    ComponentDataModel, ComponentModel, Packet, PacketModel, RatedListModel, SixDComponent,
    SixDResidualComponent,
};
use crate::protocol::{ComponentType, PacketType};
use crate::text::{
    chars_eq_str, chars_of, decimal, is_white, is_whitespace, lowercase, lowercase_chars,
    push_decimal, push_str, starts_with, string_of, trim, trim_chars,
};

verus! {

// ---------------------------------------------------------------------------
// Words of a command.
/// The pieces of `s` between whitespace characters, empty ones included.
pub open spec fn split_white(s: Seq<char>) -> Seq<Seq<char>>
    decreases s.len(),
{
    if s.len() == 0 {
        seq![Seq::empty()]
    } else {
        let prev = split_white(s.drop_last());
        if is_white(s.last()) {
            prev.push(Seq::empty())
        } else {
            prev.update(prev.len() - 1, prev.last().push(s.last()))
        }
    }
}

/// The pieces that are not empty.
pub open spec fn nonempty_pieces(ps: Seq<Seq<char>>) -> Seq<Seq<char>>
    decreases ps.len(),
{
    if ps.len() == 0 {
        Seq::empty()
    } else if ps.last().len() > 0 {
        nonempty_pieces(ps.drop_last()).push(ps.last())
    } else {
        nonempty_pieces(ps.drop_last())
    }
}

/// The whitespace-separated words of a text, as `str::split_whitespace`
/// yields them.
pub open spec fn words_of(s: Seq<char>) -> Seq<Seq<char>> {
    nonempty_pieces(split_white(s))
}

proof fn lemma_split_white_nonempty(s: Seq<char>)
    ensures
        split_white(s).len() >= 1,
    decreases s.len(),
{
    if s.len() > 0 {
        lemma_split_white_nonempty(s.drop_last());
    }
}

/// The whitespace-separated words of a text.
pub fn split_words(text: &str) -> (r: Vec<Vec<char>>)
    ensures
        r@.map_values(|w: Vec<char>| w@) == words_of(text@),
{
    let cs = chars_of(text);
    let ghost s = text@;
    let mut out: Vec<Vec<char>> = Vec::new();
    let mut cur: Vec<char> = Vec::new();
    let mut i: usize = 0;
    assert(s.take(0) =~= Seq::<char>::empty());
    assert(split_white(s.take(0)).drop_last() =~= Seq::<Seq<char>>::empty());
    assert(out@.map_values(|w: Vec<char>| w@) =~= Seq::<Seq<char>>::empty());
    while i < cs.len()
        invariant
            0 <= i <= cs.len(),
            cs@ == s,
            out@.map_values(|w: Vec<char>| w@) == nonempty_pieces(
                split_white(s.take(i as int)).drop_last(),
            ),
            cur@ == split_white(s.take(i as int)).last(),
        decreases cs.len() - i,
    {
        let ghost prev = split_white(s.take(i as int));
        proof {
            lemma_split_white_nonempty(s.take(i as int));
            assert(s.take(i + 1).drop_last() =~= s.take(i as int));
        }
        if is_whitespace(cs[i]) {
            let ghost before = out@;
            let ghost word = cur@;
            if cur.len() > 0 {
                out.push(cur);
                assert(out@.map_values(|w: Vec<char>| w@) =~= before.map_values(|w: Vec<char>| w@).push(
                    word,
                ));
            }
            proof {
                assert(split_white(s.take(i + 1)).drop_last() =~= prev);
                assert(prev =~= prev.drop_last().push(prev.last()));
            }
            cur = Vec::new();
            assert(cur@ =~= split_white(s.take(i + 1)).last());
        } else {
            cur.push(cs[i]);
            proof {
                assert(split_white(s.take(i + 1)).drop_last() =~= prev.drop_last());
            }
        }
        i = i + 1;
    }
    proof {
        lemma_split_white_nonempty(s);
        assert(s.take(cs.len() as int) =~= s);
        let ps = split_white(s);
        assert(ps =~= ps.drop_last().push(ps.last()));
    }
    let ghost before = out@;
    let ghost word = cur@;
    if cur.len() > 0 {
        out.push(cur);
        assert(out@.map_values(|w: Vec<char>| w@) =~= before.map_values(|w: Vec<char>| w@).push(word));
    }
    out
}

// ---------------------------------------------------------------------------
// Components of a request.
/// The components the simulator can stream.
#[derive(Debug, Clone, Copy, PartialEq, Eq)]
pub enum SimulatedComponent {
    SixD,
    SixDResidual,
}

/// The component a command word asks for: `6d`, or `6dres` or
/// `6dresidual`, in any ASCII case.
pub open spec fn token_component(t: Seq<char>) -> Option<SimulatedComponent> {
    let l = lowercase(trim(t));
    if l == "6d"@ {
        Some(SimulatedComponent::SixD)
    } else if l == "6dres"@ || l == "6dresidual"@ {
        Some(SimulatedComponent::SixDResidual)
    } else {
        None
    }
}

impl SimulatedComponent {
    /// The component a command word asks for.
    pub fn from_command_token(token: &[char]) -> (r: Option<SimulatedComponent>)
        ensures
            r == token_component(token@),
    {
        let t = trim_chars(token);
        let l = lowercase_chars(t.as_slice());
        if chars_eq_str(l.as_slice(), "6d") {
            Some(SimulatedComponent::SixD)
        } else if chars_eq_str(l.as_slice(), "6dres") || chars_eq_str(l.as_slice(), "6dresidual") {
            Some(SimulatedComponent::SixDResidual)
        } else {
            None
        }
    }
}

/// The components that the words name, in order.
pub open spec fn named_components(ws: Seq<Seq<char>>) -> Seq<SimulatedComponent>
    decreases ws.len(),
{
    if ws.len() == 0 {
        Seq::empty()
    } else {
        match token_component(ws.last()) {
            Some(c) => named_components(ws.drop_last()).push(c),
            None => named_components(ws.drop_last()),
        }
    }
}

/// The components a command asks for; 6D with residuals where it names
/// none.
pub open spec fn spec_requested_components(command: Seq<char>) -> Seq<SimulatedComponent> {
    let named = named_components(words_of(command));
    if named.len() == 0 {
        seq![SimulatedComponent::SixDResidual]
    } else {
        named
    }
}

/// The components a command asks for; 6D with residuals where it names
/// none.
pub fn requested_components(command: &str) -> (r: Vec<SimulatedComponent>)
    ensures
        r@ == spec_requested_components(command@),
{
    let words = split_words(command);
    let ghost ws = words@.map_values(|w: Vec<char>| w@);
    let mut out: Vec<SimulatedComponent> = Vec::new();
    let mut i: usize = 0;
    while i < words.len()
        invariant
            0 <= i <= words.len(),
            ws == words@.map_values(|w: Vec<char>| w@),
            ws == words_of(command@),
            out@ == named_components(ws.take(i as int)),
        decreases words.len() - i,
    {
        assert(ws.take(i + 1).drop_last() =~= ws.take(i as int));
        assert(ws[i as int] == words@[i as int]@);
        match SimulatedComponent::from_command_token(words[i].as_slice()) {
            Some(c) => out.push(c),
            None => {},
        }
        i = i + 1;
    }
    assert(ws.take(words.len() as int) =~= ws);
    if out.len() == 0 {
        let mut v = Vec::new();
        v.push(SimulatedComponent::SixDResidual);
        assert(v@ =~= seq![SimulatedComponent::SixDResidual]);
        return v;
    }
    out
}

// ---------------------------------------------------------------------------
// UDP targets of a stream request.
/// Where a stream request asks for UDP frames: a host where the word
/// names one, and a port.
#[derive(Debug, Clone, PartialEq, Eq)]
pub struct UdpTarget {
    pub host: Option<String>,
    pub port: u16,
}

pub struct UdpTargetModel {
    pub host: Option<Seq<char>>,
    pub port: u16,
}

impl View for UdpTarget {
    type V = UdpTargetModel;

    open spec fn view(&self) -> UdpTargetModel {
        UdpTargetModel {
            host: match self.host {
                Some(h) => Some(h@),
                None => None,
            },
            port: self.port,
        }
    }
}

/// The position of the last `:`.
pub open spec fn last_colon(s: Seq<char>) -> Option<int>
    decreases s.len(),
{
    if s.len() == 0 {
        None
    } else if s.last() == ':' {
        Some(s.len() - 1)
    } else {
        last_colon(s.drop_last())
    }
}

/// The UDP target a word names: `udp:<port>` or `udp:<host>:<port>`, the
/// port an unsigned 16-bit number after the last colon.
pub open spec fn word_target(w: Seq<char>) -> Option<UdpTargetModel> {
    if !starts_with(w, "udp:"@) {
        None
    } else {
        let u = w.skip(4);
        let (host, port_text) = match last_colon(u) {
            Some(c) => (Some(u.take(c)), u.skip(c + 1)),
            None => (None, u),
        };
        match spec_parse_unsigned(port_text, u16::MAX as nat) {
            Some(p) => Some(UdpTargetModel { host, port: p as u16 }),
            None => None,
        }
    }
}

/// The UDP targets that the words name, in order.
pub open spec fn named_targets(ws: Seq<Seq<char>>) -> Seq<UdpTargetModel>
    decreases ws.len(),
{
    if ws.len() == 0 {
        Seq::empty()
    } else {
        match word_target(ws.last()) {
            Some(t) => named_targets(ws.drop_last()).push(t),
            None => named_targets(ws.drop_last()),
        }
    }
}

fn last_colon_of(s: &[char]) -> (r: Option<usize>)
    ensures
        match r {
            Some(c) => last_colon(s@) == Some(c as int) && c < s.len(),
            None => last_colon(s@) is None,
        },
{
    let mut k = s.len();
    assert(s@.take(k as int) =~= s@);
    while k > 0
        invariant
            0 <= k <= s.len(),
            last_colon(s@) == last_colon(s@.take(k as int)),
        decreases k,
    {
        assert(s@.take(k as int).drop_last() =~= s@.take(k - 1));
        if s[k - 1] == ':' {
            return Some(k - 1);
        }
        k = k - 1;
    }
    None
}

fn subrange_chars(s: &[char], from: usize, to: usize) -> (r: Vec<char>)
    requires
        from <= to <= s.len(),
    ensures
        r@ == s@.subrange(from as int, to as int),
{
    let mut r: Vec<char> = Vec::new();
    let mut k = from;
    while k < to
        invariant
            from <= k <= to,
            to <= s.len(),
            r@ == s@.subrange(from as int, k as int),
        decreases to - k,
    {
        r.push(s[k]);
        assert(s@.subrange(from as int, k + 1) =~= s@.subrange(from as int, k as int).push(
            s@[k as int],
        ));
        k = k + 1;
    }
    r
}

/// The UDP target a word names, if any.
pub fn target_of_word(w: &[char]) -> (r: Option<UdpTarget>)
    ensures
        match r {
            Some(t) => word_target(w@) == Some(t@),
            None => word_target(w@) is None,
        },
{
    let prefix = chars_of("udp:");
    proof {
        reveal_strlit("udp:");
    }
    if w.len() < 4 || !(w[0] == prefix[0] && w[1] == prefix[1] && w[2] == prefix[2] && w[3]
        == prefix[3]) {
        assert(!starts_with(w@, "udp:"@)) by {
            if w.len() >= 4 {
                assert(w@.take(4) != "udp:"@) by {
                    if w@.take(4) == "udp:"@ {
                        assert(w@.take(4)[0] == w@[0]);
                        assert(w@.take(4)[1] == w@[1]);
                        assert(w@.take(4)[2] == w@[2]);
                        assert(w@.take(4)[3] == w@[3]);
                    }
                }
            }
        }
        return None;
    }
    assert(w@.take(4) =~= "udp:"@);
    let u = subrange_chars(w, 4, w.len());
    assert(u@ =~= w@.skip(4));
    let (host, port_text) = match last_colon_of(u.as_slice()) {
        Some(c) => {
            let h = subrange_chars(u.as_slice(), 0, c);
            let p = subrange_chars(u.as_slice(), c + 1, u.len());
            assert(h@ =~= u@.take(c as int));
            assert(p@ =~= u@.skip(c + 1));
            (Some(string_of(h.as_slice())), p)
        },
        None => (None, u),
    };
    match parse_u16(port_text.as_slice()) {
        Some(port) => Some(UdpTarget { host, port }),
        None => None,
    }
}

/// The UDP targets a stream request names, in order.
pub fn requested_udp_targets(command: &str) -> (r: Vec<UdpTarget>)
    ensures
        views(r@) == named_targets(words_of(command@)),
{
    let words = split_words(command);
    let ghost ws = words@.map_values(|w: Vec<char>| w@);
    let mut out: Vec<UdpTarget> = Vec::new();
    let mut i: usize = 0;
    while i < words.len()
        invariant
            0 <= i <= words.len(),
            ws == words@.map_values(|w: Vec<char>| w@),
            ws == words_of(command@),
            views(out@) == named_targets(ws.take(i as int)),
        decreases words.len() - i,
    {
        assert(ws.take(i + 1).drop_last() =~= ws.take(i as int));
        assert(ws[i as int] == words@[i as int]@);
        match target_of_word(words[i].as_slice()) {
            Some(t) => {
                proof {
                    crate::packet::lemma_views_push(out@, t);
                }
                out.push(t);
            },
            None => {},
        }
        i = i + 1;
    }
    assert(ws.take(words.len() as int) =~= ws);
    out
}

// ---------------------------------------------------------------------------
// Commands.
/// What the simulator does with a packet from a client.
pub enum SimulatorAction {
    /// Answer with a packet of this kind and text.
    Reply { packet_type: PacketType, text: String },
    /// Answer with the settings XML.
    SendParameters,
    /// Answer with one frame of these components.
    SendCurrentFrame { components: Vec<SimulatedComponent> },
    /// Stop the running stream.
    StopStream,
    /// Stop the running stream and start one of these components, over UDP
    /// to the first of the targets that resolves, else over TCP.
    StartStream { components: Vec<SimulatedComponent>, udp_targets: Vec<UdpTarget> },
}

pub enum SimulatorActionModel {
    Reply { packet_type: PacketType, text: Seq<char> },
    SendParameters,
    SendCurrentFrame { components: Seq<SimulatedComponent> },
    StopStream,
    StartStream { components: Seq<SimulatedComponent>, udp_targets: Seq<UdpTargetModel> },
}

impl View for SimulatorAction {
    type V = SimulatorActionModel;

    open spec fn view(&self) -> SimulatorActionModel {
        match self {
            SimulatorAction::Reply { packet_type, text } => SimulatorActionModel::Reply {
                packet_type: *packet_type,
                text: text@,
            },
            SimulatorAction::SendParameters => SimulatorActionModel::SendParameters,
            SimulatorAction::SendCurrentFrame { components } => SimulatorActionModel::SendCurrentFrame {
                components: components@,
            },
            SimulatorAction::StopStream => SimulatorActionModel::StopStream,
            SimulatorAction::StartStream { components, udp_targets } => SimulatorActionModel::StartStream {
                components: components@,
                udp_targets: views(udp_targets@),
            },
        }
    }
}

/// What the simulator does with a packet: commands are matched in ASCII
/// lower case; anything but a command packet is refused.
pub open spec fn spec_action(p: PacketModel) -> SimulatorActionModel {
    match p {
        PacketModel::Command(c) => {
            let l = lowercase(c);
            if starts_with(l, "version "@) {
                SimulatorActionModel::Reply {
                    packet_type: PacketType::Command,
                    text: "Version set to 1.27"@,
                }
            } else if l == "qtmversion"@ {
                SimulatorActionModel::Reply {
                    packet_type: PacketType::Command,
                    text: "QTM RT simulator 0.1"@,
                }
            } else if l == "byteorder"@ {
                SimulatorActionModel::Reply {
                    packet_type: PacketType::Command,
                    text: "little endian"@,
                }
            } else if starts_with(l, "getparameters"@) {
                SimulatorActionModel::SendParameters
            } else if starts_with(l, "getcurrentframe"@) {
                SimulatorActionModel::SendCurrentFrame {
                    components: spec_requested_components(c),
                }
            } else if l == "streamframes stop"@ {
                SimulatorActionModel::StopStream
            } else if starts_with(l, "streamframes "@) {
                SimulatorActionModel::StartStream {
                    components: spec_requested_components(c),
                    udp_targets: named_targets(words_of(c)),
                }
            } else {
                SimulatorActionModel::Reply {
                    packet_type: PacketType::Error,
                    text: "unsupported simulator command: "@ + c,
                }
            }
        },
        _ => SimulatorActionModel::Reply {
            packet_type: PacketType::Error,
            text: "simulator only accepts command packets"@,
        },
    }
}

/// What the simulator does with a packet from a client.
pub fn simulator_action(packet: &Packet) -> (r: SimulatorAction)
    ensures
        r@ == spec_action(packet@),
{
    match packet {
        Packet::Command(command) => {
            let cs = chars_of(command.as_str());
            let lower = lowercase_chars(cs.as_slice());
            let l = string_of(lower.as_slice());
            let l = l.as_str();
            if crate::text::str_starts_with(l, "version ") {
                SimulatorAction::Reply {
                    packet_type: PacketType::Command,
                    text: "Version set to 1.27".to_owned(),
                }
            } else if crate::text::str_eq(l, "qtmversion") {
                SimulatorAction::Reply {
                    packet_type: PacketType::Command,
                    text: "QTM RT simulator 0.1".to_owned(),
                }
            } else if crate::text::str_eq(l, "byteorder") {
                SimulatorAction::Reply {
                    packet_type: PacketType::Command,
                    text: "little endian".to_owned(),
                }
            } else if crate::text::str_starts_with(l, "getparameters") {
                SimulatorAction::SendParameters
            } else if crate::text::str_starts_with(l, "getcurrentframe") {
                SimulatorAction::SendCurrentFrame {
                    components: requested_components(command.as_str()),
                }
            } else if crate::text::str_eq(l, "streamframes stop") {
                SimulatorAction::StopStream
            } else if crate::text::str_starts_with(l, "streamframes ") {
                SimulatorAction::StartStream {
                    components: requested_components(command.as_str()),
                    udp_targets: requested_udp_targets(command.as_str()),
                }
            } else {
                let mut text = String::new();
                push_str(&mut text, "unsupported simulator command: ");
                push_str(&mut text, command.as_str());
                SimulatorAction::Reply { packet_type: PacketType::Error, text }
            }
        },
        _ => SimulatorAction::Reply {
            packet_type: PacketType::Error,
            text: "simulator only accepts command packets".to_owned(),
        },
    }
}

// ---------------------------------------------------------------------------
// What the simulator serves.
pub open spec fn parameters_head() -> Seq<char> {
    "<?xml version=\"1.0\" encoding=\"UTF-8\"?>\n<QTM_Parameters_Ver_1.27>\n  <General>\n    <Frequency>"@
}

pub open spec fn parameters_middle() -> Seq<char> {
    "</Frequency>\n  </General>\n  <The_6D>\n"@
}

pub open spec fn parameters_tail() -> Seq<char> {
    "  </The_6D>\n</QTM_Parameters_Ver_1.27>\n"@
}

/// The settings of synthetic body `i` (counted from 1).
pub open spec fn body_xml(i: nat) -> Seq<char> {
    "    <Body>\n      <Name>sim_body_"@ + decimal(i)
        + "</Name>\n      <Color R=\"0\" G=\"255\" B=\"0\" />\n      <Enabled>true</Enabled>\n    </Body>\n"@
}

/// The settings of synthetic bodies 1 to `n`.
pub open spec fn bodies_xml(n: nat) -> Seq<char>
    decreases n,
{
    if n == 0 {
        Seq::empty()
    } else {
        bodies_xml((n - 1) as nat) + body_xml(n)
    }
}

/// The settings XML the simulator serves: the frame rate (at least 1) and
/// one enabled, green 6D body per synthetic body.
pub open spec fn spec_parameters_xml(frame_rate_hz: u32, rigid_body_count: nat) -> Seq<char> {
    let hz: nat = if frame_rate_hz >= 1 {
        frame_rate_hz as nat
    } else {
        1
    };
    parameters_head() + decimal(hz) + parameters_middle() + bodies_xml(rigid_body_count)
        + parameters_tail()
}

/// The settings XML the simulator serves.
pub fn parameters_xml(frame_rate_hz: u32, rigid_body_count: usize) -> (r: String)
    ensures
        r@ == spec_parameters_xml(frame_rate_hz, rigid_body_count as nat),
{
    let hz: u32 = if frame_rate_hz >= 1 { frame_rate_hz } else { 1 };
    let mut xml = String::new();
    push_str(&mut xml, "<?xml version=\"1.0\" encoding=\"UTF-8\"?>\n<QTM_Parameters_Ver_1.27>\n  <General>\n    <Frequency>");
    push_decimal(&mut xml, hz as u128);
    push_str(&mut xml, "</Frequency>\n  </General>\n  <The_6D>\n");
    let ghost start = xml@;
    assert(bodies_xml(0) =~= Seq::<char>::empty());
    assert(xml@ =~= start + bodies_xml(0));
    let mut index: usize = 0;
    while index < rigid_body_count
        invariant
            0 <= index <= rigid_body_count,
            xml@ == start + bodies_xml(index as nat),
        decreases rigid_body_count - index,
    {
        push_str(&mut xml, "    <Body>\n      <Name>sim_body_");
        push_decimal(&mut xml, (index + 1) as u128);
        push_str(&mut xml, "</Name>\n      <Color R=\"0\" G=\"255\" B=\"0\" />\n      <Enabled>true</Enabled>\n    </Body>\n");
        assert(xml@ =~= start + bodies_xml((index + 1) as nat));
        index = index + 1;
    }
    push_str(&mut xml, "  </The_6D>\n</QTM_Parameters_Ver_1.27>\n");
    assert(xml@ =~= spec_parameters_xml(frame_rate_hz, rigid_body_count as nat));
    xml
}

/// A body without its residual.
pub open spec fn without_residual(b: Body6DResidualModel) -> Body6DModel {
    Body6DModel { position: b.position, rotation_matrix: b.rotation_matrix }
}

/// The component of a simulated frame, built from the synthetic bodies:
/// 6D without residuals, or 6D with them, with no dropped frames.
pub open spec fn spec_simulated_component(
    component: SimulatedComponent,
    bodies: Seq<Body6DResidualModel>,
) -> ComponentModel {
    match component {
        SimulatedComponent::SixD => ComponentModel {
            id: ComponentType::SixD.spec_value(),
            data: ComponentDataModel::SixD(
                RatedListModel {
                    drop_rate: 0,
                    out_of_sync_rate: 0,
                    items: bodies.map_values(|b: Body6DResidualModel| without_residual(b)),
                },
            ),
        },
        SimulatedComponent::SixDResidual => ComponentModel {
            id: ComponentType::SixDResidual.spec_value(),
            data: ComponentDataModel::SixDResidual(
                RatedListModel { drop_rate: 0, out_of_sync_rate: 0, items: bodies },
            ),
        },
    }
}

/// The component of a simulated frame, built from the synthetic bodies.
pub fn simulated_component(component: SimulatedComponent, bodies: &Vec<Body6DResidual>) -> (r:
    Component)
    ensures
        r@ == spec_simulated_component(component, views(bodies@)),
{
    match component {
        SimulatedComponent::SixD => {
            let mut out: Vec<Body6D> = Vec::new();
            let mut i: usize = 0;
            while i < bodies.len()
                invariant
                    0 <= i <= bodies.len(),
                    views(out@) == views(bodies@).take(i as int).map_values(
                        |b: Body6DResidualModel| without_residual(b),
                    ),
                decreases bodies.len() - i,
            {
                let b = bodies[i];
                let body = Body6D { position: b.position, rotation_matrix: b.rotation_matrix };
                proof {
                    crate::packet::lemma_views_push(out@, body);
                }
                out.push(body);
                assert(views(bodies@).take(i + 1) =~= views(bodies@).take(i as int).push(b@));
                assert(views(out@) =~= views(bodies@).take(i + 1).map_values(
                    |b: Body6DResidualModel| without_residual(b),
                ));
                i = i + 1;
            }
            assert(views(bodies@).take(bodies.len() as int) =~= views(bodies@));
            Component {
                id: ComponentType::SixD.value(),
                data: ComponentData::SixD(SixDComponent { drop_rate: 0, out_of_sync_rate: 0, bodies: out }),
            }
        },
        SimulatedComponent::SixDResidual => {
            let mut out: Vec<Body6DResidual> = Vec::new();
            let mut i: usize = 0;
            while i < bodies.len()
                invariant
                    0 <= i <= bodies.len(),
                    views(out@) == views(bodies@).take(i as int),
                decreases bodies.len() - i,
            {
                let b = bodies[i];
                proof {
                    crate::packet::lemma_views_push(out@, b);
                }
                out.push(b);
                assert(views(bodies@).take(i + 1) =~= views(bodies@).take(i as int).push(b@));
                i = i + 1;
            }
            assert(views(bodies@).take(bodies.len() as int) =~= views(bodies@));
            Component {
                id: ComponentType::SixDResidual.value(),
                data: ComponentData::SixDResidual(
                    SixDResidualComponent { drop_rate: 0, out_of_sync_rate: 0, bodies: out },
                ),
            }
        },
    }
}

// ---------------------------------------------------------------------------
// The client's commands as the simulator reads them.
proof fn lemma_lowercase_concat(a: Seq<char>, b: Seq<char>)
    ensures
        lowercase(a + b) == lowercase(a) + lowercase(b),
{
    assert(lowercase(a + b) =~= lowercase(a) + lowercase(b));
}

/// The simulator answers a client's version command by setting version
/// 1.27, an answer the client accepts.
pub proof fn law_simulator_sets_version(major: u32, minor: u32)
    ensures
        spec_action(
            PacketModel::Command(
                "version "@ + decimal(major as nat) + "."@ + decimal(minor as nat),
            ),
        ) == (SimulatorActionModel::Reply {
            packet_type: PacketType::Command,
            text: "Version set to 1.27"@,
        }),
        crate::session::version_accepted("Version set to 1.27"@),
{
    let rest = decimal(major as nat) + "."@ + decimal(minor as nat);
    let c = "version "@ + decimal(major as nat) + "."@ + decimal(minor as nat);
    assert(c =~= "version "@ + rest);
    lemma_lowercase_concat("version "@, rest);
    reveal_strlit("version ");
    reveal_strlit("Version set to 1.27");
    reveal_strlit("version set to ");
    let l = lowercase(c);
    assert(lowercase("version "@) =~= "version "@);
    assert(l.take(8) =~= "version "@);
    let answer = lowercase("Version set to 1.27"@);
    assert(answer.take(15) =~= "version set to "@);
}

/// The simulator answers a client's `GetParameters` command with its
/// settings XML, whatever sections the client asks for.
pub proof fn law_simulator_serves_parameters(sections: Seq<Seq<char>>)
    ensures
        spec_action(PacketModel::Command("getparameters "@ + crate::protocol::words(sections)))
            == SimulatorActionModel::SendParameters,
{
    let rest = crate::protocol::words(sections);
    let c = "getparameters "@ + rest;
    lemma_lowercase_concat("getparameters "@, rest);
    reveal_strlit("getparameters ");
    reveal_strlit("getparameters");
    reveal_strlit("version ");
    reveal_strlit("qtmversion");
    reveal_strlit("byteorder");
    let l = lowercase(c);
    assert(lowercase("getparameters "@) =~= "getparameters "@);
    assert(l.take(13) =~= "getparameters"@);
    assert(l[0] == 'g');
    assert(!starts_with(l, "version "@)) by {
        assert(l.len() < 8 || l.take(8)[0] != "version "@[0]);
    }
    assert(l != "qtmversion"@) by {
        assert(l.len() != 10 || l[0] != "qtmversion"@[0]);
    }
    assert(l != "byteorder"@) by {
        assert(l.len() != 9 || l[0] != "byteorder"@[0]);
    }
}

/// The simulator answers a client's `GetCurrentFrame` command with a frame
/// of the components the command names.
pub proof fn law_simulator_sends_current_frame(fragments: Seq<Seq<char>>)
    ensures
        ({
            let c = "getcurrentframe "@ + crate::protocol::words(fragments);
            spec_action(PacketModel::Command(c)) == (SimulatorActionModel::SendCurrentFrame {
                components: spec_requested_components(c),
            })
        }),
{
    let rest = crate::protocol::words(fragments);
    let c = "getcurrentframe "@ + rest;
    lemma_lowercase_concat("getcurrentframe "@, rest);
    reveal_strlit("getcurrentframe ");
    reveal_strlit("getcurrentframe");
    reveal_strlit("getparameters");
    reveal_strlit("version ");
    reveal_strlit("qtmversion");
    reveal_strlit("byteorder");
    let l = lowercase(c);
    assert(lowercase("getcurrentframe "@) =~= "getcurrentframe "@);
    assert(l.take(15) =~= "getcurrentframe"@);
    assert(l[0] == 'g' && l[3] == 'c');
    assert(!starts_with(l, "version "@)) by {
        assert(l.len() < 8 || l.take(8)[0] != "version "@[0]);
    }
    assert(l != "qtmversion"@) by {
        assert(l.len() != 10 || l[0] != "qtmversion"@[0]);
    }
    assert(l != "byteorder"@) by {
        assert(l.len() != 9 || l[0] != "byteorder"@[0]);
    }
    assert(!starts_with(l, "getparameters"@)) by {
        assert(l.len() < 13 || l.take(13)[3] != "getparameters"@[3]);
    }
}

/// Joining a first part before others puts the separator after it.
proof fn lemma_join_front(a: Seq<char>, rest: Seq<Seq<char>>, sep: Seq<char>)
    requires
        rest.len() > 0,
    ensures
        crate::text::join(seq![a] + rest, sep) == a + sep + crate::text::join(rest, sep),
    decreases rest.len(),
{
    let all = seq![a] + rest;
    if rest.len() == 1 {
        assert(all.drop_last() =~= seq![a]);
        assert(all.last() == rest[0]);
        assert(crate::text::join(seq![a], sep) == a);
        assert(crate::text::join(rest, sep) == rest[0]);
        assert(crate::text::join(all, sep) =~= a + sep + rest[0]);
    } else {
        lemma_join_front(a, rest.drop_last(), sep);
        assert(all.drop_last() =~= seq![a] + rest.drop_last());
        assert(crate::text::join(all, sep) =~= a + sep + crate::text::join(rest, sep));
    }
}

/// The joined parts start with the first part.
proof fn lemma_join_starts(parts: Seq<Seq<char>>, sep: Seq<char>)
    requires
        parts.len() > 0,
    ensures
        crate::text::join(parts, sep).take(parts[0].len() as int) == parts[0],
        crate::text::join(parts, sep).len() >= parts[0].len(),
{
    if parts.len() > 1 {
        lemma_join_front(parts[0], parts.skip(1), sep);
        assert(seq![parts[0]] + parts.skip(1) =~= parts);
        let j = crate::text::join(parts, sep);
        assert(j.take(parts[0].len() as int) =~= parts[0]);
    }
}

/// The simulator starts a stream on a client's `StreamFrames` request (and
/// does not take it for a request to stop), with the components and UDP
/// target the request names.
pub proof fn law_simulator_starts_stream(
    request: crate::protocol::StreamFramesRequest,
    udp_port_override: Option<u16>,
)
    ensures
        ({
            let c = request.spec_command(udp_port_override);
            spec_action(PacketModel::Command(c)) == (SimulatorActionModel::StartStream {
                components: spec_requested_components(c),
                udp_targets: named_targets(words_of(c)),
            })
        }),
{
    let rate = request.rate.spec_fragment();
    let others = request.spec_udp_words(udp_port_override) + crate::protocol::component_fragments(
        request.components@,
    );
    let parts = seq!["streamframes"@, rate] + others;
    let tail = seq![rate] + others;
    assert(parts =~= seq!["streamframes"@] + tail);
    assert(parts =~= seq!["streamframes"@, rate] + request.spec_udp_words(udp_port_override)
        + crate::protocol::component_fragments(request.components@));
    let c = request.spec_command(udp_port_override);
    lemma_join_front("streamframes"@, tail, " "@);
    lemma_join_starts(tail, " "@);
    let rest = crate::protocol::words(tail);
    reveal_strlit("streamframes");
    reveal_strlit(" ");
    reveal_strlit("streamframes ");
    reveal_strlit("streamframes stop");
    reveal_strlit("version ");
    reveal_strlit("qtmversion");
    reveal_strlit("byteorder");
    reveal_strlit("getparameters");
    reveal_strlit("getcurrentframe");
    reveal_strlit("allframes");
    reveal_strlit("frequency:");
    reveal_strlit("frequencydivisor:");
    assert(c =~= "streamframes "@ + rest);
    lemma_lowercase_concat("streamframes "@, rest);
    let l = lowercase(c);
    assert(lowercase("streamframes "@) =~= "streamframes "@);
    assert(l.take(13) =~= "streamframes "@);
    assert(rest.take(rate.len() as int) == rate);
    assert(rate.len() > 0 && (rate[0] == 'a' || rate[0] == 'f'));
    assert(rest[0] == rate[0]) by {
        assert(rest.take(rate.len() as int)[0] == rest[0]);
    }
    assert(l[13] == lowercase(rest)[0]);
    assert(l[0] == 's');
    assert(!starts_with(l, "version "@)) by {
        assert(l.take(8)[0] != "version "@[0]);
    }
    assert(l != "qtmversion"@) by {
        assert(l.len() != 10 || l[0] != "qtmversion"@[0]);
    }
    assert(l != "byteorder"@) by {
        assert(l.len() != 9 || l[0] != "byteorder"@[0]);
    }
    assert(!starts_with(l, "getparameters"@)) by {
        assert(l.take(13)[0] != "getparameters"@[0]);
    }
    assert(!starts_with(l, "getcurrentframe"@)) by {
        assert(l.len() < 15 || l.take(15)[0] != "getcurrentframe"@[0]);
    }
    assert(l != "streamframes stop"@) by {
        assert(l.len() != 17 || l[13] != "streamframes stop"@[13]);
    }
}

// ---------------------------------------------------------------------------
// The components the simulator sends for a client's request.
/// The simulated component a selection asks for, if the simulator has it.
pub open spec fn simulated_kind(c: crate::protocol::ComponentSelection) -> Option<SimulatedComponent> {
    match c {
        crate::protocol::ComponentSelection::SixD => Some(SimulatedComponent::SixD),
        crate::protocol::ComponentSelection::SixDResidual => Some(SimulatedComponent::SixDResidual),
        _ => None,
    }
}

/// A word without whitespace.
pub open spec fn unbroken(s: Seq<char>) -> bool {
    forall|i: int| 0 <= i < s.len() ==> !is_white(#[trigger] s[i])
}

proof fn lemma_split_white_append(a: Seq<char>, b: Seq<char>)
    requires
        unbroken(b),
    ensures
        split_white(a + b) == split_white(a).update(
            split_white(a).len() - 1,
            split_white(a).last() + b,
        ),
    decreases b.len(),
{
    lemma_split_white_nonempty(a);
    let sa = split_white(a);
    if b.len() == 0 {
        assert(a + b =~= a);
        assert(sa.last() + b =~= sa.last());
        assert(sa.update(sa.len() - 1, sa.last() + b) =~= sa);
    } else {
        let b0 = b.drop_last();
        assert(unbroken(b0)) by {
            assert forall|i: int| 0 <= i < b0.len() implies !is_white(#[trigger] b0[i]) by {
                assert(b0[i] == b[i]);
            }
        }
        lemma_split_white_append(a, b0);
        assert((a + b).drop_last() =~= a + b0);
        assert((a + b).last() == b.last());
        assert(!is_white(b[b.len() - 1]));
        lemma_split_white_nonempty(a + b0);
        let prev = split_white(a + b0);
        assert(prev.last() == sa.last() + b0);
        assert(prev.last().push(b.last()) =~= sa.last() + b);
        assert(prev.update(prev.len() - 1, prev.last().push(b.last())) =~= sa.update(
            sa.len() - 1,
            sa.last() + b,
        ));
    }
}

/// Words of unbroken, non-empty parts joined by spaces split back into
/// the parts.
proof fn lemma_split_white_join(parts: Seq<Seq<char>>)
    requires
        parts.len() > 0,
        forall|i: int| 0 <= i < parts.len() ==> unbroken(#[trigger] parts[i]),
    ensures
        split_white(crate::text::join(parts, " "@)) == parts,
    decreases parts.len(),
{
    reveal_strlit(" ");
    if parts.len() == 1 {
        lemma_split_white_append(Seq::empty(), parts[0]);
        assert(Seq::<char>::empty() + parts[0] =~= parts[0]);
        assert(split_white(Seq::<char>::empty()) == seq![Seq::<char>::empty()]);
        assert(seq![Seq::<char>::empty()].update(0, Seq::<char>::empty() + parts[0]) =~= parts);
    } else {
        let init = parts.drop_last();
        assert forall|i: int| 0 <= i < init.len() implies unbroken(#[trigger] init[i]) by {
            assert(init[i] == parts[i]);
        }
        lemma_split_white_join(init);
        let x = crate::text::join(init, " "@);
        let xs = x + " "@;
        assert(xs.drop_last() =~= x);
        assert(xs.last() == ' ');
        assert(split_white(xs) == split_white(x).push(Seq::<char>::empty()));
        assert(unbroken(parts.last()));
        lemma_split_white_append(xs, parts.last());
        assert(crate::text::join(parts, " "@) == x + " "@ + parts.last());
        assert(split_white(xs).update(split_white(xs).len() - 1, split_white(xs).last() + parts.last())
            =~= parts);
    }
}

proof fn lemma_nonempty_pieces_all(ps: Seq<Seq<char>>)
    requires
        forall|i: int| 0 <= i < ps.len() ==> (#[trigger] ps[i]).len() > 0,
    ensures
        nonempty_pieces(ps) == ps,
    decreases ps.len(),
{
    if ps.len() > 0 {
        assert(ps.last().len() > 0);
        assert forall|i: int| 0 <= i < ps.len() - 1 implies (#[trigger] ps.drop_last()[i]).len() > 0 by {
            assert(ps.drop_last()[i] == ps[i]);
        }
        lemma_nonempty_pieces_all(ps.drop_last());
        assert(ps.drop_last().push(ps.last()) =~= ps);
    }
}

proof fn lemma_named_components_concat(a: Seq<Seq<char>>, b: Seq<Seq<char>>)
    ensures
        named_components(a + b) == named_components(a) + named_components(b),
    decreases b.len(),
{
    if b.len() == 0 {
        assert(a + b =~= a);
        assert(named_components(a) + named_components(b) =~= named_components(a));
    } else {
        lemma_named_components_concat(a, b.drop_last());
        assert((a + b).drop_last() =~= a + b.drop_last());
        assert((a + b).last() == b.last());
        match token_component(b.last()) {
            Some(c) => {
                assert(named_components(a) + named_components(b) =~= (named_components(a)
                    + named_components(b.drop_last())).push(c));
            },
            None => {},
        }
    }
}

/// Decimal renderings are digits.
proof fn lemma_decimal_digits(n: nat)
    ensures
        decimal(n).len() > 0,
        forall|i: int| 0 <= i < decimal(n).len() ==> '0' <= #[trigger] decimal(n)[i] <= '9',
    decreases n,
{
    if n >= 10 {
        lemma_decimal_digits(n / 10);
    }
    let d = (n % 10) as nat;
    let c = crate::text::digit_char(d);
    assert(c as u32 == d + 48);
    assert('0' <= c <= '9');
    if n >= 10 {
        let prev = decimal(n / 10);
        assert(decimal(n) == prev.push(c));
        assert forall|i: int| 0 <= i < decimal(n).len() implies '0' <= #[trigger] decimal(n)[i] <= '9' by {
            if i < prev.len() {
                assert(decimal(n)[i] == prev[i]);
            }
        }
    }
}

/// A word that starts with a lower-case letter and ends in no whitespace
/// names no simulated component.
proof fn lemma_not_component_word(w: Seq<char>)
    requires
        w.len() > 0,
        'a' <= w[0] <= 'z',
        unbroken(w),
    ensures
        token_component(w) is None,
{
    assert(!is_white(w[w.len() - 1]));
    reveal_strlit("6d");
    reveal_strlit("6dres");
    reveal_strlit("6dresidual");
    assert(trim(w) == w) by {
        assert(!is_white(w[0]));
        assert(crate::text::trim_start(w) == w);
        assert(crate::text::trim_end(w) == w);
    }
    let l = lowercase(trim(w));
    assert(l[0] == w[0]);
    assert(l != "6d"@ && l != "6dres"@ && l != "6dresidual"@) by {
        assert("6d"@[0] == '6');
        assert("6dres"@[0] == '6');
        assert("6dresidual"@[0] == '6');
    }
}

proof fn lemma_unbroken_concat(a: Seq<char>, b: Seq<char>)
    requires
        unbroken(a),
        unbroken(b),
    ensures
        unbroken(a + b),
{
    assert forall|i: int| 0 <= i < (a + b).len() implies !is_white(#[trigger] (a + b)[i]) by {
        if i < a.len() {
            assert((a + b)[i] == a[i]);
        } else {
            assert((a + b)[i] == b[i - a.len()]);
        }
    }
}

proof fn lemma_digits_unbroken(n: nat)
    ensures
        unbroken(decimal(n)),
        !is_white(decimal(n).last()),
{
    lemma_decimal_digits(n);
    assert forall|i: int| 0 <= i < decimal(n).len() implies !is_white(#[trigger] decimal(n)[i]) by {
        assert('0' <= decimal(n)[i] <= '9');
    }
    assert(decimal(n).last() == decimal(n)[decimal(n).len() - 1]);
}

proof fn lemma_words_unbroken(w: Seq<char>)
    requires
        forall|i: int| 0 <= i < w.len() ==> ('a' <= #[trigger] w[i] <= 'z' || w[i] == ':'),
    ensures
        unbroken(w),
{
    assert forall|i: int| 0 <= i < w.len() implies !is_white(#[trigger] w[i]) by {
        assert('a' <= w[i] <= 'z' || w[i] == ':');
    }
}

proof fn lemma_no_named_components(ws: Seq<Seq<char>>)
    requires
        forall|i: int| 0 <= i < ws.len() ==> (#[trigger] token_component(ws[i])) is None,
    ensures
        named_components(ws) == Seq::<SimulatedComponent>::empty(),
    decreases ws.len(),
{
    if ws.len() > 0 {
        assert(token_component(ws[ws.len() - 1]) is None);
        assert forall|i: int| 0 <= i < ws.len() - 1 implies (#[trigger] token_component(
            ws.drop_last()[i],
        )) is None by {
            assert(ws.drop_last()[i] == ws[i]);
        }
        lemma_no_named_components(ws.drop_last());
    }
}

/// The simulated components the selections ask for, in order.
pub open spec fn simulated_kinds(cs: Seq<crate::protocol::ComponentSelection>) -> Seq<
    SimulatedComponent,
>
    decreases cs.len(),
{
    if cs.len() == 0 {
        Seq::empty()
    } else {
        match simulated_kind(cs.last()) {
            Some(k) => simulated_kinds(cs.drop_last()).push(k),
            None => simulated_kinds(cs.drop_last()),
        }
    }
}

/// What the simulator sends for a request naming these selections: the
/// simulated kinds among them, or 6D with residuals where there is none.
pub open spec fn served_kinds(cs: Seq<crate::protocol::ComponentSelection>) -> Seq<SimulatedComponent> {
    if simulated_kinds(cs).len() == 0 {
        seq![SimulatedComponent::SixDResidual]
    } else {
        simulated_kinds(cs)
    }
}

proof fn lemma_unbroken_join(parts: Seq<Seq<char>>, sep: Seq<char>)
    requires
        unbroken(sep),
        forall|i: int| 0 <= i < parts.len() ==> unbroken(#[trigger] parts[i]),
    ensures
        unbroken(crate::text::join(parts, sep)),
    decreases parts.len(),
{
    if parts.len() == 0 {
        assert(crate::text::join(parts, sep) =~= Seq::<char>::empty());
    } else if parts.len() > 1 {
        let init = parts.drop_last();
        assert forall|i: int| 0 <= i < init.len() implies unbroken(#[trigger] init[i]) by {
            assert(init[i] == parts[i]);
        }
        lemma_unbroken_join(init, sep);
        assert(unbroken(parts.last()));
        lemma_unbroken_concat(crate::text::join(init, sep), sep);
        lemma_unbroken_concat(crate::text::join(init, sep) + sep, parts.last());
    } else {
        assert(unbroken(parts[0]));
    }
}

/// The word a selection is asked for by is unbroken and names the
/// simulated kind of the selection, if any.
proof fn lemma_fragment_word(c: crate::protocol::ComponentSelection)
    ensures
        unbroken(c.spec_fragment()),
        c.spec_fragment().len() > 0,
        token_component(c.spec_fragment()) == simulated_kind(c),
{
    reveal_strlit("2d");
    reveal_strlit("2dlin");
    reveal_strlit("3d");
    reveal_strlit("3dres");
    reveal_strlit("3dnolabels");
    reveal_strlit("3dnolabelsres");
    reveal_strlit("force");
    reveal_strlit("forcesingle");
    reveal_strlit("6d");
    reveal_strlit("6dres");
    reveal_strlit("6dresidual");
    reveal_strlit("6deuler");
    reveal_strlit("6deulerres");
    reveal_strlit("image");
    reveal_strlit("gazevector");
    reveal_strlit("eyetracker");
    reveal_strlit("timecode");
    reveal_strlit("skeleton");
    reveal_strlit("skeleton:global");
    reveal_strlit("analog");
    reveal_strlit("analogsingle");
    reveal_strlit(":");
    reveal_strlit(",");
    reveal_strlit("6dresidual");
    let w = c.spec_fragment();
    match c {
        crate::protocol::ComponentSelection::Analog { channels } => {
            lemma_channels_unbroken("analog"@, channels@);
            lemma_not_component_word(w);
        },
        crate::protocol::ComponentSelection::AnalogSingle { channels } => {
            lemma_channels_unbroken("analogsingle"@, channels@);
            lemma_not_component_word(w);
        },
        _ => {
            assert(crate::cli::plain_word(w));
            crate::cli::lemma_normalized_plain(w);
            lemma_words_unbroken_plain(w);
        },
    }
}

proof fn lemma_words_unbroken_plain(w: Seq<char>)
    requires
        crate::cli::plain_word(w),
    ensures
        unbroken(w),
{
    assert forall|i: int| 0 <= i < w.len() implies !is_white(#[trigger] w[i]) by {
        assert(crate::cli::plain_char(w[i]));
    }
}

proof fn lemma_channels_unbroken(prefix: Seq<char>, channels: Seq<u32>)
    requires
        crate::cli::plain_word(prefix),
        prefix.len() > 0,
    ensures
        unbroken(crate::protocol::channels_fragment(prefix, channels)),
        crate::protocol::channels_fragment(prefix, channels).len() > 0,
        crate::protocol::channels_fragment(prefix, channels)[0] == prefix[0],
{
    reveal_strlit(":");
    reveal_strlit(",");
    lemma_words_unbroken_plain(prefix);
    if channels.len() > 0 {
        let parts = channels.map_values(|c: u32| decimal(c as nat));
        assert forall|i: int| 0 <= i < parts.len() implies unbroken(#[trigger] parts[i]) by {
            lemma_digits_unbroken(channels[i] as nat);
        }
        assert(unbroken(","@)) by {
            assert(","@[0] == ',');
        }
        assert(unbroken(":"@)) by {
            assert(":"@[0] == ':');
        }
        lemma_unbroken_join(parts, ","@);
        lemma_unbroken_concat(prefix, ":"@);
        lemma_unbroken_concat(prefix + ":"@, crate::text::join(parts, ","@));
    }
}

/// The components named by the words of the selections' fragments.
proof fn lemma_named_fragments(cs: Seq<crate::protocol::ComponentSelection>)
    ensures
        named_components(crate::protocol::component_fragments(cs)) == simulated_kinds(cs),
        forall|i: int|
            0 <= i < cs.len() ==> unbroken(#[trigger] crate::protocol::component_fragments(cs)[i])
                && crate::protocol::component_fragments(cs)[i].len() > 0,
    decreases cs.len(),
{
    let f = crate::protocol::component_fragments(cs);
    assert forall|i: int| 0 <= i < cs.len() implies unbroken(#[trigger] f[i]) && f[i].len() > 0 by {
        lemma_fragment_word(cs[i]);
    }
    if cs.len() > 0 {
        let init = cs.drop_last();
        lemma_named_fragments(init);
        assert(f.drop_last() =~= crate::protocol::component_fragments(init));
        lemma_fragment_word(cs.last());
        assert(token_component(f.last()) == simulated_kind(cs.last()));
    } else {
        assert(f =~= Seq::<Seq<char>>::empty());
    }
}

/// The words of a command made of leading words that name no component
/// and the selections' fragments name the selections' simulated kinds.
proof fn lemma_command_kinds(head: Seq<Seq<char>>, cs: Seq<crate::protocol::ComponentSelection>)
    requires
        head.len() > 0,
        forall|i: int|
            0 <= i < head.len() ==> unbroken(#[trigger] head[i]) && head[i].len() > 0
                && token_component(head[i]) is None,
    ensures
        spec_requested_components(
            crate::text::join(head + crate::protocol::component_fragments(cs), " "@),
        ) == served_kinds(cs),
{
    let frags = crate::protocol::component_fragments(cs);
    lemma_named_fragments(cs);
    let parts = head + frags;
    assert forall|i: int| 0 <= i < parts.len() implies unbroken(#[trigger] parts[i]) && parts[i].len()
        > 0 by {
        if i < head.len() {
            assert(parts[i] == head[i]);
        } else {
            assert(parts[i] == frags[i - head.len()]);
        }
    }
    lemma_split_white_join(parts);
    lemma_nonempty_pieces_all(parts);
    lemma_named_components_concat(head, frags);
    lemma_no_named_components(head);
    assert(named_components(parts) =~= simulated_kinds(cs));
}

/// Asked for a current frame, the simulator sends the 6D kinds the
/// request names, in the order asked, or 6D with residuals where it names
/// none.
pub proof fn law_simulator_frames_hold_requested_kinds(cs: Seq<crate::protocol::ComponentSelection>)
    ensures
        spec_requested_components(
            "getcurrentframe "@ + crate::protocol::words(crate::protocol::component_fragments(cs)),
        ) == served_kinds(cs),
{
    reveal_strlit("getcurrentframe ");
    reveal_strlit("getcurrentframe");
    reveal_strlit(" ");
    let head = seq!["getcurrentframe"@];
    assert(crate::cli::plain_word("getcurrentframe"@));
    lemma_words_unbroken_plain("getcurrentframe"@);
    lemma_not_component_word("getcurrentframe"@);
    let frags = crate::protocol::component_fragments(cs);
    if cs.len() > 0 {
        assert(frags.len() > 0);
        lemma_join_front("getcurrentframe"@, frags, " "@);
        assert(head + frags =~= seq!["getcurrentframe"@] + frags);
        assert("getcurrentframe "@ + crate::protocol::words(frags) =~= crate::text::join(
            head + frags,
            " "@,
        ));
        lemma_command_kinds(head, cs);
    } else {
        assert(frags =~= Seq::<Seq<char>>::empty());
        assert(crate::protocol::words(frags) =~= Seq::<char>::empty());
        let c = "getcurrentframe "@ + crate::protocol::words(frags);
        assert(c =~= "getcurrentframe"@ + " "@);
        lemma_split_white_join(head);
        assert(crate::text::join(head, " "@) == "getcurrentframe"@);
        assert(c.drop_last() =~= "getcurrentframe"@);
        assert(split_white(c) == head.push(Seq::<char>::empty()));
        assert(words_of(c) =~= head) by {
            let ps = head.push(Seq::<char>::empty());
            assert(ps.drop_last() =~= head);
            lemma_nonempty_pieces_all(head);
        }
        lemma_no_named_components(head);
        assert(simulated_kinds(cs) =~= Seq::<SimulatedComponent>::empty());
    }
}

/// Asked for a stream, the simulator streams the 6D kinds the request
/// names, in the order asked, or 6D with residuals where it names none
/// (where the UDP destination, if any, is text without whitespace).
pub proof fn law_simulator_streams_requested_kinds(
    request: crate::protocol::StreamFramesRequest,
    udp_port_override: Option<u16>,
)
    requires
        request.transport matches crate::protocol::StreamTransport::Udp { destination, .. }
            ==> (destination matches Some(d) ==> unbroken(d@)),
    ensures
        spec_requested_components(request.spec_command(udp_port_override)) == served_kinds(
            request.components@,
        ),
{
    reveal_strlit("streamframes");
    reveal_strlit("allframes");
    reveal_strlit("frequency:");
    reveal_strlit("frequencydivisor:");
    reveal_strlit("udp:");
    reveal_strlit(":");
    let cs = request.components@;
    let rate = request.rate.spec_fragment();
    let udp = request.spec_udp_words(udp_port_override);
    let frags = crate::protocol::component_fragments(cs);
    let head = seq!["streamframes"@, rate] + udp;
    assert(head + frags =~= seq!["streamframes"@, rate] + udp + frags);
    lemma_words_unbroken("streamframes"@);
    lemma_not_component_word("streamframes"@);
    match request.rate {
        crate::protocol::StreamRate::AllFrames => {
            lemma_words_unbroken("allframes"@);
        },
        crate::protocol::StreamRate::Frequency(v) => {
            lemma_words_unbroken("frequency:"@);
            lemma_digits_unbroken(v as nat);
            lemma_unbroken_concat("frequency:"@, decimal(v as nat));
        },
        crate::protocol::StreamRate::FrequencyDivisor(v) => {
            lemma_words_unbroken("frequencydivisor:"@);
            lemma_digits_unbroken(v as nat);
            lemma_unbroken_concat("frequencydivisor:"@, decimal(v as nat));
        },
    }
    lemma_not_component_word(rate);
    match request.transport {
        crate::protocol::StreamTransport::Tcp => {
            assert(udp =~= Seq::<Seq<char>>::empty());
        },
        crate::protocol::StreamTransport::Udp { bind_address, destination } => {
            let port: u16 = match udp_port_override {
                Some(p) => p,
                None => bind_address.spec_port(),
            };
            lemma_words_unbroken("udp:"@);
            lemma_words_unbroken(":"@);
            lemma_digits_unbroken(port as nat);
            let w = udp[0];
            match destination {
                Some(d) => {
                    lemma_unbroken_concat("udp:"@, d@);
                    lemma_unbroken_concat("udp:"@ + d@, ":"@);
                    lemma_unbroken_concat("udp:"@ + d@ + ":"@, decimal(port as nat));
                },
                None => {
                    lemma_unbroken_concat("udp:"@, decimal(port as nat));
                },
            }
            assert(w[0] == 'u');
            lemma_not_component_word(w);
            assert(udp =~= seq![w]);
        },
    }
    assert forall|i: int|
        0 <= i < head.len() implies unbroken(#[trigger] head[i]) && head[i].len() > 0
        && token_component(head[i]) is None by {
        if i >= 2 {
            assert(head[i] == udp[i - 2]);
        }
    }
    lemma_command_kinds(head, cs);
}

/// The 6D component of a simulated frame holds the synthetic bodies with
/// their positions and rotation matrices as they are (the same nine words
/// in the same order) and only the residual left out, one body for each;
/// the 6D-with-residual component holds the bodies themselves. Both are
/// built from the same bodies, so they agree body by body.
pub proof fn law_simulated_six_d_keeps_bodies(bodies: Seq<Body6DResidualModel>)
    ensures
        spec_simulated_component(SimulatedComponent::SixD, bodies).data matches ComponentDataModel::SixD(
            l,
        ) && l.items.len() == bodies.len() && forall|i: int|
            0 <= i < bodies.len() ==> (#[trigger] l.items[i]).position == bodies[i].position
                && l.items[i].rotation_matrix == bodies[i].rotation_matrix,
        spec_simulated_component(SimulatedComponent::SixDResidual, bodies).data
            matches ComponentDataModel::SixDResidual(m) && m.items == bodies,
{
}

} // verus!
