//! Encoding of packets: the exact inverse of decoding for the components it
//! supports (3D, 3D without labels, the four 6D kinds and raw payloads).

use vstd::bytes::{spec_u16_to_le_bytes, spec_u32_to_le_bytes, spec_u64_to_le_bytes, u16_to_le_bytes, u32_to_le_bytes, u64_to_le_bytes};
use vstd::prelude::*;
use vstd::utf8::encode_utf8;

use crate::error::QtmError;
use crate::packet::{views, Body6D, Body6DEuler, Body6DEulerResidual, Body6DResidual, Body6DEulerModel, Body6DEulerResidualModel, Body6DModel, Body6DResidualModel, ComponentData, ComponentDataModel, ComponentModel, DataPacket, DataPacketModel, Point3, Point3NoLabel};
use crate::protocol::PacketType;

verus! {

/// Little-endian bytes of an `i16`.
pub open spec fn w16(v: i16) -> Seq<u8> {
    spec_u16_to_le_bytes(v as u16)
}

/// Little-endian bytes of a `u32`.
pub open spec fn w32(v: u32) -> Seq<u8> {
    spec_u32_to_le_bytes(v)
}

/// Little-endian bytes of an `i32`.
pub open spec fn wi32(v: i32) -> Seq<u8> {
    spec_u32_to_le_bytes(v as u32)
}

/// Little-endian bytes of a `u64`.
pub open spec fn w64(v: u64) -> Seq<u8> {
    spec_u64_to_le_bytes(v)
}

/// The encodings of the items, one after the other.
pub open spec fn enc_seq<T>(xs: Seq<T>, f: spec_fn(T) -> Seq<u8>) -> Seq<u8>
    decreases xs.len(),
{
    if xs.len() == 0 {
        Seq::empty()
    } else {
        enc_seq(xs.drop_last(), f) + f(xs.last())
    }
}

pub proof fn lemma_enc_seq_take<T>(xs: Seq<T>, f: spec_fn(T) -> Seq<u8>, i: int)
    requires
        0 <= i < xs.len(),
    ensures
        enc_seq(xs.take(i + 1), f) == enc_seq(xs.take(i), f) + f(xs[i]),
{
    assert(xs.take(i + 1).drop_last() =~= xs.take(i));
}

pub open spec fn word_enc() -> spec_fn(u32) -> Seq<u8> {
    |w: u32| w32(w)
}

/// Words, each in little-endian order.
pub open spec fn enc_words(ws: Seq<u32>) -> Seq<u8> {
    enc_seq(ws, word_enc())
}

pub open spec fn enc_point3(p: Point3) -> Seq<u8> {
    w32(p.x) + w32(p.y) + w32(p.z)
}

pub open spec fn enc_point3_nolabel(p: Point3NoLabel) -> Seq<u8> {
    w32(p.x) + w32(p.y) + w32(p.z) + wi32(p.id)
}

pub open spec fn enc_body6d(b: Body6DModel) -> Seq<u8> {
    enc_point3(b.position) + enc_words(b.rotation_matrix)
}

pub open spec fn enc_body6d_residual(b: Body6DResidualModel) -> Seq<u8> {
    enc_point3(b.position) + enc_words(b.rotation_matrix) + w32(b.residual)
}

pub open spec fn enc_body6d_euler(b: Body6DEulerModel) -> Seq<u8> {
    enc_point3(b.position) + enc_words(b.euler)
}

pub open spec fn enc_body6d_euler_residual(b: Body6DEulerResidualModel) -> Seq<u8> {
    enc_point3(b.position) + enc_words(b.euler) + w32(b.residual)
}

/// Count, drop rate, out-of-sync rate, items.
pub open spec fn enc_rated<T>(
    count: Seq<u8>,
    drop_rate: i16,
    out_of_sync_rate: i16,
    items: Seq<T>,
    f: spec_fn(T) -> Seq<u8>,
) -> Seq<u8> {
    count + w16(drop_rate) + w16(out_of_sync_rate) + enc_seq(items, f)
}

/// The payload a component's data encodes to: the layouts the decoder
/// reads, for the kinds that have an encoder; `None` for the other kinds
/// and for counts that do not fit their field (`u32` for 3D, `i32` for 6D).
pub open spec fn spec_encode_component_data(d: ComponentDataModel) -> Option<Seq<u8>> {
    match d {
        ComponentDataModel::ThreeD(l) => if l.items.len() <= u32::MAX {
            Some(
                enc_rated(
                    w32(l.items.len() as u32),
                    l.drop_rate,
                    l.out_of_sync_rate,
                    l.items,
                    Point3::enc(),
                ),
            )
        } else {
            None
        },
        ComponentDataModel::ThreeDNoLabels(l) => if l.items.len() <= u32::MAX {
            Some(
                enc_rated(
                    w32(l.items.len() as u32),
                    l.drop_rate,
                    l.out_of_sync_rate,
                    l.items,
                    Point3NoLabel::enc(),
                ),
            )
        } else {
            None
        },
        ComponentDataModel::SixD(l) => if l.items.len() <= i32::MAX {
            Some(
                enc_rated(
                    wi32(l.items.len() as i32),
                    l.drop_rate,
                    l.out_of_sync_rate,
                    l.items,
                    Body6D::enc(),
                ),
            )
        } else {
            None
        },
        ComponentDataModel::SixDResidual(l) => if l.items.len() <= i32::MAX {
            Some(
                enc_rated(
                    wi32(l.items.len() as i32),
                    l.drop_rate,
                    l.out_of_sync_rate,
                    l.items,
                    Body6DResidual::enc(),
                ),
            )
        } else {
            None
        },
        ComponentDataModel::SixDEuler(l) => if l.items.len() <= i32::MAX {
            Some(
                enc_rated(
                    wi32(l.items.len() as i32),
                    l.drop_rate,
                    l.out_of_sync_rate,
                    l.items,
                    Body6DEuler::enc(),
                ),
            )
        } else {
            None
        },
        ComponentDataModel::SixDEulerResidual(l) => if l.items.len() <= i32::MAX {
            Some(
                enc_rated(
                    wi32(l.items.len() as i32),
                    l.drop_rate,
                    l.out_of_sync_rate,
                    l.items,
                    Body6DEulerResidual::enc(),
                ),
            )
        } else {
            None
        },
        ComponentDataModel::Raw(b) => Some(b),
        _ => None,
    }
}

/// A component on the wire: size (8 + payload length), id, payload.
pub open spec fn spec_encode_component(c: ComponentModel) -> Option<Seq<u8>> {
    match spec_encode_component_data(c.data) {
        Some(p) => if 8 + p.len() <= u32::MAX {
            Some(w32((8 + p.len()) as u32) + w32(c.id) + p)
        } else {
            None
        },
        None => None,
    }
}

/// The components on the wire, one after the other.
pub open spec fn spec_encode_components(cs: Seq<ComponentModel>) -> Option<Seq<u8>>
    decreases cs.len(),
{
    if cs.len() == 0 {
        Some(Seq::empty())
    } else {
        match spec_encode_components(cs.drop_last()) {
            Some(a) => match spec_encode_component(cs.last()) {
                Some(b) => Some(a + b),
                None => None,
            },
            None => None,
        }
    }
}

/// A framed packet: total size, type number, payload.
pub open spec fn spec_encode_framed(t: PacketType, p: Seq<u8>) -> Option<Seq<u8>> {
    if 8 + p.len() <= u32::MAX {
        Some(w32((8 + p.len()) as u32) + w32(t.spec_value()) + p)
    } else {
        None
    }
}

/// A data packet on the wire.
pub open spec fn spec_encode_data_packet(m: DataPacketModel) -> Option<Seq<u8>> {
    if m.components.len() > u32::MAX {
        None
    } else {
        match spec_encode_components(m.components) {
            Some(cb) => spec_encode_framed(
                PacketType::Data,
                w64(m.timestamp) + w32(m.frame_number) + w32(m.components.len() as u32) + cb,
            ),
            None => None,
        }
    }
}

/// Appends bytes.
pub fn append_bytes(out: &mut Vec<u8>, b: &[u8])
    ensures
        final(out)@ == old(out)@ + b@,
{
    let mut i: usize = 0;
    while i < b.len()
        invariant
            0 <= i <= b.len(),
            out@ == old(out)@ + b@.take(i as int),
        decreases b.len() - i,
    {
        out.push(b[i]);
        assert(b@.take(i + 1) =~= b@.take(i as int).push(b@[i as int]));
        i = i + 1;
    }
    assert(b@.take(b.len() as int) =~= b@);
}

pub fn push_u32(out: &mut Vec<u8>, v: u32)
    ensures
        final(out)@ == old(out)@ + w32(v),
{
    let b = u32_to_le_bytes(v);
    append_bytes(out, b.as_slice());
}

pub fn push_i32(out: &mut Vec<u8>, v: i32)
    ensures
        final(out)@ == old(out)@ + wi32(v),
{
    push_u32(out, v as u32);
}

pub fn push_i16(out: &mut Vec<u8>, v: i16)
    ensures
        final(out)@ == old(out)@ + w16(v),
{
    let b = u16_to_le_bytes(v as u16);
    append_bytes(out, b.as_slice());
}

pub fn push_u64(out: &mut Vec<u8>, v: u64)
    ensures
        final(out)@ == old(out)@ + w64(v),
{
    let b = u64_to_le_bytes(v);
    append_bytes(out, b.as_slice());
}

/// Appends the three coordinates of a point.
pub fn write_point3(bytes: &mut Vec<u8>, point: &Point3)
    ensures
        final(bytes)@ == old(bytes)@ + enc_point3(*point),
{
    push_u32(bytes, point.x);
    push_u32(bytes, point.y);
    push_u32(bytes, point.z);
    assert(bytes@ =~= old(bytes)@ + enc_point3(*point));
}

/// Appends words.
fn write_words(bytes: &mut Vec<u8>, words: &[u32])
    ensures
        final(bytes)@ == old(bytes)@ + enc_words(words@),
{
    let mut k: usize = 0;
    while k < words.len()
        invariant
            0 <= k <= words.len(),
            bytes@ == old(bytes)@ + enc_words(words@.take(k as int)),
        decreases words.len() - k,
    {
        proof {
            lemma_enc_seq_take(words@, word_enc(), k as int);
        }
        push_u32(bytes, words[k]);
        assert(bytes@ =~= old(bytes)@ + enc_words(words@.take(k + 1)));
        k = k + 1;
    }
    assert(words@.take(words.len() as int) =~= words@);
}


/// A value with a wire encoding.
pub trait WireEncode: View + Sized {
    /// The bytes a value (by its model) encodes to.
    spec fn enc() -> spec_fn(Self::V) -> Seq<u8>;

    /// Appends the encoding of this value.
    fn write(&self, out: &mut Vec<u8>)
        ensures
            final(out)@ == old(out)@ + Self::enc()(self@),
    ;
}

impl WireEncode for Point3 {
    open spec fn enc() -> spec_fn(Point3) -> Seq<u8> {
        |p: Point3| enc_point3(p)
    }

    fn write(&self, out: &mut Vec<u8>) {
        write_point3(out, self);
    }
}

impl WireEncode for Point3NoLabel {
    open spec fn enc() -> spec_fn(Point3NoLabel) -> Seq<u8> {
        |p: Point3NoLabel| enc_point3_nolabel(p)
    }

    fn write(&self, out: &mut Vec<u8>) {
        push_u32(out, self.x);
        push_u32(out, self.y);
        push_u32(out, self.z);
        push_i32(out, self.id);
        assert(out@ =~= old(out)@ + enc_point3_nolabel(*self));
    }
}

impl WireEncode for Body6D {
    open spec fn enc() -> spec_fn(Body6DModel) -> Seq<u8> {
        |b: Body6DModel| enc_body6d(b)
    }

    fn write(&self, out: &mut Vec<u8>) {
        write_point3(out, &self.position);
        write_words(out, &self.rotation_matrix);
        assert(out@ =~= old(out)@ + enc_body6d(self@));
    }
}

impl WireEncode for Body6DResidual {
    open spec fn enc() -> spec_fn(Body6DResidualModel) -> Seq<u8> {
        |b: Body6DResidualModel| enc_body6d_residual(b)
    }

    fn write(&self, out: &mut Vec<u8>) {
        write_point3(out, &self.position);
        write_words(out, &self.rotation_matrix);
        push_u32(out, self.residual);
        assert(out@ =~= old(out)@ + enc_body6d_residual(self@));
    }
}

impl WireEncode for Body6DEuler {
    open spec fn enc() -> spec_fn(Body6DEulerModel) -> Seq<u8> {
        |b: Body6DEulerModel| enc_body6d_euler(b)
    }

    fn write(&self, out: &mut Vec<u8>) {
        write_point3(out, &self.position);
        write_words(out, &self.euler);
        assert(out@ =~= old(out)@ + enc_body6d_euler(self@));
    }
}

impl WireEncode for Body6DEulerResidual {
    open spec fn enc() -> spec_fn(Body6DEulerResidualModel) -> Seq<u8> {
        |b: Body6DEulerResidualModel| enc_body6d_euler_residual(b)
    }

    fn write(&self, out: &mut Vec<u8>) {
        write_point3(out, &self.position);
        write_words(out, &self.euler);
        push_u32(out, self.residual);
        assert(out@ =~= old(out)@ + enc_body6d_euler_residual(self@));
    }
}

/// Appends the encodings of the items, one after the other.
pub fn write_list<T: WireEncode>(out: &mut Vec<u8>, items: &Vec<T>)
    ensures
        final(out)@ == old(out)@ + enc_seq(views(items@), T::enc()),
{
    let ghost all = views(items@);
    let mut i: usize = 0;
    while i < items.len()
        invariant
            0 <= i <= items.len(),
            all == views(items@),
            out@ == old(out)@ + enc_seq(all.take(i as int), T::enc()),
        decreases items.len() - i,
    {
        proof {
            lemma_enc_seq_take(all, T::enc(), i as int);
        }
        items[i].write(out);
        assert(out@ =~= old(out)@ + enc_seq(all.take(i + 1), T::enc()));
        i = i + 1;
    }
    assert(all.take(items.len() as int) =~= all);
}

/// Appends count, rates and the items of a rated list.
fn write_rated<T: WireEncode>(
    out: &mut Vec<u8>,
    signed: bool,
    drop_rate: i16,
    out_of_sync_rate: i16,
    items: &Vec<T>,
) -> (r: Result<(), QtmError>)
    ensures
        match r {
            Ok(()) => final(out)@ == old(out)@ + enc_rated(
                if signed {
                    wi32(items@.len() as i32)
                } else {
                    w32(items@.len() as u32)
                },
                drop_rate,
                out_of_sync_rate,
                views(items@),
                T::enc(),
            ) && (if signed {
                items@.len() <= i32::MAX
            } else {
                items@.len() <= u32::MAX
            }),
            Err(e) => e is InvalidPacket && (if signed {
                items@.len() > i32::MAX
            } else {
                items@.len() > u32::MAX
            }),
        },
{
    let n = items.len();
    if signed {
        if n as u64 > 0x7fff_ffff {
            return Err(QtmError::invalid_packet("6D body count does not fit i32"));
        }
        push_i32(out, n as i32);
    } else {
        if n as u64 > 0xffff_ffff {
            return Err(QtmError::invalid_packet("3D marker count does not fit u32"));
        }
        push_u32(out, n as u32);
    }
    push_i16(out, drop_rate);
    push_i16(out, out_of_sync_rate);
    let ghost mid = out@;
    write_list(out, items);
    assert(out@ =~= old(out)@ + enc_rated(
        if signed {
            wi32(items@.len() as i32)
        } else {
            w32(items@.len() as u32)
        },
        drop_rate,
        out_of_sync_rate,
        views(items@),
        T::enc(),
    ));
    Ok(())
}

/// Encodes the payload of a component, for the kinds that have an encoder.
pub fn encode_component_data(data: &ComponentData) -> (r: Result<Vec<u8>, QtmError>)
    ensures
        match r {
            Ok(b) => spec_encode_component_data(data@) == Some(b@),
            Err(e) => spec_encode_component_data(data@) is None && e is InvalidPacket,
        },
{
    let mut bytes: Vec<u8> = Vec::new();
    match data {
        ComponentData::ThreeD(c) => {
            write_rated(&mut bytes, false, c.drop_rate, c.out_of_sync_rate, &c.markers)?;
        },
        ComponentData::ThreeDNoLabels(c) => {
            write_rated(&mut bytes, false, c.drop_rate, c.out_of_sync_rate, &c.markers)?;
        },
        ComponentData::SixD(c) => {
            write_rated(&mut bytes, true, c.drop_rate, c.out_of_sync_rate, &c.bodies)?;
        },
        ComponentData::SixDResidual(c) => {
            write_rated(&mut bytes, true, c.drop_rate, c.out_of_sync_rate, &c.bodies)?;
        },
        ComponentData::SixDEuler(c) => {
            write_rated(&mut bytes, true, c.drop_rate, c.out_of_sync_rate, &c.bodies)?;
        },
        ComponentData::SixDEulerResidual(c) => {
            write_rated(&mut bytes, true, c.drop_rate, c.out_of_sync_rate, &c.bodies)?;
        },
        ComponentData::Raw(raw) => {
            append_bytes(&mut bytes, raw.as_slice());
        },
        ComponentData::TwoD(_) => {
            return Err(QtmError::invalid_packet("encoding 2D components is not implemented"));
        },
        ComponentData::TwoDLinearized(_) => {
            return Err(QtmError::invalid_packet("encoding 2D linearized components is not implemented"));
        },
        ComponentData::ThreeDResidual(_) => {
            return Err(QtmError::invalid_packet("encoding 3D residual components is not implemented"));
        },
        ComponentData::ThreeDNoLabelsResidual(_) => {
            return Err(QtmError::invalid_packet("encoding 3D no-label residual components is not implemented"));
        },
        ComponentData::Analog(_) => {
            return Err(QtmError::invalid_packet("encoding analog components is not implemented"));
        },
        ComponentData::AnalogSingle(_) => {
            return Err(QtmError::invalid_packet("encoding analog single components is not implemented"));
        },
        ComponentData::Force(_) => {
            return Err(QtmError::invalid_packet("encoding force components is not implemented"));
        },
        ComponentData::ForceSingle(_) => {
            return Err(QtmError::invalid_packet("encoding force single components is not implemented"));
        },
        ComponentData::GazeVector(_) => {
            return Err(QtmError::invalid_packet("encoding gaze vector components is not implemented"));
        },
        ComponentData::EyeTracker(_) => {
            return Err(QtmError::invalid_packet("encoding eye tracker components is not implemented"));
        },
        ComponentData::Image(_) => {
            return Err(QtmError::invalid_packet("encoding image components is not implemented"));
        },
        ComponentData::Timecode(_) => {
            return Err(QtmError::invalid_packet("encoding timecode components is not implemented"));
        },
        ComponentData::Skeleton(_) => {
            return Err(QtmError::invalid_packet("encoding skeleton components is not implemented"));
        },
    }
    Ok(bytes)
}

/// Frames a payload: total size (8 + payload length), type number, payload.
pub fn encode_framed_packet(packet_type: PacketType, payload: &[u8]) -> (r: Result<Vec<u8>, QtmError>)
    ensures
        match r {
            Ok(b) => spec_encode_framed(packet_type, payload@) == Some(b@),
            Err(e) => spec_encode_framed(packet_type, payload@) is None && e is InvalidPacket,
        },
{
    if payload.len() as u64 > 0xffff_ffff - 8 {
        return Err(QtmError::invalid_packet("packet length does not fit u32"));
    }
    let total_len = (payload.len() + 8) as u32;
    let mut bytes: Vec<u8> = Vec::new();
    push_u32(&mut bytes, total_len);
    push_u32(&mut bytes, packet_type.value());
    append_bytes(&mut bytes, payload);
    Ok(bytes)
}

/// A text packet: the text's UTF-8 bytes and a terminating NUL, framed.
pub fn encode_text_packet(packet_type: PacketType, text: &str) -> (r: Result<Vec<u8>, QtmError>)
    ensures
        match r {
            Ok(b) => spec_encode_framed(packet_type, encode_utf8(text@).push(0)) == Some(b@),
            Err(e) => spec_encode_framed(packet_type, encode_utf8(text@).push(0)) is None
                && e is InvalidPacket,
        },
{
    let mut payload: Vec<u8> = Vec::new();
    append_bytes(&mut payload, text.as_bytes());
    payload.push(0);
    assert(payload@ =~= encode_utf8(text@).push(0));
    encode_framed_packet(packet_type, payload.as_slice())
}

/// Once a prefix of the components fails to encode, the whole list does.
proof fn lemma_encode_components_fails(cs: Seq<ComponentModel>, i: int)
    requires
        0 <= i <= cs.len(),
        spec_encode_components(cs.take(i)) is None,
    ensures
        spec_encode_components(cs) is None,
    decreases cs.len() - i,
{
    if i < cs.len() {
        assert(cs.take(i + 1).drop_last() =~= cs.take(i));
        lemma_encode_components_fails(cs, i + 1);
    } else {
        assert(cs.take(i) =~= cs);
    }
}

/// Encodes a data packet, framed.
pub fn encode_data_packet(packet: &DataPacket) -> (r: Result<Vec<u8>, QtmError>)
    ensures
        match r {
            Ok(b) => spec_encode_data_packet(packet@) == Some(b@),
            Err(e) => spec_encode_data_packet(packet@) is None && e is InvalidPacket,
        },
{
    let ghost cs = views(packet.components@);
    let mut payload: Vec<u8> = Vec::new();
    push_u64(&mut payload, packet.timestamp);
    push_u32(&mut payload, packet.frame_number);
    let n = packet.components.len();
    if n as u64 > 0xffff_ffff {
        return Err(QtmError::invalid_packet("component count does not fit u32"));
    }
    push_u32(&mut payload, n as u32);
    let ghost head = payload@;
    let mut i: usize = 0;
    while i < n
        invariant
            0 <= i <= n,
            n == packet.components@.len(),
            n <= u32::MAX,
            cs == views(packet.components@),
            head == w64(packet.timestamp) + w32(packet.frame_number) + w32(n as u32),
            spec_encode_components(cs.take(i as int)) matches Some(a) && payload@ == head + a,
        decreases n - i,
    {
        let component = &packet.components[i];
        assert(cs.take(i + 1).drop_last() =~= cs.take(i as int));
        assert(cs.take(i + 1).last() == component@);
        let component_payload = match encode_component_data(&component.data) {
            Ok(b) => b,
            Err(e) => {
                proof {
                    lemma_encode_components_fails(cs, i + 1);
                }
                return Err(e);
            },
        };
        if component_payload.len() as u64 > 0xffff_ffff - 8 {
            proof {
                lemma_encode_components_fails(cs, i + 1);
            }
            return Err(QtmError::invalid_packet("component length does not fit u32"));
        }
        let ghost before = payload@;
        push_u32(&mut payload, (component_payload.len() + 8) as u32);
        push_u32(&mut payload, component.id);
        append_bytes(&mut payload, component_payload.as_slice());
        assert(payload@ =~= before + (w32((8 + component_payload@.len()) as u32) + w32(component.id) + component_payload@));
        i = i + 1;
    }
    assert(cs.take(n as int) =~= cs);
    encode_framed_packet(PacketType::Data, payload.as_slice())
}

} // verus!
